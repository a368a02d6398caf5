//! Wave model output: schedules, mirrors, URLs and byte ranges of the
//! published GRIB files.

pub mod byte_range;
pub mod ecmwf_wave;
pub mod gefswave;
pub mod gfswave;
pub mod gridded_model;
pub mod noaa_model;
pub mod nwps;

use vstd::prelude::*;

use crate::model::gridded_model::query_date_ok;
use crate::text::{decimal, push_decimal, push_str, push_zero_padded, zero_padded};
use crate::time::{lemma_recent_can_move_back, push_plain_ymd, spec_plain_ymd, spec_run_before, unix_epoch, utc_now, UtcDateTime};
use crate::tools::closest_model_datetime;

verus! {

/// The mirrors that the GFS wave output is published on.
#[derive(Debug, Clone, Copy, PartialEq, Eq, PartialOrd, Ord)]
pub enum ModelDataSource {
    NODDAWS,
    NODDGCP,
    NOMADS,
}

/// How often the GFS wave model writes an output time step.
#[derive(Debug, Clone, Copy, PartialEq, Eq)]
pub enum ModelTimeOutputResolution {
    Hourly,
    /// Hourly output up to the cutoff hour, three hourly after it.
    HybridHourlyThreeHourly(usize),
    ThreeHourly,
}

impl ModelTimeOutputResolution {
    /// The schedule its name gives: output starts at hour 0, and step
    /// `i + 1` comes one hour after step `i` for hourly output, three hours
    /// after it for three hourly output, six for six hourly output, and for
    /// a hybrid schedule the first spacing up to its cutoff, the second after.
    pub proof fn lemma_output_spacing(self, i: int)
        requires
            i >= 0,
        ensures
            self.spec_hour_for_index(0) == 0,
            self.spec_hour_for_index(i + 1) - self.spec_hour_for_index(i) == match self {
            ModelTimeOutputResolution::Hourly => 1int,
            ModelTimeOutputResolution::HybridHourlyThreeHourly(c) => if i < c {
                1int
            } else {
                3int
            },
            ModelTimeOutputResolution::ThreeHourly => 3int,
            },
    {
    }

    /// The forecast hour written at output step `index`.
    pub open spec fn spec_hour_for_index(self, index: int) -> int {
        match self {
            ModelTimeOutputResolution::Hourly => index,
            ModelTimeOutputResolution::HybridHourlyThreeHourly(cutoff) => {
                if index <= cutoff {
                    index
                } else {
                    cutoff + (index - cutoff) * 3
                }
            },
            ModelTimeOutputResolution::ThreeHourly => index * 3,
        }
    }

    pub fn hour_for_index(&self, index: usize) -> (hour: usize)
        requires
            self.spec_hour_for_index(index as int) <= usize::MAX,
        ensures
            hour == self.spec_hour_for_index(index as int),
    {
        match self {
            ModelTimeOutputResolution::Hourly => index,
            ModelTimeOutputResolution::HybridHourlyThreeHourly(cutoff) => {
                if index <= *cutoff {
                    index
                } else {
                    *cutoff + (index - *cutoff) * 3
                }
            },
            ModelTimeOutputResolution::ThreeHourly => index * 3,
        }
    }
}


/// A NOAA model published as one GRIB file per output step.
pub trait NOAAModel {
    /// `run` is the most recent run expected to be fully published at
    /// `date`.
    spec fn spec_closest_run(&self, date: UtcDateTime, run: UtcDateTime) -> bool;

    /// The URL of the file for output step `output_index` of the run
    /// starting at `run`.
    spec fn spec_url(&self, source: ModelDataSource, output_index: usize, run: UtcDateTime) -> Seq<char>;

    /// Output step `output_index` exists for this model within `usize` hours.
    spec fn spec_output_index_ok(&self, output_index: usize) -> bool;

    fn id(&self) -> &'static str;

    fn name(&self) -> &'static str;

    fn description(&self) -> &'static str;

    fn time_resolution(&self) -> ModelTimeOutputResolution;

    /// The most recent model run expected to be fully published at `date`.
    fn closest_model_run_date(&self, date: &UtcDateTime) -> (run: UtcDateTime)
        requires
            query_date_ok(*date),
        ensures
            run.wf(),
            self.spec_closest_run(*date, run),
    ;

    fn url_root(&self, source: &ModelDataSource) -> &'static str;

    /// The URL of the file for `output_index` of the run published by
    /// `query_date`, or by now when it is None.
    fn create_url(
        &self,
        source: &ModelDataSource,
        output_index: usize,
        query_date: Option<UtcDateTime>,
    ) -> (url: String)
        requires
            query_date matches Some(d) ==> query_date_ok(d),
            self.spec_output_index_ok(output_index),
        ensures
            exists|run: UtcDateTime|
                #![trigger self.spec_url(*source, output_index, run)]
                url@ == self.spec_url(*source, output_index, run) && match query_date {
                    Some(d) => self.spec_closest_run(d, run),
                    None => exists|now: UtcDateTime|
                        #![trigger self.spec_closest_run(now, run)]
                        now.wf() && now.unix_seconds() >= 0 && self.spec_closest_run(now, run),
                },
    ;
}

/// The GFS wave model, addressed by output step.
pub struct GFSWaveModel {
    pub id: &'static str,
    pub name: &'static str,
    pub description: &'static str,
}

impl GFSWaveModel {
    pub fn atlantic() -> (m: Self)
        ensures
            m.id@ == "atlocn.0p16"@,
            m.name@ == "GFS Wave Atlantic"@,
            m.description@ == "GFS Wave Model: Atlantic 0.16 degree"@,
    {
        GFSWaveModel {
            id: "atlocn.0p16",
            name: "GFS Wave Atlantic",
            description: "GFS Wave Model: Atlantic 0.16 degree",
        }
    }

    pub fn west_coast() -> (m: Self)
        ensures
            m.id@ == "wcoast.0p16"@,
            m.name@ == "GFS Wave West Coast US"@,
            m.description@ == "GFS Wave Model: US West Coast 0.16 degree"@,
    {
        GFSWaveModel {
            id: "wcoast.0p16",
            name: "GFS Wave West Coast US",
            description: "GFS Wave Model: US West Coast 0.16 degree",
        }
    }

    pub fn east_pacific() -> (m: Self)
        ensures
            m.id@ == "epacif.0p16"@,
            m.name@ == "GFS Wave East Pacific"@,
            m.description@ == "GFS Wave Model: East Pacific 0.16 degree"@,
    {
        GFSWaveModel {
            id: "epacif.0p16",
            name: "GFS Wave East Pacific",
            description: "GFS Wave Model: East Pacific 0.16 degree",
        }
    }

    pub fn global_16() -> (m: Self)
        ensures
            m.id@ == "global.0p16"@,
            m.name@ == "GFS Wave Global"@,
            m.description@ == "GFS Wave Model: Global 0.16 degree"@,
    {
        GFSWaveModel {
            id: "global.0p16",
            name: "GFS Wave Global",
            description: "GFS Wave Model: Global 0.16 degree",
        }
    }

    pub fn global_25() -> (m: Self)
        ensures
            m.id@ == "global.0p25"@,
            m.name@ == "GFS Wave Global"@,
            m.description@ == "GFS Wave Model: Global 0.25 degree"@,
    {
        GFSWaveModel {
            id: "global.0p25",
            name: "GFS Wave Global",
            description: "GFS Wave Model: Global 0.25 degree",
        }
    }

    pub open spec fn spec_url_root(source: ModelDataSource) -> Seq<char> {
        match source {
            ModelDataSource::NODDAWS => "https://noaa-gfs-bdp-pds.s3.amazonaws.com"@,
            ModelDataSource::NOMADS => "https://nomads.ncep.noaa.gov/pub/data/nccf/com/gfs/prod"@,
            ModelDataSource::NODDGCP => "https://storage.googleapis.com/global-forecast-system"@,
        }
    }
}

impl NOAAModel for GFSWaveModel {
    open spec fn spec_closest_run(&self, date: UtcDateTime, run: UtcDateTime) -> bool {
        spec_run_before(date, 6, 6, run)
    }

    open spec fn spec_url(&self, source: ModelDataSource, output_index: usize, run: UtcDateTime) -> Seq<char> {
        let timestep = ModelTimeOutputResolution::HybridHourlyThreeHourly(120).spec_hour_for_index(
            output_index as int,
        );
        Self::spec_url_root(source) + "/gfs."@ + spec_plain_ymd(run) + "/"@ + zero_padded(
            run.hour as nat,
            2,
        ) + "/wave/gridded/gfswave.t"@ + zero_padded(run.hour as nat, 2) + "z."@ + self.id@
            + ".f"@ + decimal(timestep as nat) + ".grib2"@
    }

    open spec fn spec_output_index_ok(&self, output_index: usize) -> bool {
        ModelTimeOutputResolution::HybridHourlyThreeHourly(120).spec_hour_for_index(
            output_index as int,
        ) <= usize::MAX
    }

    fn id(&self) -> (id: &'static str)
        ensures
            id == self.id,
    {
        self.id
    }

    fn name(&self) -> (name: &'static str)
        ensures
            name == self.name,
    {
        self.name
    }

    fn description(&self) -> (description: &'static str)
        ensures
            description == self.description,
    {
        self.description
    }

    fn time_resolution(&self) -> (r: ModelTimeOutputResolution)
        ensures
            r == ModelTimeOutputResolution::HybridHourlyThreeHourly(120),
    {
        ModelTimeOutputResolution::HybridHourlyThreeHourly(120)
    }

    fn closest_model_run_date(&self, date: &UtcDateTime) -> (run: UtcDateTime) {
        closest_model_datetime(*date)
    }

    fn url_root(&self, source: &ModelDataSource) -> (root: &'static str)
        ensures
            root@ == Self::spec_url_root(*source),
    {
        match source {
            ModelDataSource::NODDAWS => "https://noaa-gfs-bdp-pds.s3.amazonaws.com",
            ModelDataSource::NOMADS => "https://nomads.ncep.noaa.gov/pub/data/nccf/com/gfs/prod",
            ModelDataSource::NODDGCP => "https://storage.googleapis.com/global-forecast-system",
        }
    }

    fn create_url(
        &self,
        source: &ModelDataSource,
        output_index: usize,
        query_date: Option<UtcDateTime>,
    ) -> (url: String) {
        let date = match query_date {
            Some(d) => d,
            None => {
                let now = match utc_now() {
                    Some(t) => t,
                    None => unix_epoch(),
                };
                proof {
                    lemma_recent_can_move_back(now.unix_seconds(), 10);
                }
                now
            },
        };
        let run = self.closest_model_run_date(&date);
        let timestep = self.time_resolution().hour_for_index(output_index);
        let mut url = String::new();
        push_str(&mut url, self.url_root(source));
        push_str(&mut url, "/gfs.");
        push_plain_ymd(&mut url, &run);
        push_str(&mut url, "/");
        push_zero_padded(&mut url, run.hour as u64, 2);
        push_str(&mut url, "/wave/gridded/gfswave.t");
        push_zero_padded(&mut url, run.hour as u64, 2);
        push_str(&mut url, "z.");
        push_str(&mut url, self.id);
        push_str(&mut url, ".f");
        push_decimal(&mut url, timestep as u64);
        push_str(&mut url, ".grib2");
        proof {
            assert(url@ =~= self.spec_url(*source, output_index, run));
        }
        url
    }
}

} // verus!
