//! The GFS wave model (WAVEWATCH III driven by GFS winds).

use vstd::prelude::*;

use crate::model::gridded_model::{
    query_date_ok, GriddedModel, ModelTimeOutputResolution, NOAADataSource,
};
use crate::text::{push_str, push_zero_padded, zero_padded};
use crate::time::{lemma_recent_can_move_back, push_plain_ymd, spec_plain_ymd, spec_run_before, unix_epoch, utc_now, UtcDateTime};
use crate::tools::closest_model_datetime;

verus! {

pub struct GFSWaveModel {
    pub id: &'static str,
    pub name: &'static str,
    pub description: &'static str,
}

impl GFSWaveModel {
    pub fn atlantic() -> (m: Self)
        ensures
            m.id@ == "atlocn.0p16"@,
            m.name@ == "GFS Wave Atlantic"@,
            m.description@ == "GFS Wave Model: Atlantic 0.16 degree"@,
    {
        GFSWaveModel {
            id: "atlocn.0p16",
            name: "GFS Wave Atlantic",
            description: "GFS Wave Model: Atlantic 0.16 degree",
        }
    }

    pub fn west_coast() -> (m: Self)
        ensures
            m.id@ == "wcoast.0p16"@,
            m.name@ == "GFS Wave West Coast US"@,
            m.description@ == "GFS Wave Model: US West Coast 0.16 degree"@,
    {
        GFSWaveModel {
            id: "wcoast.0p16",
            name: "GFS Wave West Coast US",
            description: "GFS Wave Model: US West Coast 0.16 degree",
        }
    }

    pub fn east_pacific() -> (m: Self)
        ensures
            m.id@ == "epacif.0p16"@,
            m.name@ == "GFS Wave East Pacific"@,
            m.description@ == "GFS Wave Model: East Pacific 0.16 degree"@,
    {
        GFSWaveModel {
            id: "epacif.0p16",
            name: "GFS Wave East Pacific",
            description: "GFS Wave Model: East Pacific 0.16 degree",
        }
    }

    pub fn global_16() -> (m: Self)
        ensures
            m.id@ == "global.0p16"@,
            m.name@ == "GFS Wave Global"@,
            m.description@ == "GFS Wave Model: Global 0.16 degree"@,
    {
        GFSWaveModel {
            id: "global.0p16",
            name: "GFS Wave Global",
            description: "GFS Wave Model: Global 0.16 degree",
        }
    }

    pub fn global_25() -> (m: Self)
        ensures
            m.id@ == "global.0p25"@,
            m.name@ == "GFS Wave Global"@,
            m.description@ == "GFS Wave Model: Global 0.25 degree"@,
    {
        GFSWaveModel {
            id: "global.0p25",
            name: "GFS Wave Global",
            description: "GFS Wave Model: Global 0.25 degree",
        }
    }

    /// Hourly output for five days, then three hourly.
    pub fn time_resolution(&self) -> (r: ModelTimeOutputResolution)
        ensures
            r == ModelTimeOutputResolution::HybridHourlyThreeHourly(120),
    {
        ModelTimeOutputResolution::HybridHourlyThreeHourly(120)
    }

    pub open spec fn spec_url_root(source: NOAADataSource) -> Seq<char> {
        match source {
            NOAADataSource::NODDAWS => "https://noaa-gfs-bdp-pds.s3.amazonaws.com"@,
            NOAADataSource::NOMADS => "https://nomads.ncep.noaa.gov/pub/data/nccf/com/gfs/prod"@,
            NOAADataSource::NODDGCP => "https://storage.googleapis.com/global-forecast-system"@,
        }
    }
}

impl GriddedModel for GFSWaveModel {
    type Source = NOAADataSource;

    open spec fn spec_closest_run(&self, date: UtcDateTime, run: UtcDateTime) -> bool {
        spec_run_before(date, 6, 6, run)
    }

    open spec fn spec_url(&self, source: &NOAADataSource, output_hour: usize, run: UtcDateTime) -> Seq<char> {
        Self::spec_url_root(*source) + "/gfs."@ + spec_plain_ymd(run) + "/"@ + zero_padded(
            run.hour as nat,
            2,
        ) + "/wave/gridded/gfswave.t"@ + zero_padded(run.hour as nat, 2) + "z."@ + self.id@
            + ".f"@ + zero_padded(output_hour as nat, 3) + ".grib2"@
    }

    fn id(&self) -> (id: &'static str)
        ensures
            id == self.id,
    {
        self.id
    }

    fn name(&self) -> (name: &'static str)
        ensures
            name == self.name,
    {
        self.name
    }

    fn description(&self) -> (description: &'static str)
        ensures
            description == self.description,
    {
        self.description
    }

    fn closest_model_run_date(&self, date: &UtcDateTime) -> (run: UtcDateTime) {
        closest_model_datetime(*date)
    }

    /// Every output hour up to 384.
    fn forecast_hours(&self, run: &UtcDateTime) -> (hours: Vec<usize>)
        ensures
            hours.len() == 209,
            forall|k: int|
                0 <= k < hours.len() ==> #[trigger] hours@[k]
                    == ModelTimeOutputResolution::HybridHourlyThreeHourly(120).spec_hour_for_index(k),
    {
        self.time_resolution().hours_for_hour_range(0, 384)
    }

    fn url_root(&self, source: &NOAADataSource) -> (root: &'static str)
        ensures
            root@ == Self::spec_url_root(*source),
    {
        match source {
            NOAADataSource::NODDAWS => "https://noaa-gfs-bdp-pds.s3.amazonaws.com",
            NOAADataSource::NOMADS => "https://nomads.ncep.noaa.gov/pub/data/nccf/com/gfs/prod",
            NOAADataSource::NODDGCP => "https://storage.googleapis.com/global-forecast-system",
        }
    }

    fn create_url(
        &self,
        source: &NOAADataSource,
        output_hour: usize,
        query_date: Option<UtcDateTime>,
    ) -> (url: String) {
        let date = match query_date {
            Some(d) => d,
            None => {
                let now = match utc_now() {
                    Some(t) => t,
                    None => unix_epoch(),
                };
                proof {
                    lemma_recent_can_move_back(now.unix_seconds(), 10);
                }
                now
            },
        };
        let run = self.closest_model_run_date(&date);
        let mut url = String::new();
        push_str(&mut url, self.url_root(source));
        push_str(&mut url, "/gfs.");
        push_plain_ymd(&mut url, &run);
        push_str(&mut url, "/");
        push_zero_padded(&mut url, run.hour as u64, 2);
        push_str(&mut url, "/wave/gridded/gfswave.t");
        push_zero_padded(&mut url, run.hour as u64, 2);
        push_str(&mut url, "z.");
        push_str(&mut url, self.id);
        push_str(&mut url, ".f");
        push_zero_padded(&mut url, output_hour as u64, 3);
        push_str(&mut url, ".grib2");
        proof {
            assert(url@ =~= self.spec_url(source, output_hour, run));
        }
        url
    }
}

} // verus!
