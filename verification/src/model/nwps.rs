//! The NOAA Nearshore Wave Prediction System.

use vstd::prelude::*;

use crate::model::gridded_model::query_date_ok;
use crate::model::{ModelDataSource, ModelTimeOutputResolution, NOAAModel};
use crate::text::{push_str, push_zero_padded, zero_padded};
use crate::time::{lemma_recent_can_move_back, push_plain_ymd, spec_plain_ymd, spec_run_before, unix_epoch, utc_now, UtcDateTime};
use crate::tools::closest_model_datetime;

verus! {

pub struct NWPSModel {
    pub id: &'static str,
    pub region: &'static str,
    pub name: &'static str,
    pub description: &'static str,
}

impl NWPSModel {
    pub fn boston() -> (m: Self)
        ensures
            m.id@ == "box"@,
            m.region@ == "er"@,
            m.name@ == "NWPS Boston"@,
            m.description@ == "NOAA Nearshore Wave Predication System: Boston"@,
    {
        NWPSModel {
            id: "box",
            region: "er",
            name: "NWPS Boston",
            description: "NOAA Nearshore Wave Predication System: Boston",
        }
    }
}

impl NOAAModel for NWPSModel {
    open spec fn spec_closest_run(&self, date: UtcDateTime, run: UtcDateTime) -> bool {
        spec_run_before(date, 6, 6, run)
    }

    /// One file holds every output step of a run.
    open spec fn spec_url(&self, source: ModelDataSource, output_index: usize, run: UtcDateTime) -> Seq<char> {
        let ymd = spec_plain_ymd(run);
        let hour = zero_padded(run.hour as nat, 2);
        "https://nomads.ncep.noaa.gov/pub/data/nccf/com/nwps/prod/"@ + self.region@ + "."@ + ymd
            + "/"@ + self.id@ + "/"@ + hour + "/CG1/"@ + self.id@ + "_nwps_CG1_"@ + ymd + "_"@
            + hour + "00.grib2"@
    }

    open spec fn spec_output_index_ok(&self, output_index: usize) -> bool {
        true
    }

    fn id(&self) -> (id: &'static str)
        ensures
            id == self.id,
    {
        self.id
    }

    fn name(&self) -> (name: &'static str)
        ensures
            name == self.name,
    {
        self.name
    }

    fn description(&self) -> (description: &'static str)
        ensures
            description == self.description,
    {
        self.description
    }

    fn time_resolution(&self) -> (r: ModelTimeOutputResolution)
        ensures
            r == ModelTimeOutputResolution::Hourly,
    {
        ModelTimeOutputResolution::Hourly
    }

    fn closest_model_run_date(&self, date: &UtcDateTime) -> (run: UtcDateTime) {
        closest_model_datetime(*date)
    }

    /// Only NOMADS publishes NWPS output.
    fn url_root(&self, source: &ModelDataSource) -> (root: &'static str)
        ensures
            root@ == "https://nomads.ncep.noaa.gov/pub/data/nccf/com/nwps/prod/"@,
    {
        "https://nomads.ncep.noaa.gov/pub/data/nccf/com/nwps/prod/"
    }

    fn create_url(
        &self,
        source: &ModelDataSource,
        output_index: usize,
        query_date: Option<UtcDateTime>,
    ) -> (url: String) {
        let date = match query_date {
            Some(d) => d,
            None => {
                let now = match utc_now() {
                    Some(t) => t,
                    None => unix_epoch(),
                };
                proof {
                    lemma_recent_can_move_back(now.unix_seconds(), 10);
                }
                now
            },
        };
        let run = self.closest_model_run_date(&date);
        let mut url = String::new();
        push_str(&mut url, self.url_root(source));
        push_str(&mut url, self.region);
        push_str(&mut url, ".");
        push_plain_ymd(&mut url, &run);
        push_str(&mut url, "/");
        push_str(&mut url, self.id);
        push_str(&mut url, "/");
        push_zero_padded(&mut url, run.hour as u64, 2);
        push_str(&mut url, "/CG1/");
        push_str(&mut url, self.id);
        push_str(&mut url, "_nwps_CG1_");
        push_plain_ymd(&mut url, &run);
        push_str(&mut url, "_");
        push_zero_padded(&mut url, run.hour as u64, 2);
        push_str(&mut url, "00.grib2");
        proof {
            assert(url@ =~= self.spec_url(*source, output_index, run));
        }
        url
    }
}

} // verus!
