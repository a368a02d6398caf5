//! NDBC buoy stations.

use vstd::prelude::*;

use crate::text::{decimal, push_decimal, push_signed_decimal, push_str, signed_decimal};
use crate::time::UtcDateTime;

verus! {

/// The kind of platform an NDBC station is.
#[derive(Debug, Clone, Copy, PartialEq, Eq, PartialOrd, Ord)]
pub enum BuoyType {
    /// Listed with type "none".
    Unspecified,
    Buoy,
    Fixed,
    OilRig,
    Dart,
    Tao,
    USV,
    Virtual,
    Other,
}

impl BuoyType {
    /// The name shown to users, as the station's type is printed.
    pub open spec fn spec_label(self) -> Seq<char> {
        match self {
            BuoyType::Unspecified => "None"@,
            BuoyType::Buoy => "Buoy"@,
            BuoyType::Fixed => "Fixed"@,
            BuoyType::OilRig => "Oil Rig"@,
            BuoyType::Dart => "Dart"@,
            BuoyType::Tao => "Tao"@,
            BuoyType::USV => "USV"@,
            BuoyType::Virtual => "Virtual"@,
            BuoyType::Other => "Other"@,
        }
    }

    pub fn label(&self) -> (s: &'static str)
        ensures
            s@ == self.spec_label(),
    {
        match self {
            BuoyType::Unspecified => "None",
            BuoyType::Buoy => "Buoy",
            BuoyType::Fixed => "Fixed",
            BuoyType::OilRig => "Oil Rig",
            BuoyType::Dart => "Dart",
            BuoyType::Tao => "Tao",
            BuoyType::USV => "USV",
            BuoyType::Virtual => "Virtual",
            BuoyType::Other => "Other",
        }
    }
}

/// An NDBC station as the bulletin readers know it. Coordinates are held as
/// the decimal text they were given as.
#[derive(Debug, Clone)]
pub struct BuoyStation {
    pub station_id: String,
    pub raw_name: String,
    pub owner: String,
    pub program: String,
    pub buoy_type: BuoyType,
    pub has_meteorological_data: bool,
    pub has_currents_data: bool,
    pub has_water_quality_data: bool,
    pub has_tsnuami_data: bool,
    pub latitude: String,
    pub longitude: String,
    pub elevation: String,
}

/// The NDBC realtime file of station `id` with extension `ext`.
pub open spec fn realtime_url(id: Seq<char>, ext: Seq<char>) -> Seq<char> {
    "https://www.ndbc.noaa.gov/data/realtime2/"@ + id + "."@ + ext
}

/// The GFS wave station file of station `id` with extension `ext` for the
/// run at `date`, its year, month, day and hour written without padding.
pub open spec fn bulls_url(date: UtcDateTime, id: Seq<char>, ext: Seq<char>) -> Seq<char> {
    "https://nomads.ncep.noaa.gov/pub/data/nccf/com/gfs/prod/gfs."@ + signed_decimal(date.year as int)
        + decimal(date.month as nat) + decimal(date.day as nat) + "/"@ + decimal(date.hour as nat)
        + "/wave/station/bulls.t"@ + decimal(date.hour as nat) + "z/gfswave."@ + id + "."@ + ext
}

impl BuoyStation {
    pub fn new(station_id: String, latitude: String, longitude: String) -> (s: BuoyStation)
        ensures
            s.station_id == station_id,
            s.latitude == latitude,
            s.longitude == longitude,
            s.raw_name@ == Seq::<char>::empty(),
            s.owner@ == Seq::<char>::empty(),
            s.program@ == Seq::<char>::empty(),
            s.buoy_type == BuoyType::Buoy,
            s.has_meteorological_data,
            !s.has_currents_data,
            !s.has_water_quality_data,
            !s.has_tsnuami_data,
            s.elevation@ == "0"@,
    {
        let mut elevation = String::new();
        push_str(&mut elevation, "0");
        BuoyStation {
            station_id,
            latitude,
            longitude,
            raw_name: String::new(),
            owner: String::new(),
            program: String::new(),
            buoy_type: BuoyType::Buoy,
            has_meteorological_data: true,
            has_currents_data: false,
            has_water_quality_data: false,
            has_tsnuami_data: false,
            elevation,
        }
    }

    /// The station reports meteorological, current or water quality data
    /// (tsunami data is not counted).
    pub fn is_active(&self) -> (b: bool)
        ensures
            b == (self.has_meteorological_data || self.has_currents_data || self.has_water_quality_data),
    {
        self.has_meteorological_data || self.has_currents_data || self.has_water_quality_data
            || self.has_water_quality_data
    }

    pub fn latest_obs_data_url(&self) -> (url: String)
        ensures
            url@ == "https://ndbc.noaa.gov/data/latest_obs/"@ + self.station_id@ + ".txt"@,
    {
        let mut url = String::new();
        push_str(&mut url, "https://ndbc.noaa.gov/data/latest_obs/");
        push_str(&mut url, self.station_id.as_str());
        push_str(&mut url, ".txt");
        proof {
            assert(url@ =~= "https://ndbc.noaa.gov/data/latest_obs/"@ + self.station_id@ + ".txt"@);
        }
        url
    }

    fn realtime(&self, ext: &str) -> (url: String)
        ensures
            url@ == realtime_url(self.station_id@, ext@),
    {
        let mut url = String::new();
        push_str(&mut url, "https://www.ndbc.noaa.gov/data/realtime2/");
        push_str(&mut url, self.station_id.as_str());
        push_str(&mut url, ".");
        push_str(&mut url, ext);
        proof {
            assert(url@ =~= realtime_url(self.station_id@, ext@));
        }
        url
    }

    pub fn meteorological_data_url(&self) -> (url: String)
        ensures
            url@ == realtime_url(self.station_id@, "txt"@),
    {
        self.realtime("txt")
    }

    pub fn wave_data_url(&self) -> (url: String)
        ensures
            url@ == realtime_url(self.station_id@, "spec"@),
    {
        self.realtime("spec")
    }

    pub fn spectral_wave_data_url(&self) -> (url: String)
        ensures
            url@ == realtime_url(self.station_id@, "data_spec"@),
    {
        self.realtime("data_spec")
    }

    pub fn primary_spectral_wave_direction_data_url(&self) -> (url: String)
        ensures
            url@ == realtime_url(self.station_id@, "swdir"@),
    {
        self.realtime("swdir")
    }

    pub fn secondary_spectral_wave_direction_data_url(&self) -> (url: String)
        ensures
            url@ == realtime_url(self.station_id@, "swdir2"@),
    {
        self.realtime("swdir2")
    }

    pub fn primary_spectral_wave_energy_data_url(&self) -> (url: String)
        ensures
            url@ == realtime_url(self.station_id@, "swr1"@),
    {
        self.realtime("swr1")
    }

    pub fn secondary_spectral_wave_energy_data_url(&self) -> (url: String)
        ensures
            url@ == realtime_url(self.station_id@, "swr2"@),
    {
        self.realtime("swr2")
    }

    fn bulls(&self, date: &UtcDateTime, ext: &str) -> (url: String)
        ensures
            url@ == bulls_url(*date, self.station_id@, ext@),
    {
        let mut url = String::new();
        push_str(&mut url, "https://nomads.ncep.noaa.gov/pub/data/nccf/com/gfs/prod/gfs.");
        push_signed_decimal(&mut url, date.year as i64);
        push_decimal(&mut url, date.month as u64);
        push_decimal(&mut url, date.day as u64);
        push_str(&mut url, "/");
        push_decimal(&mut url, date.hour as u64);
        push_str(&mut url, "/wave/station/bulls.t");
        push_decimal(&mut url, date.hour as u64);
        push_str(&mut url, "z/gfswave.");
        push_str(&mut url, self.station_id.as_str());
        push_str(&mut url, ".");
        push_str(&mut url, ext);
        proof {
            assert(url@ =~= bulls_url(*date, self.station_id@, ext@));
        }
        url
    }

    /// The GFS wave bulletin of the station for the run at `date`.
    pub fn gfswave_bulletin_data_url(&self, date: UtcDateTime) -> (url: String)
        ensures
            url@ == bulls_url(date, self.station_id@, "cbull"@),
    {
        self.bulls(&date, "cbull")
    }

    /// The GFS wave spectra of the station for the run at `date`.
    pub fn gfswave_spectral_data_url(&self, date: UtcDateTime) -> (url: String)
        ensures
            url@ == bulls_url(date, self.station_id@, "spec"@),
    {
        self.bulls(&date, "spec")
    }
}

} // verus!
