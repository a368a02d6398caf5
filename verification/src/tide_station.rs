//! NOAA tide prediction stations and the parameters of tide requests.

use vstd::prelude::*;

use crate::location::{Coordinate, Location};
use crate::text::{chars_of, copy_string, equals_at};

verus! {

/// The sampling interval of requested tide data.
#[derive(Debug, Clone, Copy, PartialEq, Eq)]
pub enum DataInterval {
    Default,
    Hourly,
    HiLo,
}

impl DataInterval {
    /// The `interval` value of a NOAA tides request.
    pub open spec fn spec_code(self) -> Seq<char> {
        match self {
            DataInterval::Default => ""@,
            DataInterval::Hourly => "h"@,
            DataInterval::HiLo => "hilo"@,
        }
    }

    pub fn code(&self) -> (s: &'static str)
        ensures
            s@ == self.spec_code(),
    {
        match self {
            DataInterval::Default => "",
            DataInterval::Hourly => "h",
            DataInterval::HiLo => "hilo",
        }
    }
}

/// The vertical datum tide levels are given against.
#[derive(Debug, Clone, Copy, PartialEq, Eq)]
pub enum TideDatum {
    MHHW,
    MHW,
    MTL,
    MSL,
    MLW,
    MLLW,
}

impl TideDatum {
    /// The `datum` value of a NOAA tides request.
    pub open spec fn spec_code(self) -> Seq<char> {
        match self {
            TideDatum::MHHW => "MHHW"@,
            TideDatum::MHW => "MHW"@,
            TideDatum::MTL => "MTL"@,
            TideDatum::MSL => "MSL"@,
            TideDatum::MLW => "MLW"@,
            TideDatum::MLLW => "MLLW"@,
        }
    }

    pub fn code(&self) -> (s: &'static str)
        ensures
            s@ == self.spec_code(),
    {
        match self {
            TideDatum::MHHW => "MHHW",
            TideDatum::MHW => "MHW",
            TideDatum::MTL => "MTL",
            TideDatum::MSL => "MSL",
            TideDatum::MLW => "MLW",
            TideDatum::MLLW => "MLLW",
        }
    }
}

/// A tide prediction station. Its coordinates are held as the decimal
/// text they were given as.
#[derive(Debug, Clone)]
pub struct TideStation {
    pub station_id: String,
    pub name: String,
    pub latitude: Coordinate,
    pub longitude: Coordinate,
    pub state: String,
    pub reference_id: String,
}

/// `a` and `b` hold the same station.
pub open spec fn same_station(a: TideStation, b: TideStation) -> bool {
    &&& a.station_id@ == b.station_id@
    &&& a.name@ == b.name@
    &&& a.latitude.view_pair() == b.latitude.view_pair()
    &&& a.longitude.view_pair() == b.longitude.view_pair()
    &&& a.state@ == b.state@
    &&& a.reference_id@ == b.reference_id@
}

impl TideStation {
    /// The station `station_id` at `location`, in `state`, with no
    /// reference station.
    pub fn new(station_id: &str, location: &Location, state: &str) -> (s: TideStation)
        ensures
            s.station_id@ == station_id@,
            s.name@ == location.name@,
            s.latitude.view_pair() == location.latitude.view_pair(),
            s.longitude.view_pair() == location.longitude.view_pair(),
            s.state@ == state@,
            s.reference_id@ == Seq::<char>::empty(),
    {
        let mut id = String::new();
        crate::text::push_str(&mut id, station_id);
        let mut st = String::new();
        crate::text::push_str(&mut st, state);
        TideStation {
            station_id: id,
            name: copy_string(&location.name),
            latitude: location.latitude.copy(),
            longitude: location.longitude.copy(),
            state: st,
            reference_id: String::new(),
        }
    }

    /// The station's id.
    pub fn id(&self) -> (id: &str)
        ensures
            id@ == self.station_id@,
    {
        self.station_id.as_str()
    }

    /// The station's name.
    pub fn name(&self) -> (name: String)
        ensures
            name@ == self.name@,
    {
        copy_string(&self.name)
    }

    /// Where the station is, under its name.
    pub fn location(&self) -> (l: Location)
        ensures
            l.name@ == self.name@,
            l.latitude.view_pair() == self.latitude.view_pair(),
            l.longitude.view_pair() == self.longitude.view_pair(),
    {
        Location::new(self.latitude.copy(), self.longitude.copy(), copy_string(&self.name))
    }

    /// A copy of the same station.
    pub fn copy(&self) -> (c: TideStation)
        ensures
            same_station(c, *self),
    {
        TideStation {
            station_id: copy_string(&self.station_id),
            name: copy_string(&self.name),
            latitude: self.latitude.copy(),
            longitude: self.longitude.copy(),
            state: copy_string(&self.state),
            reference_id: copy_string(&self.reference_id),
        }
    }
}

/// The tide prediction stations, with their number.
#[derive(Debug, Clone)]
pub struct TideStations {
    pub station_count: usize,
    pub stations: Vec<TideStation>,
}

pub open spec fn spec_tide_prediction_stations_url() -> Seq<char> {
    "https://api.tidesandcurrents.noaa.gov/mdapi/prod/webapi/stations.json?type=tidepredictions&units=english"@
}

impl TideStations {
    /// Where the list of tide prediction stations is published.
    pub fn tide_prediction_stations_url() -> (u: String)
        ensures
            u@ == spec_tide_prediction_stations_url(),
    {
        let mut u = String::new();
        crate::text::push_str(
            &mut u,
            "https://api.tidesandcurrents.noaa.gov/mdapi/prod/webapi/stations.json?type=tidepredictions&units=english",
        );
        proof {
            assert(u@ =~= Seq::<char>::empty() + spec_tide_prediction_stations_url());
        }
        u
    }

    pub fn from_stations(stations: Vec<TideStation>) -> (s: TideStations)
        ensures
            s.stations == stations,
            s.station_count == stations.len(),
    {
        let station_count = stations.len();
        TideStations { stations, station_count }
    }

    /// A copy of the first station with the id `station_id`.
    pub fn find_station_by_id(&self, station_id: &str) -> (r: Option<TideStation>)
        ensures
            match r {
                Some(s) => exists|i: int|
                    0 <= i < self.stations.len() && #[trigger] self.stations@[i].station_id@
                        == station_id@ && same_station(s, self.stations@[i]) && (forall|j: int|
                        0 <= j < i ==> self.stations@[j].station_id@ != station_id@),
                None => forall|i: int|
                    0 <= i < self.stations.len() ==> #[trigger] self.stations@[i].station_id@
                        != station_id@,
            },
    {
        let target = chars_of(station_id);
        let mut i: usize = 0;
        while i < self.stations.len()
            invariant
                i <= self.stations.len(),
                target@ == station_id@,
                forall|j: int| 0 <= j < i ==> self.stations@[j].station_id@ != station_id@,
            decreases self.stations.len() - i,
        {
            let id = chars_of(self.stations[i].station_id.as_str());
            let n = id.len();
            proof {
                assert(id@.subrange(0, n as int) =~= id@);
            }
            if equals_at(&id, 0, n, &target) {
                let found = self.stations[i].copy();
                proof {
                    assert(self.stations@[i as int].station_id@ == station_id@);
                }
                return Some(found);
            }
            i += 1;
        }
        None
    }
}

} // verus!
