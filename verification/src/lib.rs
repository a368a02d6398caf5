//! Surf and wave forecast data: model run schedules and output timing,
//! byte-range planning for remote GRIB files, ECMWF field naming, and
//! parsers for the text formats published by NOAA and SWAN.

pub mod model;
pub mod pattern;
pub mod location;
pub mod text;
pub mod time;
pub mod tools;
pub mod units;
pub mod data;
pub mod dimensional_data;
pub mod buoy;
pub mod buoy_station;
pub mod spectra;
pub mod swell;
pub mod tide_station;
