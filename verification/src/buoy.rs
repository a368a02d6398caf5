//! NDBC buoy stations and the records read from their bulletins.

pub mod buoy_station;
pub mod data;
