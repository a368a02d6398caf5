//! Records read from buoy forecast bulletins.

pub mod date_record;
pub mod forecast_bulletin_wave_data_record;
pub mod forecast_spectral_wave_data_record;
pub mod parseable_data_record;
