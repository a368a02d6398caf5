//! Parsers and records for published forecast and observation data.

pub mod buoy_data_record;
pub mod delimited;
pub mod ecmwf_field;
pub mod ecmwf_wave_ensemble_point_data_record;
pub mod ecmwf_wave_point_data_record;
pub mod forecast_cbulletin_wave_data_record;
pub mod forecast_spectral_wave_data_record;
pub mod gefs_bulletin_wave_data_record;
pub mod gefs_timeseries_wave_data_record;
pub mod grib_index_record;
pub mod latest_obs_data_record;
pub mod meteorological_data_record;
pub mod nws_weather_forecast_data_record;
pub mod parseable_data_record;
pub mod row_columns;
pub mod spectral_wave_data_record;
pub mod swan_block_file;
pub mod swan_spectra_data_record;
pub mod swan_table_file;
pub mod tidal_data_record;
pub mod wave_data_record;
