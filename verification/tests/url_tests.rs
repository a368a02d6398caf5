use surfrs::model::ecmwf_wave::{ECMWFDataSource, ECMWFWaveModel, ECMWFWindModel};
use surfrs::model::gefswave::GEFSWaveModel;
use surfrs::model::gfswave::GFSWaveModel as GriddedGFSWaveModel;
use surfrs::model::gridded_model::{GriddedModel, NOAADataSource};
use surfrs::model::nwps::NWPSModel;
use surfrs::model::{GFSWaveModel, ModelDataSource, NOAAModel};
use surfrs::time::UtcDateTime;

fn at(year: i32, month: u32, day: u32, hour: u32, minute: u32) -> UtcDateTime {
    UtcDateTime { year, month, day, hour, minute, second: 0 }
}

#[test]
fn test_urls() {
    let run = at(2026, 9, 22, 8, 30);
    let model = ECMWFWaveModel::ifs_hres();
    assert_eq!(
        model.create_url(&ECMWFDataSource::GCP, 24, Some(run)),
        "https://storage.googleapis.com/ecmwf-open-data/20260922/00z/ifs/0p25/wave/20260922000000-24h-wave-fc.grib2"
    );
    assert_eq!(
        model.create_index_url(&ECMWFDataSource::ECMWF, 24, Some(run)),
        "https://data.ecmwf.int/forecasts/20260922/00z/ifs/0p25/wave/20260922000000-24h-wave-fc.index"
    );

    let model = ECMWFWaveModel::aifs_ens_members();
    assert_eq!(
        model.create_url(&ECMWFDataSource::AWS, 360, Some(run)),
        "https://ecmwf-forecasts.s3.eu-central-1.amazonaws.com/20260922/00z/aifs-ens/0p25/waef/20260922000000-360h-waef-pf.grib2"
    );
}

#[test]
fn test_wind_urls() {
    let run = at(2026, 9, 22, 8, 30);
    assert_eq!(
        ECMWFWindModel::ifs_hres().create_url(&ECMWFDataSource::GCP, 24, Some(run)),
        "https://storage.googleapis.com/ecmwf-open-data/20260922/00z/ifs/0p25/oper/20260922000000-24h-oper-fc.grib2"
    );
    assert_eq!(
        ECMWFWindModel::aifs_ens_members().create_index_url(&ECMWFDataSource::GCP, 24, Some(run)),
        "https://storage.googleapis.com/ecmwf-open-data/20260922/00z/aifs-ens/0p25/enfo/20260922000000-24h-enfo-pf.index"
    );

    let wave = ECMWFWaveModel::ifs_ens_members();
    let wind = ECMWFWindModel::for_wave_model(&wave).unwrap();
    assert_eq!(wind.product, wave.product);
    assert_eq!(wind.forecast_hours(&run), wave.forecast_hours(&run));
    assert!(ECMWFWindModel::for_wave_model(&ECMWFWaveModel::ifs_ens_probability()).is_none());
}

#[test]
fn test_closest_model_run_date() {
    // IFS HRES 00z is complete by ~07:40Z.
    let model = ECMWFWaveModel::ifs_hres();
    assert_eq!(model.closest_model_run_date(&at(2026, 9, 22, 7, 59)), at(2026, 9, 21, 18, 0));
    assert_eq!(model.closest_model_run_date(&at(2026, 9, 22, 8, 0)), at(2026, 9, 22, 0, 0));

    // AIFS single is published sooner.
    let model = ECMWFWaveModel::aifs_single();
    assert_eq!(model.closest_model_run_date(&at(2026, 9, 22, 6, 0)), at(2026, 9, 22, 0, 0));

    // IFS ensemble probabilities only come from the 00z and 12z runs.
    let model = ECMWFWaveModel::ifs_ens_probability();
    assert_eq!(model.closest_model_run_date(&at(2026, 9, 22, 20, 0)), at(2026, 9, 22, 0, 0));
    assert_eq!(model.closest_model_run_date(&at(2026, 9, 22, 22, 0)), at(2026, 9, 22, 12, 0));
}

#[test]
fn test_forecast_hours() {
    let long_run = at(2026, 9, 22, 0, 0);
    let short_run = at(2026, 9, 22, 6, 0);

    let hours = ECMWFWaveModel::ifs_hres().forecast_hours(&long_run);
    assert_eq!(hours.len(), 85);
    assert_eq!(&hours[47..51], &[141, 144, 150, 156]);
    assert_eq!(hours.last(), Some(&360));

    let hours = ECMWFWaveModel::ifs_ens_members().forecast_hours(&short_run);
    assert_eq!(hours.len(), 49);
    assert_eq!(hours.last(), Some(&144));

    let hours = ECMWFWaveModel::aifs_single().forecast_hours(&short_run);
    assert_eq!(hours.len(), 61);
    assert_eq!(hours[1], 6);

    assert_eq!(ECMWFWaveModel::ifs_ens_probability().forecast_hours(&long_run), vec![240, 360]);
    assert!(ECMWFWaveModel::ifs_ens_probability().forecast_hours(&short_run).is_empty());
    assert_eq!(ECMWFWaveModel::aifs_ens_probability().forecast_hours(&short_run), vec![240, 360]);
}

#[test]
fn test_gefs_wave_url() {
    let truth = "https://noaa-gefs-pds.s3.amazonaws.com/gefs.20230525/06/wave/gridded/gefs.wave.t06z.spread.global.0p25.f216.grib2";

    let date = UtcDateTime { year: 2023, month: 05, day: 25, hour: 13, minute: 0, second: 0 };

    let gefs_wave = GEFSWaveModel::global_25_spread();
    let url = gefs_wave.create_url(&NOAADataSource::NODDAWS, 216, Some(date));
    assert_eq!(url, truth);

    let truth = "https://noaa-gefs-pds.s3.amazonaws.com/gefs.20230525/06/wave/gridded/gefs.wave.t06z.spread.global.0p25.f294.grib2";
    let url = gefs_wave.create_url(&NOAADataSource::NODDAWS, 294, Some(date));
    assert_eq!(url, truth);
}

#[test]
fn gfswave_test_gfs_wave_url() {
    let truth = "https://storage.googleapis.com/global-forecast-system/gfs.20230117/06/wave/gridded/gfswave.t06z.atlocn.0p16.f115.grib2";

    let date = UtcDateTime { year: 2023, month: 01, day: 17, hour: 13, minute: 0, second: 0 };

    let gfs_wave = GriddedGFSWaveModel::atlantic();
    let url = gfs_wave.create_url(&NOAADataSource::NODDGCP, 115, Some(date));
    assert_eq!(url, truth);

    let truth = "https://storage.googleapis.com/global-forecast-system/gfs.20230117/06/wave/gridded/gfswave.t06z.atlocn.0p16.f126.grib2";
    let url = gfs_wave.create_url(&NOAADataSource::NODDGCP, 126, Some(date));
    assert_eq!(url, truth);
}

#[test]
fn model_test_gfs_wave_url() {
    let truth = "https://storage.googleapis.com/global-forecast-system/gfs.20230117/06/wave/gridded/gfswave.t06z.atlocn.0p16.f115.grib2";

    let date = UtcDateTime { year: 2023, month: 01, day: 17, hour: 13, minute: 0, second: 0 };

    let gfs_wave = GFSWaveModel::atlantic();
    let url = gfs_wave.create_url(&ModelDataSource::NODDGCP, 115, Some(date));
    assert_eq!(url, truth);

    let truth = "https://storage.googleapis.com/global-forecast-system/gfs.20230117/06/wave/gridded/gfswave.t06z.atlocn.0p16.f126.grib2";
    let url = gfs_wave.create_url(&ModelDataSource::NODDGCP, 122, Some(date));
    assert_eq!(url, truth);
}

#[test]
fn nwps_test_gfs_wave_url() {
    let date = UtcDateTime { year: 2023, month: 03, day: 11, hour: 13, minute: 0, second: 0 };
    let box_nwps = NWPSModel::boston();

    let truth = "https://nomads.ncep.noaa.gov/pub/data/nccf/com/nwps/prod/er.20230311/box/06/CG1/box_nwps_CG1_20230311_0600.grib2";
    let url = box_nwps.create_url(&ModelDataSource::NOMADS, 0, Some(date));
    assert_eq!(url, truth);
}
