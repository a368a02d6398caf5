use surfrs::location::{Coordinate, Location};
use surfrs::tide_station::{TideStation, TideStations};
use surfrs::buoy_station::{BuoyStation, BuoyStations, BuoyType};
use surfrs::model::ModelDataSource;
use surfrs::time::UtcDateTime;

fn station() -> BuoyStation {
    BuoyStation::new("44097".to_string(), "40.967".to_string(), "-71.126".to_string())
}

#[test]
fn station_data_urls() {
    let s = station();
    assert_eq!(s.latest_obs_data_url(), "https://ndbc.noaa.gov/data/latest_obs/44097.txt");
    assert_eq!(s.meteorological_data_url(), "https://www.ndbc.noaa.gov/data/realtime2/44097.txt");
    assert_eq!(s.wave_data_url(), "https://www.ndbc.noaa.gov/data/realtime2/44097.spec");
    assert_eq!(s.spectral_wave_data_url(), "https://www.ndbc.noaa.gov/data/realtime2/44097.data_spec");
    assert_eq!(s.r1_spectral_data_url(), "https://www.ndbc.noaa.gov/data/realtime2/44097.swr1");
    assert_eq!(
        s.stdmet_das_url(),
        "https://dods.ndbc.noaa.gov/thredds/dodsC/data/stdmet/44097/44097h9999.nc.das"
    );
    assert_eq!(
        s.swden_dds_url(),
        "https://dods.ndbc.noaa.gov/thredds/dodsC/data/swden/44097/44097w9999.nc.dds"
    );
    let run = UtcDateTime { year: 2023, month: 1, day: 7, hour: 6, minute: 0, second: 0 };
    assert_eq!(s.gfswave_data_url_prefix(&run), "gfs.20230107/06/wave/station/bulls.t06z");
    assert_eq!(
        s.gfswave_bulletin_data_url(&ModelDataSource::NODDAWS, &run),
        "https://noaa-gfs-bdp-pds.s3.amazonaws.com/gfs.20230107/06/wave/station/bulls.t06z/gfswave.44097.cbull"
    );
    assert_eq!(
        s.gfswave_spectral_data_url(&ModelDataSource::NOMADS, &run),
        "https://nomads.ncep.noaa.gov/pub/data/nccf/com/gfs/prod/gfs.20230107/06/wave/station/bulls.t06z/gfswave.44097.spec"
    );
    assert_eq!(
        BuoyStation::gfswave_lsl_url(&ModelDataSource::NODDGCP, &run),
        "https://storage.googleapis.com/global-forecast-system/gfs.20230107/06/wave/station/ls-l"
    );
    assert_eq!(BuoyStations::gfswave_data_url_prefix(&run), "gfs.20230107/06/wave/station/bulls.t06z/");
    assert_eq!(
        BuoyStations::gfswave_stations_root_url(&ModelDataSource::NOMADS, &run),
        "https://nomads.ncep.noaa.gov/pub/data/nccf/com/gfs/prod/gfs.20230107/06/wave/station/bulls.t06z/"
    );
}

#[test]
fn station_display_name() {
    let mut s = station();
    s.raw_name = "44097 - Block Island, RI (Sta B)".to_string();
    assert_eq!(s.name(), "Block Island, RI B)");
    s.raw_name = "Nantucket Sound".to_string();
    assert_eq!(s.name(), "Nantucket Sound");
    s.raw_name = "Buzzards Bay - 12 - Light".to_string();
    assert_eq!(s.name(), "Buzzards BayLight");
}

#[test]
fn station_activity_and_lookup() {
    let mut s = station();
    assert!(s.is_active());
    assert_eq!(s.buoy_type, BuoyType::Buoy);
    s.has_meteorological_data = false;
    s.has_tsnuami_data = true;
    assert!(!s.is_active());

    let stations = BuoyStations::from_stations(vec![station(), BuoyStation::new("41001".to_string(), "34.7".to_string(), "-72.7".to_string())]);
    assert_eq!(stations.station_count, 2);
    assert_eq!(stations.find_station("41001").unwrap().latitude, "34.7");
    assert!(stations.find_station("00000").is_none());
    assert_eq!(BuoyStations::default().station_count, 0);
}

#[test]
fn tide_station_from_location_and_lookup() {
    let location = Location::new(
        Coordinate { magnitude: "41.505".to_string(), negative: false },
        Coordinate { magnitude: "71.3267".to_string(), negative: true },
        "NEWPORT".to_string(),
    );
    let newport = TideStation::new("8452660", &location, "RI");
    assert_eq!(newport.id(), "8452660");
    assert_eq!(newport.name(), "NEWPORT");
    assert_eq!(newport.state, "RI");
    assert_eq!(newport.reference_id, "");
    assert_eq!(newport.latitude.magnitude, "41.505");
    assert!(newport.longitude.negative);
    let back = newport.location();
    assert_eq!(back.name, "NEWPORT");
    assert_eq!(back.longitude.magnitude, "71.3267");

    let other = TideStation::new("8454000", &location, "RI");
    let stations = TideStations::from_stations(vec![other, newport]);
    assert_eq!(stations.station_count, 2);
    let found = stations.find_station_by_id("8452660").unwrap();
    assert_eq!(found.station_id, "8452660");
    assert!(stations.find_station_by_id("0000000").is_none());
    assert_eq!(
        TideStations::tide_prediction_stations_url(),
        "https://api.tidesandcurrents.noaa.gov/mdapi/prod/webapi/stations.json?type=tidepredictions&units=english"
    );
}
