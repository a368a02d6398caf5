use surfrs::buoy::buoy_station::BuoyStation as BulletinStation;
use surfrs::buoy::data::forecast_spectral_wave_data_record as buoy_spectra;
use surfrs::data::ecmwf_field::ForecastMember;
use surfrs::data::ecmwf_wave_ensemble_point_data_record::check_members;
use surfrs::data::forecast_cbulletin_wave_data_record::{bulletin_location, cycle_fields};
use surfrs::data::forecast_spectral_wave_data_record::{header_counts, read_point_values};
use surfrs::data::parseable_data_record::DataRecordParsingError;
use surfrs::time::{utc_now, UtcDateTime};

fn groups(texts: &[Option<&str>]) -> Vec<Option<String>> {
    texts.iter().map(|t| t.map(|s| s.to_string())).collect()
}

fn failure(e: DataRecordParsingError) -> String {
    match e {
        DataRecordParsingError::ParseFailure(m) => m,
        _ => panic!("expected a parse failure"),
    }
}

#[test]
fn spectra_header_counts_from_captures() {
    let whole = Some("'WAVEWATCH III SPECTRA'     50    36     1");
    let caps = Some(groups(&[whole, Some("50"), Some("36"), Some("1")]));
    assert_eq!(header_counts(&caps).unwrap(), (50, 36, 1));
    assert_eq!(failure(header_counts(&None).unwrap_err()), "Invalid data for header metadata");
    let caps = Some(groups(&[whole, Some("50"), None, Some("1")]));
    assert_eq!(failure(header_counts(&caps).unwrap_err()), "Failed to parse direction count");
    let caps = Some(groups(&[whole, Some(""), Some("36"), Some("1")]));
    assert_eq!(
        failure(header_counts(&caps).unwrap_err()),
        "Failed to parse frequency count: cannot parse integer from empty string"
    );
}

#[test]
fn spectra_point_values_from_captures() {
    let whole = Some("'46025     '  33.75 240.50   900.0   5.20 270.0   0.10  45.0");
    let g = groups(&[whole, Some("33.75"), Some("240.50"), Some("900.0"), Some("5.20"), Some("270.0"), Some("0.10"), Some("45.0")]);
    assert_eq!(read_point_values(&g).unwrap(), vec!["33.75", "240.50", "900.0", "5.20", "270.0", "0.10", "45.0"]);
    let g = groups(&[whole, Some("33.75"), None]);
    assert_eq!(failure(read_point_values(&g).unwrap_err()), "Failed to parse longitude");

    // the buoy reader wants whole degrees for the two directions
    let g = groups(&[whole, Some("33.75"), Some("240.50"), Some("900.0"), Some("5.20"), Some("270.0"), Some("0.10"), Some("45")]);
    assert_eq!(
        failure(buoy_spectra::read_point_values(&g).unwrap_err()),
        "Failed to parse wind direction: invalid digit found in string"
    );
    let g = groups(&[whole, Some("33.75"), Some("240.50"), Some("900.0"), Some("5.20"), Some("270"), Some("0.10"), Some("45")]);
    assert_eq!(buoy_spectra::read_point_values(&g).unwrap()[4], "270");
}

#[test]
fn bulletin_location_and_cycle_from_captures() {
    let caps = Some(groups(&[Some("Location : 44097 (40.98N 71.12W)"), Some("44097"), Some("40.98N"), Some("71.12W")]));
    let (name, lat, lon) = bulletin_location(&caps).unwrap();
    assert_eq!(name, "44097");
    assert_eq!((lat.magnitude.as_str(), lat.negative), ("40.98", false));
    assert_eq!((lon.magnitude.as_str(), lon.negative), ("71.12", true));
    assert_eq!(
        bulletin_location(&None).unwrap_err(),
        Some("Failed to capture location data from regex".to_string())
    );
    // a missing group makes the reading panic
    let caps = Some(groups(&[Some("Location : 44097"), Some("44097"), None, None]));
    assert_eq!(bulletin_location(&caps).unwrap_err(), None);

    let caps = Some(groups(&[Some("Cycle : 20220519 18 UTC"), Some("2022"), Some("05"), Some("19"), Some("18")]));
    assert_eq!(cycle_fields(&caps, 0, u32::MAX as i64).unwrap(), (2022, 5, 19, 18));
    assert_eq!(
        cycle_fields(&None, 0, u32::MAX as i64).unwrap_err(),
        Some("Failed to capture model run date from regex".to_string())
    );
}

fn date(hour: u32) -> UtcDateTime {
    UtcDateTime { year: 2026, month: 9, day: 24, hour, minute: 0, second: 0 }
}

#[test]
fn ensemble_members_checks() {
    assert!(matches!(check_members(&vec![]), Err(DataRecordParsingError::InvalidData)));
    let ok = vec![(ForecastMember::Control, date(0)), (ForecastMember::Perturbed(1), date(0))];
    assert!(check_members(&ok).is_ok());
    let times = vec![
        (ForecastMember::Control, date(0)),
        (ForecastMember::Deterministic, date(0)),
        (ForecastMember::Perturbed(1), date(6)),
    ];
    assert_eq!(
        failure(check_members(&times).unwrap_err()),
        "members have different valid times: 2026-09-24 00:00:00 UTC and 2026-09-24 06:00:00 UTC"
    );
    let det = vec![(ForecastMember::Control, date(0)), (ForecastMember::Deterministic, date(0))];
    assert_eq!(failure(check_members(&det).unwrap_err()), "deterministic records are not ensemble members");
}

#[test]
fn the_clock_reads_after_the_epoch() {
    let now = utc_now().unwrap();
    assert!(now.year >= 2024);
}

#[test]
fn bulletin_station_urls() {
    let s = BulletinStation::new("51201".to_string(), "21.67".to_string(), "-158.12".to_string());
    assert!(s.is_active());
    assert_eq!(s.latest_obs_data_url(), "https://ndbc.noaa.gov/data/latest_obs/51201.txt");
    assert_eq!(s.wave_data_url(), "https://www.ndbc.noaa.gov/data/realtime2/51201.spec");
    assert_eq!(s.secondary_spectral_wave_energy_data_url(), "https://www.ndbc.noaa.gov/data/realtime2/51201.swr2");
    let run = UtcDateTime { year: 2022, month: 5, day: 9, hour: 6, minute: 0, second: 0 };
    assert_eq!(
        s.gfswave_bulletin_data_url(run),
        "https://nomads.ncep.noaa.gov/pub/data/nccf/com/gfs/prod/gfs.202259/6/wave/station/bulls.t6z/gfswave.51201.cbull"
    );
}
