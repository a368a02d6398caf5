use surfrs::buoy_station::{listing_flag, BuoyStation, BuoyStations};
use surfrs::data::ecmwf_field::{ECMWFField, ForecastMember};
use surfrs::data::ecmwf_wave_point_data_record::{group_messages, FieldKey, FieldSample};
use surfrs::data::parseable_data_record::DataRecordParsingError;
use surfrs::time::UtcDateTime;
use surfrs::dimensional_data::{DimensionalData, DimensionalDataCollection};
use surfrs::model::gefswave::GEFSWaveModel;
use surfrs::units::Unit;

#[test]
fn station_spectral_and_dap_urls() {
    let s = BuoyStation::new("44097".to_string(), "40.967".to_string(), "-71.126".to_string());
    assert_eq!(
        s.mean_wave_direction_spectral_data_url(),
        "https://www.ndbc.noaa.gov/data/realtime2/44097.swdir"
    );
    assert_eq!(
        s.principal_wave_direction_spectral_data_url(),
        "https://www.ndbc.noaa.gov/data/realtime2/44097.swdir2"
    );
    assert_eq!(s.r1_spectral_data_url(), "https://www.ndbc.noaa.gov/data/realtime2/44097.swr1");
    assert_eq!(s.r2_spectral_data_url(), "https://www.ndbc.noaa.gov/data/realtime2/44097.swr2");
    assert_eq!(
        s.stdmet_dds_url(),
        "https://dods.ndbc.noaa.gov/thredds/dodsC/data/stdmet/44097/44097h9999.nc.dds"
    );
    assert_eq!(
        s.swden_das_url(),
        "https://dods.ndbc.noaa.gov/thredds/dodsC/data/swden/44097/44097w9999.nc.das"
    );
    assert_eq!(BuoyStations::active_stations_url(), "https://www.ndbc.noaa.gov/activestations.xml");
    assert_eq!(
        BuoyStations::latest_obs_url(),
        "https://www.ndbc.noaa.gov/data/latest_obs/latest_obs.txt"
    );
}

#[test]
fn gefs_mean_model() {
    let m = GEFSWaveModel::global_25_mean();
    assert_eq!(m.id, "mean.global.0p25");
    assert_eq!(m.name, "GEFS Wave Global");
    assert_eq!(m.description, "GEFS Wave Model: Global 0.25 degree Ensemble Mean");
}

#[test]
fn field_keys_of_point_record_fields() {
    assert_eq!(FieldKey::from_field(&ECMWFField::SignificantHeight), Some(FieldKey::SignificantHeight));
    assert_eq!(
        FieldKey::from_field(&ECMWFField::PeriodBandHeight { min_period: 10, max_period: 12 }),
        Some(FieldKey::PeriodBand(10, 12))
    );
    assert_eq!(FieldKey::from_field(&ECMWFField::WindV), Some(FieldKey::WindV));
    assert_eq!(FieldKey::from_field(&ECMWFField::ModelBathymetry), None);
}

#[test]
fn dimensional_collections_hold_values_in_order() {
    let a = DimensionalData::<i64> { value: Some(3), variable_name: "a".to_string(), unit: Unit::Meters };
    let b = DimensionalData::<i64> { value: None, variable_name: "b".to_string(), unit: Unit::Feet };
    let values = DimensionalDataCollection(vec![a, b]).into_values();
    assert_eq!(values, vec![Some(3), None]);
}

#[test]
fn station_listing_flags() {
    assert_eq!(listing_flag("y"), Some(true));
    assert_eq!(listing_flag("n"), Some(false));
    assert_eq!(listing_flag("Y"), None);
    assert_eq!(listing_flag("yes"), None);
    assert_eq!(listing_flag(""), None);
}

fn sample(
    member: ForecastMember,
    hour: u32,
    field: ECMWFField,
    value: f64,
) -> FieldSample<Vec<Option<f64>>> {
    FieldSample {
        member,
        reference_date: UtcDateTime { year: 2026, month: 9, day: 23, hour, minute: 0, second: 0 },
        valid_date: UtcDateTime { year: 2026, month: 9, day: 24, hour, minute: 0, second: 0 },
        field,
        samples: vec![Some(value)],
    }
}

#[test]
fn ecmwf_messages_group_by_member_then_time() {

    let messages = vec![
        sample(ForecastMember::Perturbed(2), 6, ECMWFField::SignificantHeight, 1.0),
        sample(ForecastMember::Control, 12, ECMWFField::MeanDirection, 270.0),
        sample(ForecastMember::Control, 12, ECMWFField::SignificantHeight, 2.0),
        sample(ForecastMember::Control, 6, ECMWFField::SignificantHeight, 3.0),
        sample(ForecastMember::Control, 6, ECMWFField::ModelBathymetry, 999.0),
        sample(ForecastMember::Control, 12, ECMWFField::SignificantHeight, 4.0),
        sample(ForecastMember::Deterministic, 0, ECMWFField::WindU, 5.0),
        sample(ForecastMember::Deterministic, 0, ECMWFField::SignificantHeight, 6.0),
    ];
    let groups = group_messages(messages).unwrap();
    let order: Vec<(ForecastMember, u32)> = groups.iter().map(|g| (g.member, g.date.hour)).collect();
    assert_eq!(
        order,
        vec![
            (ForecastMember::Deterministic, 0),
            (ForecastMember::Control, 6),
            (ForecastMember::Control, 12),
            (ForecastMember::Perturbed(2), 6),
        ]
    );
    // fields in their order; the last message of a field wins
    let keys: Vec<FieldKey> = groups[2].fields.iter().map(|f| f.0).collect();
    assert_eq!(keys, vec![FieldKey::SignificantHeight, FieldKey::MeanDirection]);
    assert_eq!(groups[2].fields[0].1, vec![Some(4.0)]);
    assert_eq!(groups[0].fields[1].0, FieldKey::WindU);
    // the bathymetry is passed over
    assert_eq!(groups[1].fields.len(), 1);
    assert_eq!(groups[1].reference_date.hour, 6);
}

#[test]
fn ecmwf_group_without_height_is_an_error() {

    let messages = vec![
        sample(ForecastMember::Perturbed(3), 6, ECMWFField::EnergyPeriod, 9.0),
        sample(ForecastMember::Control, 12, ECMWFField::PeakPeriod, 11.0),
        sample(ForecastMember::Control, 0, ECMWFField::SignificantHeight, 1.0),
    ];
    match group_messages(messages) {
        Err(DataRecordParsingError::KeyMissing(m)) => {
            assert_eq!(m, "swh for Control at 2026-09-24 12:00:00 UTC")
        }
        _ => panic!("expected a missing height"),
    }
    let messages = vec![sample(ForecastMember::Perturbed(3), 6, ECMWFField::EnergyPeriod, 9.0)];
    match group_messages(messages) {
        Err(DataRecordParsingError::KeyMissing(m)) => {
            assert_eq!(m, "swh for Perturbed(3) at 2026-09-24 06:00:00 UTC")
        }
        _ => panic!("expected a missing height"),
    }
    let empty: Vec<FieldSample<Vec<Option<f64>>>> = vec![];
    assert!(group_messages(empty).unwrap().is_empty());
}
