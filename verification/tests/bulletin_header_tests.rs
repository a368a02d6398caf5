use surfrs::buoy::data::date_record::DateRecord;
use surfrs::buoy::data::forecast_bulletin_wave_data_record as buoy_bulletin;
use surfrs::data::forecast_cbulletin_wave_data_record as cbulletin;
use surfrs::data::forecast_cbulletin_wave_data_record::{
    ForecastCBulletinWaveRecord, ForecastCBulletinWaveRecordCollection, ForecastCBulletinWaveRecordMetadata,
};
use surfrs::data::parseable_data_record::DataRecordParsingError;
use surfrs::location::Coordinate;
use surfrs::time::UtcDateTime;

fn value(c: &Coordinate) -> f64 {
    let m = c.magnitude.parse::<f64>().unwrap();
    if c.negative {
        -m
    } else {
        m
    }
}

#[test]
fn forecast_cbulletin_wave_data_record_test_parse_latitude() {
    assert_eq!(value(&cbulletin::parse_latitude("12.3456N").unwrap()), 12.3456);
    assert_eq!(value(&cbulletin::parse_latitude("12.3456S").unwrap()), -12.3456);
}

#[test]
fn forecast_cbulletin_wave_data_record_longitude() {
    assert_eq!(value(&cbulletin::parse_longitude("12.3456E").unwrap()), 12.3456);
    assert_eq!(value(&cbulletin::parse_longitude("12.3456W").unwrap()), -12.3456);
}

#[test]
fn parse_wave_cbulletin_metadata() {
    let metadata = "Location : 44097      (40.98N  71.12W)
        Model    : spectral resolution for points
        Cycle    : 20220519 18 UTC
        ";

    let metadata = ForecastCBulletinWaveRecordMetadata::from_text(metadata).unwrap();
    assert_eq!(metadata.location.name, "44097");
    assert_eq!(value(&metadata.location.latitude), 40.98);
    assert_eq!(value(&metadata.location.longitude), -71.12);

    assert_eq!(metadata.model_run_date.year, 2022);
    assert_eq!(metadata.model_run_date.month, 5);
    assert_eq!(metadata.model_run_date.day, 19);
    assert_eq!(metadata.model_run_date.hour, 18);
}

#[test]
fn lettered_coordinates_move_a_sign_into_the_flag() {
    // -(-12.5) for a southern latitude written with a minus sign
    let c = cbulletin::parse_latitude("-12.5S").unwrap();
    assert_eq!(c.magnitude, "12.5");
    assert!(!c.negative);
    let c = cbulletin::parse_longitude("+3W").unwrap();
    assert_eq!(c.magnitude, "3");
    assert!(c.negative);
    match cbulletin::parse_latitude("N") {
        Err(DataRecordParsingError::ParseFailure(m)) => {
            assert_eq!(m, "Failed to parse latitude: ParseFloatError { kind: Empty }")
        }
        _ => panic!("no number before the letter"),
    }
    match cbulletin::parse_longitude("1.2.3E") {
        Err(DataRecordParsingError::ParseFailure(m)) => {
            assert_eq!(m, "Failed to parse longitude: ParseFloatError { kind: Invalid }")
        }
        _ => panic!("not a number"),
    }
}

#[test]
fn cbulletin_header_errors_and_panics() {
    match ForecastCBulletinWaveRecordMetadata::from_text("") {
        Err(DataRecordParsingError::ParseFailure(m)) => {
            assert_eq!(m, "Invalid data for location metadata")
        }
        _ => panic!("an empty text has no location line"),
    }
    match ForecastCBulletinWaveRecordMetadata::from_text("Station 44097\nModel\nCycle : 20220519 18 UTC") {
        Err(DataRecordParsingError::ParseFailure(m)) => {
            assert_eq!(m, "Failed to capture location data from regex")
        }
        _ => panic!("the first line must name the location"),
    }
    match ForecastCBulletinWaveRecordMetadata::from_text("Location : 44097 (40.98N 71.12W)\nModel") {
        Err(DataRecordParsingError::ParseFailure(m)) => {
            assert_eq!(m, "Failed to capture model run date from regex")
        }
        _ => panic!("a header without its third line has no cycle"),
    }
    // An empty year matches the pattern but is no number.
    match ForecastCBulletinWaveRecordMetadata::from_text("Location : 44097 (40.98N 71.12W)\nModel\nCycle : ") {
        Err(DataRecordParsingError::ParseFailure(m)) => {
            assert_eq!(m, "Failed to capture model date year")
        }
        _ => panic!("an empty cycle has no year"),
    }
    // A cycle that is no calendar date makes the reading panic.
    assert!(ForecastCBulletinWaveRecordMetadata::try_from_text(
        "Location : 44097 (40.98N 71.12W)\nModel\nCycle : 20221319 18 UTC"
    )
    .is_none());
    let ok = ForecastCBulletinWaveRecordMetadata::try_from_text(
        "Location : 44097 (40.98N 71.12W)\nModel\nCycle : 20220519 18 UTC",
    );
    match ok {
        Some(Ok(m)) => assert_eq!(
            m.model_run_date,
            UtcDateTime { year: 2022, month: 5, day: 19, hour: 18, minute: 0, second: 0 }
        ),
        _ => panic!("a valid header reads"),
    }
}

#[test]
fn forecast_bulletin_wave_data_record_test_parse_latitude() {
    assert_eq!(value(&buoy_bulletin::parse_latitude("12.3456N").unwrap()), 12.3456);
    assert_eq!(value(&buoy_bulletin::parse_latitude("12.3456S").unwrap()), -12.3456);
}

#[test]
fn forecast_bulletin_wave_data_record_longitude() {
    assert_eq!(value(&buoy_bulletin::parse_longitude("12.3456E").unwrap()), 12.3456);
    assert_eq!(value(&buoy_bulletin::parse_longitude("12.3456W").unwrap()), -12.3456);
}

#[test]
fn parse_wave_bulletin_metadata() {
    let metadata = "Location : 44097      (40.98N  71.12W)
        Model    : spectral resolution for points
        Cycle    : 20220519 18 UTC
        ";

    let metadata = buoy_bulletin::ForecastBulletinWaveRecordMetadata::from_text(metadata);

    println!("{:?}", metadata);
    assert!(metadata.is_ok());
}

#[test]
fn buoy_bulletin_header_keeps_the_name_as_matched() {
    let metadata = buoy_bulletin::ForecastBulletinWaveRecordMetadata::from_text(
        "Location : 44097      (40.98N  71.12W)\nModel\nCycle    : 20221319 18 UTC",
    )
    .unwrap();
    assert_eq!(metadata.location.name, "44097     ");
    // the fields are read as they are, with no calendar check
    assert_eq!(
        metadata.model_run_date,
        DateRecord { year: 2022, month: 13, day: 19, hour: 18, minute: 0 }
    );
}

fn run_2020() -> ForecastCBulletinWaveRecordMetadata {
    ForecastCBulletinWaveRecordMetadata {
        location: surfrs::location::Location::new(
            Coordinate { magnitude: "40.98".to_string(), negative: false },
            Coordinate { magnitude: "71.12".to_string(), negative: true },
            "".to_string(),
        ),
        model_run_date: UtcDateTime { year: 2020, month: 5, day: 19, hour: 18, minute: 0, second: 0 },
    }
}

#[test]
fn test_wave_cbulletin_row_parse() {
    let metadata = run_2020();

    let row = "0118  3  2 04 142  2 07 163                                        ";
    let row = row.split_whitespace().collect();

    let wave_bulletin_record = ForecastCBulletinWaveRecord::from_data_row(Some(&metadata), &row).unwrap();

    assert_eq!(wave_bulletin_record.date.year, 2020);
    assert_eq!(wave_bulletin_record.date.month, 6);
    assert_eq!(wave_bulletin_record.date.day, 01);
    assert_eq!(wave_bulletin_record.date.hour, 18);
    let hs: f64 = wave_bulletin_record.significant_wave_height.value.as_deref().unwrap().parse().unwrap();
    assert!((hs - 3.0).abs() < 0.01);
    assert_eq!(wave_bulletin_record.swell_components.len(), 2);
    let number = |d: &surfrs::dimensional_data::DimensionalData<String>| -> f64 {
        d.value.as_deref().unwrap().parse().unwrap()
    };
    assert_eq!(number(&wave_bulletin_record.swell_components[0].wave_height), 2.0);
    assert_eq!(number(&wave_bulletin_record.swell_components[0].period), 4.0);
    assert_eq!(wave_bulletin_record.swell_components[0].direction_degrees, 142);
    assert_eq!(number(&wave_bulletin_record.swell_components[1].wave_height), 2.0);
    assert_eq!(number(&wave_bulletin_record.swell_components[1].period), 7.0);
    assert_eq!(wave_bulletin_record.swell_components[1].direction_degrees, 163);
}

#[test]
fn cbulletin_row_errors() {
    let metadata = run_2020();
    let row: Vec<&str> = vec!["xx18", "3"];
    match ForecastCBulletinWaveRecord::from_data_row(Some(&metadata), &row) {
        Err(DataRecordParsingError::ParseFailure(m)) => assert_eq!(m, "Failed to parse day from timestep"),
        _ => panic!("a bad day must fail"),
    }
    let row: Vec<&str> = vec!["2018", "3", "x", "4", "142"];
    match ForecastCBulletinWaveRecord::from_data_row(Some(&metadata), &row) {
        Err(DataRecordParsingError::ParseFailure(m)) => assert_eq!(m, "Failed to parse height from row"),
        _ => panic!("a bad height must fail"),
    }
    let row: Vec<&str> = vec!["2018", "3", "2", "4", "NE"];
    match ForecastCBulletinWaveRecord::from_data_row(Some(&metadata), &row) {
        Err(DataRecordParsingError::ParseFailure(m)) => assert_eq!(m, "Failed to parse direction from row"),
        _ => panic!("a bad direction must fail"),
    }
    let row: Vec<&str> = vec!["2018", "3"];
    assert!(matches!(
        ForecastCBulletinWaveRecord::from_data_row(None, &row),
        Err(DataRecordParsingError::InvalidData)
    ));
}

#[test]
fn cbulletin_collection_reads_rows_after_the_header() {
    let text = "Location : 44097      (40.98N  71.12W)
Model    : spectral resolution for points
Cycle    : 20220519 18 UTC
day hour Hs n Hs Tp dir Hs Tp dir
(ft) (ft) (s) (deg)
1918   5  3 08 142  2 07 163
2001   6  4 08 150
0100   6  x 08 150
";
    let collection = ForecastCBulletinWaveRecordCollection::from_data(text);
    let (metadata, records) = collection.records().unwrap();
    assert_eq!(metadata.location.name, "44097");
    assert_eq!(records.len(), 2);
    assert_eq!(records[0].date, UtcDateTime { year: 2022, month: 5, day: 19, hour: 18, minute: 0, second: 0 });
    assert_eq!(records[0].swell_components.len(), 2);
    assert_eq!(records[1].date, UtcDateTime { year: 2022, month: 5, day: 20, hour: 1, minute: 0, second: 0 });
    // a period with no direction after it panics
    let cut = "Location : 44097 (40.98N 71.12W)\nModel\nCycle : 20220519 18 UTC\nh\nh\n1918 5 3 08\n";
    assert!(ForecastCBulletinWaveRecordCollection::from_data(cut).try_records().is_none());
}
