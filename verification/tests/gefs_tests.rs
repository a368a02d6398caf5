use surfrs::data::gefs_bulletin_wave_data_record::{
    GEFSBulletinWaveRecord, GEFSBulletinWaveRecordCollection, GEFSBulletinWaveRecordMetadata,
};
use surfrs::data::gefs_timeseries_wave_data_record::{
    GEFSTimeseriesWaveRecord, GEFSTimeseriesWaveRecordCollection,
};
use surfrs::data::parseable_data_record::{DataRecordParsingError, ParseableDataRecord};
use surfrs::dimensional_data::DimensionalData;
use surfrs::location::Coordinate;
use surfrs::time::UtcDateTime;
use surfrs::units::Unit;

fn num(d: &DimensionalData<String>) -> f64 {
    d.value.as_ref().unwrap().parse::<f64>().unwrap()
}

fn coordinate(c: &Coordinate) -> f64 {
    let v = c.magnitude.parse::<f64>().unwrap().abs();
    if c.negative {
        -v
    } else {
        v
    }
}

const TIMESERIES_SAMPLE: &str = " date   hour Hs avg Hs spr Tp avg Tp spr U10avg U10spr \n               (m)    (m)    (s)    (s)  (m/s)  (m/s)  \n ----------------------------------------------------- \n 20260305 12  1.05   0.03   7.14   0.25   1.16   0.56 \n 20260305 15  1.01   0.03   7.61   0.93   1.17   0.66 \n 20260306 00  1.10   0.06   9.03   0.92   8.71   0.93 \n";

#[test]
fn test_parse_gefs_timeseries() {
    let collection = GEFSTimeseriesWaveRecordCollection::from_data(TIMESERIES_SAMPLE);
    let rows: Vec<_> = collection.records();

    assert_eq!(rows.len(), 3);

    let first = &rows[0];
    assert_eq!(first.date.year, 2026);
    assert_eq!(first.date.month, 3);
    assert_eq!(first.date.day, 5);
    assert_eq!(first.date.hour, 12);
    assert!((num(&first.significant_wave_height_avg) - 1.05).abs() < 0.001);
    assert!((num(&first.significant_wave_height_spread) - 0.03).abs() < 0.001);
    assert!((num(&first.peak_period_avg) - 7.14).abs() < 0.001);
    assert!((num(&first.peak_period_spread) - 0.25).abs() < 0.001);
    assert!((num(&first.wind_speed_avg) - 1.16).abs() < 0.001);
    assert!((num(&first.wind_speed_spread) - 0.56).abs() < 0.001);

    let third = &rows[2];
    assert_eq!(third.date.day, 6);
    assert_eq!(third.date.hour, 0);
}

#[test]
fn timeseries_row_errors() {
    let short = vec!["20260305", "12", "1.0"];
    match GEFSTimeseriesWaveRecord::from_data_row(None, &short) {
        Err(DataRecordParsingError::ParseFailure(m)) => assert_eq!(m, "Expected 8 columns, got 3"),
        _ => panic!("a short row must fail"),
    }
    let bad_date = vec!["2026035", "12", "1", "2", "3", "4", "5", "6"];
    match GEFSTimeseriesWaveRecord::from_data_row(None, &bad_date) {
        Err(DataRecordParsingError::ParseFailure(m)) => {
            assert_eq!(m, "Expected 8-digit date YYYYMMDD")
        }
        _ => panic!("a seven digit date must fail"),
    }
    let bad_month = vec!["2026x305", "12", "1", "2", "3", "4", "5", "6"];
    match GEFSTimeseriesWaveRecord::from_data_row(None, &bad_month) {
        Err(DataRecordParsingError::ParseFailure(m)) => assert_eq!(m, "Failed to parse month"),
        _ => panic!("a letter in the month must fail"),
    }
    let bad_hour = vec!["20260305", "-1", "1", "2", "3", "4", "5", "6"];
    match GEFSTimeseriesWaveRecord::from_data_row(None, &bad_hour) {
        Err(DataRecordParsingError::ParseFailure(m)) => assert_eq!(m, "Failed to parse hour"),
        _ => panic!("a negative hour must fail"),
    }
    let no_day = vec!["20260230", "12", "1", "2", "3", "4", "5", "6"];
    match GEFSTimeseriesWaveRecord::from_data_row(None, &no_day) {
        Err(DataRecordParsingError::ParseFailure(m)) => assert_eq!(m, "Invalid date/time"),
        _ => panic!("the 30th of February must fail"),
    }
    let missing = vec!["20260305", "12", "NaN", "x", "3", "4", "5", "6"];
    let rec = GEFSTimeseriesWaveRecord::from_data_row(None, &missing).unwrap();
    assert_eq!(rec.significant_wave_height_avg.value.as_deref(), Some("NaN"));
    assert!(rec.significant_wave_height_spread.value.is_none());
    assert_eq!(rec.significant_wave_height_spread.unit, Unit::Meters);
    assert_eq!(rec.significant_wave_height_spread.variable_name, "significant wave height spread");
}

const BULLETIN_SAMPLE: &str = r#" Location : 44097      (40.969N  -71.127W)
 Model    : NCEP Global Wave Ensemble System (gefs.wave)
 Cycle    : 20260305 t12z UTC

+-------+--------+--------+--------+--------+--------+--------+--------+--------+--------+--------+--------+--------+
| day   | Hs avg | Hs spr | Tp avg | Tp spr | U10avg | U10spr | P(Hs>) | P(Hs>) | P(Hs>) | P(Hs>) | P(Hs>) | P(Hs>) |
|  hour |  (m)   |  (m)   |  (s)   |  (m)   |  (m/s) |  (m/s) |  1.00m |  2.00m | 3.00m  |  5.50m |  7.00m |  9.00m |
+-------+--------+--------+--------+--------+--------+--------+--------+--------+--------+--------+--------+--------+
| 05 12 |  1.05  |  0.03  |  7.14  |  0.25  |  1.16  |  0.56  |  1.00  |  0.98  |  0.00  |  0.00  |  0.00  |  0.00  |
| 06 00 |  1.10  |  0.06  |  9.03  |  0.92  |  8.71  |  0.93  |  1.00  |  0.94  |  0.00  |  0.00  |  0.00  |  0.00  |
+-------+--------+--------+--------+--------+--------+--------+--------+--------+--------+--------+--------+--------+
"#;

#[test]
fn test_parse_gefs_bulletin() {
    let meta = GEFSBulletinWaveRecordMetadata::from_text(BULLETIN_SAMPLE).unwrap();
    assert_eq!(meta.location.name, "44097");
    assert!((coordinate(&meta.location.latitude) - 40.969).abs() < 0.001);
    assert!((coordinate(&meta.location.longitude) - (-71.127)).abs() < 0.001);
    assert_eq!(meta.model_run_date.year, 2026);
    assert_eq!(meta.model_run_date.month, 3);
    assert_eq!(meta.model_run_date.day, 5);
    assert_eq!(meta.model_run_date.hour, 12);

    let collection = GEFSBulletinWaveRecordCollection::from_data(BULLETIN_SAMPLE);
    let (_, records) = collection.records().unwrap();
    let rows: Vec<_> = records;

    assert_eq!(rows.len(), 2);

    let first = &rows[0];
    assert_eq!(first.date.month, 3);
    assert_eq!(first.date.day, 5);
    assert_eq!(first.date.hour, 12);
    assert!((num(&first.significant_wave_height_avg) - 1.05).abs() < 0.001);
    assert!((num(&first.significant_wave_height_spread) - 0.03).abs() < 0.001);
    assert!((num(&first.peak_period_avg) - 7.14).abs() < 0.001);
    assert!((num(&first.wind_speed_avg) - 1.16).abs() < 0.001);
    assert!((first.prob_hs_gt_1m.parse::<f64>().unwrap() - 1.00).abs() < 0.001);
    assert!((first.prob_hs_gt_2m.parse::<f64>().unwrap() - 0.98).abs() < 0.001);
    assert!((first.prob_hs_gt_3m.parse::<f64>().unwrap() - 0.00).abs() < 0.001);
}

#[test]
fn test_parse_gefs_bulletin_leading_blank_line() {
    // Real .bull files extracted from the station tar begin with a blank
    // line before the Location header. The parser must tolerate it.
    let data = format!("\n{BULLETIN_SAMPLE}");

    let meta = GEFSBulletinWaveRecordMetadata::from_text(&data).unwrap();
    assert_eq!(meta.location.name, "44097");
    assert_eq!(meta.model_run_date.hour, 12);

    let collection = GEFSBulletinWaveRecordCollection::from_data(&data);
    let (_, records) = collection.records().unwrap();
    assert_eq!(records.len(), 2);
}

#[test]
fn bulletin_header_errors() {
    match GEFSBulletinWaveRecordMetadata::from_text(" Model : gefs\n") {
        Err(DataRecordParsingError::ParseFailure(m)) => {
            assert_eq!(m, "Invalid data for location metadata")
        }
        _ => panic!("a header without a location must fail"),
    }
    match GEFSBulletinWaveRecordMetadata::from_text(" Location : 44097 (40.969N -71.127W)\n") {
        Err(DataRecordParsingError::ParseFailure(m)) => assert_eq!(m, "Missing cycle line"),
        _ => panic!("a header without a cycle must fail"),
    }
    match GEFSBulletinWaveRecordMetadata::from_text(
        " Location : 44097 (40.969N -71.127W)\n Cycle : 20261305 t12z UTC\n",
    ) {
        Err(DataRecordParsingError::ParseFailure(m)) => assert_eq!(m, "Invalid cycle date/time"),
        _ => panic!("month 13 must fail"),
    }
}

#[test]
fn bulletin_rows_roll_into_next_month() {
    let meta = GEFSBulletinWaveRecordMetadata::from_text(
        " Location : 44097 (40.969N -71.127W)\n Cycle : 20260330 t00z UTC\n",
    )
    .unwrap();
    let row = vec![
        "01 06", "1.0", "0.1", "7", "1", "2", "1", "1.00", "0.50", "0.00", "0.00", "0.00", "0.00",
    ];
    let rec = GEFSBulletinWaveRecord::from_data_row(Some(&meta), &row).unwrap();
    assert_eq!(rec.date, UtcDateTime { year: 2026, month: 4, day: 1, hour: 6, minute: 0, second: 0 });

    match GEFSBulletinWaveRecord::from_data_row(None, &row) {
        Err(DataRecordParsingError::InvalidData) => {}
        _ => panic!("a row without its header must fail"),
    }
    let mut bad = row.clone();
    bad[9] = "n/a";
    match GEFSBulletinWaveRecord::from_data_row(Some(&meta), &bad) {
        Err(DataRecordParsingError::ParseFailure(m)) => {
            assert_eq!(m, "Float parse: invalid float literal")
        }
        _ => panic!("a probability that is no number must fail"),
    }
}

#[test]
fn test_wave_bulletin_row_parse() {}
