use surfrs::data::buoy_data_record::BuoyDataRecord;
use surfrs::data::latest_obs_data_record::{LatestObsDataRecord, LatestObsDataRecordCollection};
use surfrs::data::meteorological_data_record::{
    MeteorologicalDataRecord, MeteorologicalDataRecordCollection,
};
use surfrs::data::parseable_data_record::ParseableDataRecord;
use surfrs::data::wave_data_record::{WaveDataRecord, WaveDataRecordCollection};
use surfrs::dimensional_data::DimensionalData;
use surfrs::time::UtcDateTime;

fn value(d: &DimensionalData<String>) -> Option<f64> {
    d.value.as_ref().map(|t| t.parse::<f64>().unwrap())
}

#[test]
fn wave_data_record_test_wave_data_row_parse() {
    let raw_data = "2018 09 25 00 43  2.0  0.4 12.5  1.9  6.2   E   E VERY_STEEP  5.0 101";
    let data_row: Vec<&str> = raw_data.split_whitespace().collect();

    let wave_data = WaveDataRecord::from_data_row(None, &data_row).unwrap();

    // the steepness and the directions are kept as written
    assert_eq!(wave_data.steepness, "VERY_STEEP");
    assert_eq!(wave_data.swell_wave_direction.value.as_deref(), Some("E"));
    assert_eq!(wave_data.wind_wave_direction.value.as_deref(), Some("E"));
    assert!((value(&wave_data.wave_height).unwrap_or(0.0) - 2.0).abs() < 0.0001);
    assert!((value(&wave_data.swell_wave_height).unwrap_or(0.0) - 0.4).abs() < 0.0001);
}

#[test]
fn test_latest_obs_row_parse() {
    let raw_data = "44097  40.967  -71.124 2022 12 30 01 26  MM    MM    MM  1.7   6  4.9 212     MM    MM    MM  10.3    MM   MM     MM";
    let data_row: Vec<&str> = raw_data.split_whitespace().collect();

    let met_data = LatestObsDataRecord::from_data_row(None, &data_row).unwrap();

    assert_eq!(met_data.date.year, 2022);
    assert_eq!(met_data.station_id, "44097");
    assert_eq!(value(&met_data.wave_height).unwrap(), 1.7);
    assert_eq!(met_data.mean_wave_direction.value.as_deref(), Some("212"));
    assert_eq!(value(&met_data.water_temperature).unwrap(), 10.3);
    assert!(met_data.tide.value.is_none());

    let station = met_data.station();
    assert_eq!(station.station_id, "44097");
    assert_eq!(station.latitude, "40.967");
    assert_eq!(station.longitude, "-71.124");
}

#[test]
fn meteorological_data_record_test_wave_data_row_parse() {
    let raw_data = "2018 09 25 00 50  80 12.0 14.0   2.2     7   5.4 101 1032.4  16.5  19.4  12.9   MM +0.3    MM";
    let data_row: Vec<&str> = raw_data.split_whitespace().collect();

    let met_data = MeteorologicalDataRecord::from_data_row(None, &data_row).unwrap();

    assert_eq!(met_data.date.year, 2018);
    assert_eq!(value(&met_data.wind_speed).unwrap(), 12.0);
    assert_eq!(value(&met_data.wind_gust_speed).unwrap(), 14.0);
    assert!(met_data.tide.value.is_none());
    assert_eq!(value(&met_data.air_pressure_tendency).unwrap(), 0.3);
    // the tide is read in feet
    assert_eq!(met_data.tide.unit, surfrs::units::Unit::Feet);
}

#[test]
fn observation_collections_read_their_rows() {
    let wave = "#YY  MM DD hh mm WVHT  SwH  SwP  WWH  WWP SwD WWD  STEEPNESS  APD MWD
2018 09 25 00 43  2.0  0.4 12.5  1.9  6.2   E   E VERY_STEEP  5.0 101
2018 09 25 01 43  MM  0.4 12.5  1.9  6.2 SSE   E    AVERAGE  5.0 101
";
    let records = WaveDataRecordCollection::from_data(wave).records();
    assert_eq!(records.len(), 2);
    assert_eq!(records[1].date, UtcDateTime { year: 2018, month: 9, day: 25, hour: 1, minute: 43, second: 0 });
    assert!(records[1].wave_height.value.is_none());
    assert_eq!(records[1].swell_wave_direction.value.as_deref(), Some("SSE"));

    let latest = "#STN LAT LON YYYY MM DD hh mm WDIR WSPD GST WVHT DPD APD MWD PRES PTDY ATMP WTMP DEWP VIS TIDE
44097  40.967  -71.124 2022 12 30 01 26  MM    MM    MM  1.7   6  4.9 212     MM    MM    MM  10.3    MM   MM     MM
";
    let records = LatestObsDataRecordCollection::from_data(latest).records();
    assert_eq!(records.len(), 1);
    assert_eq!(records[0].station_id, "44097");

    let met = "2018 09 25 00 50  80 12.0 14.0   2.2     7   5.4 101 1032.4  16.5  19.4  12.9   MM +0.3    MM\n";
    let records = MeteorologicalDataRecordCollection::from_data(met).records();
    assert_eq!(records.len(), 1);
    assert_eq!(records[0].wind_direction.value.as_deref(), Some("80"));
}

#[test]
fn observation_collections_stop_before_a_panic() {
    // too few columns
    assert!(WaveDataRecordCollection::from_data("2018 09 25 00 43 2.0\n").try_records().is_none());
    // a position that is no number
    let latest = "44097 north -71.124 2022 12 30 01 26 MM MM MM 1.7 6 4.9 212 MM MM MM 10.3 MM MM MM\n";
    assert!(LatestObsDataRecordCollection::from_data(latest).try_records().is_none());
    // a date out of the calendar
    let met = "2018 02 30 00 50 80 12.0 14.0 2.2 7 5.4 101 1032.4 16.5 19.4 12.9 MM +0.3 MM\n";
    assert!(MeteorologicalDataRecordCollection::from_data(met).try_records().is_none());
}

#[test]
fn buoy_data_record_takes_the_first_row() {

    let met = "#YY  MM DD hh mm WDIR WSPD GST  WVHT   DPD   APD MWD   PRES  ATMP  WTMP  DEWP  VIS PTDY  TIDE
2018 09 25 00 50  80 12.0 14.0   2.2     7   5.4 101 1032.4  16.5  19.4  12.9   MM +0.3    MM
2018 09 25 00 40  90 11.0 13.0   2.1     7   5.3 100 1032.5  16.4  19.4  12.8   MM +0.2    MM
";
    match BuoyDataRecord::parse_from_meteorological_data(met) {
        Some(BuoyDataRecord::Meteorological(r)) => {
            assert_eq!(r.date.minute, 50);
            assert_eq!(r.wind_direction.value.as_deref(), Some("80"));
        }
        _ => panic!("expected a meteorological record"),
    }

    let wave = "#YY  MM DD hh mm WVHT  SwH  SwP  WWH  WWP SwD WWD  STEEPNESS  APD MWD
2018 09 25 01 43  MM  0.4 12.5  1.9  6.2 SSE   E    AVERAGE  5.0 101
2018 09 25 00 43  2.0  0.4 12.5  1.9  6.2   E   E VERY_STEEP  5.0 101
";
    match BuoyDataRecord::parse_from_detailed_wave_data(wave) {
        Some(BuoyDataRecord::Wave(r)) => {
            assert_eq!(r.date.hour, 1);
            assert_eq!(r.steepness, "AVERAGE");
        }
        _ => panic!("expected a wave record"),
    }

    // a file of comments only has no first row
    assert!(BuoyDataRecord::parse_from_meteorological_data("#YY MM DD\n").is_none());
    assert!(BuoyDataRecord::parse_from_detailed_wave_data("").is_none());
    // a row that cannot be read
    assert!(BuoyDataRecord::try_parse_from_detailed_wave_data("2018 09 25\n").is_none());
}
