use surfrs::data::forecast_spectral_wave_data_record::{
    ForecastSpectralWaveDataRecordCollection, ForecastSpectralWaveRecordIterator,
};
use surfrs::data::parseable_data_record::DataRecordParsingError;
use surfrs::time::UtcDateTime;
use surfrs::units::Unit;

const SPECTRA: &str = "'WAVEWATCH III SPECTRA'     2     2     1 'spectral resolution for points'
  0.500E-01 0.100E+00
  0.148E+01 0.131E+01
20240301 060000
'46025     '  33.75 240.50   900.0   5.20 270.0   0.10  45.0
  0.1E+00 0.2E+00
  0.3E+00 0.4E+00
20240301 090000
'46025     '  33.75 240.50   900.0   6.10 280.0   0.20  50.0
  0.5E+00 0.6E+00 0.7E+00 0.8E+00
";

fn date(day: u32, hour: u32) -> UtcDateTime {
    UtcDateTime { year: 2024, month: 3, day, hour, minute: 0, second: 0 }
}

#[test]
fn forecast_spectra_records_in_order() {
    let collection = ForecastSpectralWaveDataRecordCollection::from_data(SPECTRA);
    let (metadata, records) = collection.records().unwrap();
    assert_eq!(metadata.frequency, vec!["0.500E-01", "0.100E+00"]);
    assert_eq!(metadata.direction, vec!["0.148E+01", "0.131E+01"]);
    assert_eq!(metadata.point_count, 1);
    assert_eq!(metadata.line_count, 3);

    assert_eq!(records.len(), 2);
    let first = &records[0];
    assert_eq!(first.date, date(1, 6));
    assert_eq!(first.reference_date, date(1, 6));
    assert_eq!(first.latitude, "33.75");
    assert_eq!(first.longitude, "240.50");
    assert_eq!(first.depth.value.as_deref(), Some("900.0"));
    assert_eq!(first.depth.variable_name, "depth");
    assert_eq!(first.depth.unit, Unit::Meters);
    assert_eq!(first.wind_speed.value.as_deref(), Some("5.20"));
    assert_eq!(first.wind_speed.unit, Unit::MetersPerSecond);
    assert_eq!(first.wind_direction.value.as_deref(), Some("270.0"));
    assert_eq!(first.wind_direction.unit, Unit::Degrees);
    assert_eq!(first.current_speed.value.as_deref(), Some("0.10"));
    assert_eq!(first.current_direction.value.as_deref(), Some("45.0"));
    assert_eq!(first.current_direction.variable_name, "current direction");
    assert_eq!(first.energy, vec!["0.1E+00", "0.2E+00", "0.3E+00", "0.4E+00"]);

    let second = &records[1];
    assert_eq!(second.date, date(1, 9));
    assert_eq!(second.reference_date, date(1, 6));
    assert_eq!(second.wind_speed.value.as_deref(), Some("6.10"));
    assert_eq!(second.energy, vec!["0.5E+00", "0.6E+00", "0.7E+00", "0.8E+00"]);
    // every record carries the header's grid
    assert_eq!(second.frequency, metadata.frequency);
    assert_eq!(second.direction, metadata.direction);
}

#[test]
fn forecast_spectra_two_reads_share_the_first_date() {
    let mut it = ForecastSpectralWaveRecordIterator::from_data(SPECTRA).unwrap();
    let r1 = it.next().unwrap().unwrap();
    let r2 = it.next().unwrap().unwrap();
    assert_eq!(r1.reference_date, r1.date);
    assert_eq!(r2.reference_date, r1.date);
    assert_eq!(r2.frequency, vec!["0.500E-01", "0.100E+00"]);
    assert!(r2.energy.len() >= r2.frequency.len() * r2.direction.len());
    // past the last line: the end, again and again
    assert!(it.next().is_none());
    assert!(it.next().is_none());
}

#[test]
fn forecast_spectra_iterator_reports_errors_and_end() {
    let text = "'WAVEWATCH III SPECTRA'     1     1     1 'points'
  0.5E-01
  0.1E+01
2024030x 060000
20240301 060000
not a point line
20240301 090000
'46025     '  33.75 240.50   900.0   6.10 280.0   0.20  50.0
  abc 0.9E+00
";
    let mut it = ForecastSpectralWaveRecordIterator::from_data(text).unwrap();
    match it.next() {
        Some(Err(DataRecordParsingError::ParseFailure(m))) => {
            assert_eq!(m, "Failed to parse day: invalid digit found in string")
        }
        _ => panic!("a bad day must fail"),
    }
    match it.next() {
        Some(Err(DataRecordParsingError::ParseFailure(m))) => {
            assert_eq!(m, "Invalid data for point data")
        }
        _ => panic!("a line without point values must fail"),
    }
    match it.next() {
        Some(Ok(record)) => {
            assert_eq!(record.date, date(1, 9));
            // the first date read is the reference, though its record failed
            assert_eq!(record.reference_date, date(1, 6));
            assert_eq!(record.energy, vec!["0.9E+00"]);
        }
        _ => panic!("the last record parses"),
    }
    assert!(it.next().is_none());
}

#[test]
fn forecast_spectra_records_skip_failures() {
    let text = "'WAVEWATCH III SPECTRA'     1     1     1 'points'
  0.5E-01
  0.1E+01
20240301 060000
not a point line
20240301 090000
'46025     '  33.75 240.50   900.0   6.10 280.0   0.20  50.0
  0.9E+00
20240301 120000
";
    let collection = ForecastSpectralWaveDataRecordCollection::from_data(text);
    let (_, records) = collection.records().unwrap();
    assert_eq!(records.len(), 1);
    assert_eq!(records[0].date, date(1, 9));
    assert_eq!(records[0].reference_date, date(1, 6));
}

#[test]
fn forecast_spectra_records_header_errors() {
    let collection = ForecastSpectralWaveDataRecordCollection::from_data("nothing here");
    match collection.records() {
        Err(DataRecordParsingError::ParseFailure(m)) => {
            assert_eq!(m, "Invalid data for header metadata")
        }
        _ => panic!("a file without a header must fail"),
    }
}

#[test]
fn forecast_spectra_try_records_stops_before_a_panic() {
    // the date line is too short to slice
    let text = "'WAVEWATCH III SPECTRA'     1     1     1 'points'
  0.5E-01
  0.1E+01
2024
";
    let collection = ForecastSpectralWaveDataRecordCollection::from_data(text);
    assert!(collection.try_records().is_none());
    // and a date out of the calendar
    let text = "'WAVEWATCH III SPECTRA'     1     1     1 'points'
  0.5E-01
  0.1E+01
20240230 060000
";
    let collection = ForecastSpectralWaveDataRecordCollection::from_data(text);
    assert!(collection.try_records().is_none());
}

#[test]
fn forecast_spectra_parse_next_twice_then_end() {
    let mut it = ForecastSpectralWaveRecordIterator::from_data(SPECTRA).unwrap();
    let r1 = it.parse_next().unwrap();
    let r2 = it.parse_next().unwrap();
    assert_eq!(r1.reference_date, r1.date);
    assert_eq!(r2.reference_date, r1.date);
    assert_eq!(r2.frequency, vec!["0.500E-01", "0.100E+00"]);
    assert!(r2.energy.len() >= r2.frequency.len() * r2.direction.len());
    assert!(matches!(it.parse_next(), Err(DataRecordParsingError::EOF)));
    assert!(it.next().is_none());
}
