use surfrs::buoy::data::forecast_spectral_wave_data_record::ForecastSpectralWaveDataRecord;
use surfrs::data::forecast_spectral_wave_data_record::ForecastSpectralWaveDataRecordMetadata;
use surfrs::data::parseable_data_record::DataRecordParsingError;

#[test]
fn forecast_spectral_wave_data_record_parse_forecast_spectra_metadata() {
    let metadata = "'WAVEWATCH III SPECTRA'     50    36     1 'spectral resolution for points'
        0.350E-01 0.375E-01 0.401E-01 0.429E-01 0.459E-01 0.491E-01 0.525E-01 0.562E-01
        0.601E-01 0.643E-01 0.689E-01 0.737E-01 0.788E-01 0.843E-01 0.902E-01 0.966E-01
        0.103E+00 0.111E+00 0.118E+00 0.127E+00 0.135E+00 0.145E+00 0.155E+00 0.166E+00
        0.178E+00 0.190E+00 0.203E+00 0.217E+00 0.233E+00 0.249E+00 0.266E+00 0.285E+00
        0.305E+00 0.326E+00 0.349E+00 0.374E+00 0.400E+00 0.428E+00 0.458E+00 0.490E+00
        0.524E+00 0.561E+00 0.600E+00 0.642E+00 0.687E+00 0.735E+00 0.787E+00 0.842E+00
        0.901E+00 0.964E+00
         0.148E+01  0.131E+01  0.113E+01  0.960E+00  0.785E+00  0.611E+00  0.436E+00
         0.262E+00  0.873E-01  0.620E+01  0.602E+01  0.585E+01  0.567E+01  0.550E+01
         0.532E+01  0.515E+01  0.497E+01  0.480E+01  0.463E+01  0.445E+01  0.428E+01
         0.410E+01  0.393E+01  0.375E+01  0.358E+01  0.340E+01  0.323E+01  0.305E+01
         0.288E+01  0.271E+01  0.253E+01  0.236E+01  0.218E+01  0.201E+01  0.183E+01
         0.166E+01";

    let metadata = ForecastSpectralWaveDataRecordMetadata::from_text(metadata).unwrap();

    assert_eq!(metadata.frequency.len(), 50);
    assert_eq!(metadata.direction.len(), 36);
    assert_eq!(metadata.point_count, 1);
    assert_eq!(metadata.line_count, 14);

    assert_eq!(metadata.frequency[0].parse::<f64>().unwrap(), 0.035);
    assert_eq!(metadata.frequency[11].parse::<f64>().unwrap(), 0.0737);

    // directions are kept in radians as written; in whole degrees they are
    let degrees = |i: usize| metadata.direction[i].parse::<f64>().unwrap().to_degrees().round() as i32;
    assert_eq!(degrees(0), 85);
    assert_eq!(degrees(15), 295);
}

const HEADER: &str = "'WAVEWATCH III SPECTRA'     2     2     1 'spectral resolution for points'
  0.500E-01 0.100E+00
  0.148E+01 0.131E+01
";

#[test]
fn buoy_spectra_read_every_record() {
    let data = format!(
        "{HEADER}20240301 061530
'46025     '  33.75 240.50   900.0   5.20 270   0.10  45
  0.1E+00 0.2E+00 0.3E+00
  0.4E+00
20240301 090000
'46025     '  33.75 240.50   900.0   6.10 280   0.20  50
  0.5E+00 0.6E+00 0.7E+00 0.8E+00
"
    );
    let (metadata, records) = ForecastSpectralWaveDataRecord::from_data(&data, None).unwrap();
    assert_eq!(metadata.unwrap().line_count, 3);
    assert_eq!(records.len(), 2);
    let first = &records[0];
    assert_eq!((first.date.year, first.date.month, first.date.day), (2024, 3, 1));
    // hour and minute are read from bytes 11 to 15
    assert_eq!((first.date.hour, first.date.minute), (15, 30));
    assert_eq!(first.latitude, "33.75");
    assert_eq!(first.wind_direction.value.as_deref(), Some("270"));
    assert_eq!(first.current_direction.value.as_deref(), Some("45"));
    assert_eq!(first.values, vec!["0.1E+00", "0.2E+00", "0.3E+00", "0.4E+00"]);
    assert_eq!(records[1].values.len(), 4);
}

#[test]
fn buoy_spectra_stop_at_the_first_failure() {
    // a direction that is not a whole number
    let data = format!(
        "{HEADER}20240301 060000
'46025     '  33.75 240.50   900.0   5.20 270.0   0.10  45
  0.1E+00 0.2E+00 0.3E+00 0.4E+00
"
    );
    match ForecastSpectralWaveDataRecord::from_data(&data, None) {
        Err(DataRecordParsingError::ParseFailure(m)) => {
            assert_eq!(m, "Failed to parse wind direction: invalid digit found in string")
        }
        _ => panic!("expected a failure"),
    }
    // no point line
    let data = format!("{HEADER}20240301 060000\n");
    match ForecastSpectralWaveDataRecord::from_data(&data, None) {
        Err(DataRecordParsingError::ParseFailure(m)) => assert_eq!(m, "Failed to parse point data"),
        _ => panic!("expected a failure"),
    }
    // too few energy values
    let data = format!(
        "{HEADER}20240301 060000
'46025     '  33.75 240.50   900.0   5.20 270   0.10  45
  0.1E+00
"
    );
    match ForecastSpectralWaveDataRecord::from_data(&data, None) {
        Err(DataRecordParsingError::ParseFailure(m)) => assert_eq!(m, "Failed to parse energy data"),
        _ => panic!("expected a failure"),
    }
    // a year that is no number
    let data = format!("{HEADER}abcd0301 060000\nx\n");
    match ForecastSpectralWaveDataRecord::from_data(&data, None) {
        Err(DataRecordParsingError::ParseFailure(m)) => {
            assert_eq!(m, "Failed to parse year: invalid digit found in string")
        }
        _ => panic!("expected a failure"),
    }
    // a date line too short to slice
    let data = format!("{HEADER}20240301\n");
    assert!(ForecastSpectralWaveDataRecord::try_from_data(&data, None).is_none());
}
