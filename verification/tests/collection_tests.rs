use surfrs::data::grib_index_record::GribIndexRecordCollection;
use surfrs::data::spectral_wave_data_record::SpectralWaveDataRecordCollection;
use surfrs::time::UtcDateTime;

#[test]
fn grib_index_collection_reads_rows_that_parse() {
    let data = "1:0:d=2023051512:HTSGW:surface:anl:
# a comment line
2:2540945:d=2023051512:REFD:2 hybrid level:34 hour fcst:
x:5:d=2023051512:A:b:c:
3:999:d=2023051512:WIND:  10 m above ground  :6 hour fcst:
";
    let collection = GribIndexRecordCollection::from_data(data);
    let records = collection.records();
    assert_eq!(records.len(), 3);
    assert_eq!(records[0].index, 1);
    assert_eq!(records[0].var, "HTSGW");
    assert_eq!(records[1].offset, 2540945);
    assert_eq!(records[1].level, "2 hybrid level");
    assert_eq!(
        records[1].reference_date,
        UtcDateTime { year: 2023, month: 5, day: 15, hour: 12, minute: 0, second: 0 }
    );
    // fields are trimmed
    assert_eq!(records[2].level, "10 m above ground");
    assert_eq!(records[2].valid, "6 hour fcst");
}

#[test]
fn grib_index_collection_stops_before_a_short_row() {
    let collection = GribIndexRecordCollection::from_data("1:0:d=2023051512:HTSGW:surface:anl:\n2:5:d=2023\n");
    assert!(collection.try_records().is_none());
    let collection = GribIndexRecordCollection::from_data("1:0:d=2023051512:HTSGW:surface:anl:\n");
    assert_eq!(collection.try_records().unwrap().len(), 1);
}

#[test]
fn spectral_collection_reads_rows_that_parse() {
    let data = "#YY  MM DD hh mm Sep_Freq  < spec_1 (freq_1) spec_2 (freq_2) ... >
#yr  mo dy hr mn Hz  m2/Hz (Hz) ...
2018 09 01 10 00 9.999 0.000 (0.033) 0.021 (0.038)
2018 09 01 11 00 9.999 0.500 (0.033) x (0.038)
2018 09 01 12 00   0.100 (0.033)   0.200 (0.038)   0.300 (0.043)
";
    let collection = SpectralWaveDataRecordCollection::from_data(data);
    let records = collection.records();
    assert_eq!(records.len(), 2);
    assert_eq!(records[0].separation_frequency.as_deref(), Some("9.999"));
    assert_eq!(records[0].value, vec!["0.000", "0.021"]);
    assert_eq!(records[0].frequency, vec!["0.033", "0.038"]);
    assert_eq!(records[1].date.hour, 12);
    assert!(records[1].separation_frequency.is_none());
    assert_eq!(records[1].frequency, vec!["0.033", "0.038", "0.043"]);
}

#[test]
fn spectral_collection_stops_before_an_impossible_date() {
    let collection = SpectralWaveDataRecordCollection::from_data("2018 02 30 10 00 0.1 (0.03)\n");
    assert!(collection.try_records().is_none());
}
