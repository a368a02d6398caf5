use surfrs::data::grib_index_record::GribIndexRecord;
use surfrs::data::parseable_data_record::{DataRecordParsingError, ParseableDataRecord};
use surfrs::time::UtcDateTime;

#[test]
fn test_grib_index_row_parse() {
    let raw_data = "8:2540945:d=2023051512:REFD:2 hybrid level:34 hour fcst:";
    let data_row: Vec<&str> = raw_data.split(":").collect();
    let grib_index = GribIndexRecord::from_data_row(None, &data_row).unwrap();

    let ref_date = UtcDateTime { year: 2023, month: 05, day: 15, hour: 12, minute: 0, second: 0 };
    assert_eq!(grib_index.index, 8);
    assert_eq!(grib_index.offset, 2540945);
    assert_eq!(grib_index.reference_date, ref_date);
    assert_eq!(grib_index.var, "REFD");
    assert_eq!(grib_index.level, "2 hybrid level");
    assert_eq!(grib_index.valid, "34 hour fcst");
}

#[test]
fn grib_index_row_errors() {
    let row = vec!["-8", "1", "d=2023051512", "REFD", "sfc", "anl"];
    match GribIndexRecord::from_data_row(None, &row) {
        Err(DataRecordParsingError::ParseFailure(m)) => {
            assert_eq!(m, "Int: invalid digit found in string")
        }
        _ => panic!("a negative index must fail"),
    }
    let row = vec!["8", "99999999999999999999999", "d=2023051512", "REFD", "sfc", "anl"];
    match GribIndexRecord::from_data_row(None, &row) {
        Err(DataRecordParsingError::ParseFailure(m)) => {
            assert_eq!(m, "Int: number too large to fit in target type")
        }
        _ => panic!("an offset beyond usize must fail"),
    }
    let row = vec!["8", "1", "2023051512", "REFD", "sfc", "anl"];
    match GribIndexRecord::from_data_row(None, &row) {
        Err(DataRecordParsingError::ParseFailure(m)) => assert!(m.starts_with("Date: ")),
        _ => panic!("a date without its prefix must fail"),
    }
}
