use surfrs::data::forecast_spectral_wave_data_record::ForecastSpectralWaveDataRecordMetadata;
use surfrs::data::parseable_data_record::DataRecordParsingError;
use surfrs::data::swan_spectra_data_record::{SpectrumBlock, SwanSpectraDataRecord};
use surfrs::time::UtcDateTime;
use surfrs::units::DirectionConvention;

#[test]
fn parse_stationary_zero_block() {
    let text = "SWAN   1\n\
        LOCATIONS locations in x-y-space\n\
             1\n\
            -71.0 41.0\n\
        RFREQ relative frequencies in Hz\n\
             2\n\
            0.05\n\
            0.06\n\
        NDIR nautical directions\n\
             2\n\
            0.0\n\
            180.0\n\
        QUANT\n\
             1\n\
        VaDens\n\
        m2/Hz/degr\n\
        -0.9900E+02\n\
        ZERO\n";

    let (header, records) = SwanSpectraDataRecord::from_swan(text).unwrap();
    assert!(!header.time_dependent);
    assert_eq!(records.len(), 1);
    assert!(records[0].date.is_none());
    assert!(matches!(records[0].block, SpectrumBlock::Zero));
}

#[test]
fn parse_time_dependent_factor_blocks() {
    let text = "SWAN   1                                Swan standard spectral file, version\n\
$   Data produced by surfrs\n\
TIME                                    time-dependent data\n\
     1                                  time coding option\n\
LOCATIONS                               locations in x-y-space\n\
     2                                  number of locations\n\
      -71.000000       41.000000\n\
      -70.500000       41.500000\n\
CDIR                                    spectral cartesian directions in degr\n";
    // The text ends where the frequency count belongs.
    match SwanSpectraDataRecord::from_swan(text) {
        Err(DataRecordParsingError::EOF) => {}
        _ => panic!("a header cut short must end"),
    }

    let text = "SWAN   1\n\
TIME\n\
     1\n\
LOCATIONS\n\
     1\n\
      -71.000000       41.000000\n\
RFREQ\n\
     2\n\
    0.050000\n\
    0.060000\n\
cdir\n\
     3\n\
      0.0000\n\
    120.0000\n\
    240.0000\n\
QUANT\n\
     1\n\
VaDens\n\
m2/Hz/degr\n\
     -0.9900E+02                          exception value\n\
20240304.120000\n\
FACTOR\n\
    0.12345678E-03\n\
       1       2       3\n\
       4       5       6\n\
20240304.150000\n\
NODATA\n";
    let (header, records) = SwanSpectraDataRecord::from_swan(text).unwrap();
    assert!(header.time_dependent);
    assert_eq!(header.locations, vec![("-71.000000".to_string(), "41.000000".to_string())]);
    assert_eq!(header.frequency, vec!["0.050000", "0.060000"]);
    assert_eq!(header.direction, vec!["0.0000", "120.0000", "240.0000"]);
    assert_eq!(header.dir_convention, DirectionConvention::Met);
    assert_eq!(header.exception, "-0.9900E+02");
    assert_eq!(records.len(), 1);
    assert_eq!(
        records[0].date,
        Some(UtcDateTime { year: 2024, month: 3, day: 4, hour: 12, minute: 0, second: 0 })
    );
    assert_eq!(records[0].location, 0);
    match &records[0].block {
        SpectrumBlock::Factor { factor, rows } => {
            assert_eq!(factor, "0.12345678E-03");
            assert_eq!(rows, &vec![vec!["1", "2", "3"], vec!["4", "5", "6"]]);
        }
        SpectrumBlock::Zero => panic!("the block is scaled"),
    }
}

#[test]
fn swan_errors() {
    match SwanSpectraDataRecord::from_swan("") {
        Err(DataRecordParsingError::EOF) => {}
        _ => panic!("an empty file ends at once"),
    }
    match SwanSpectraDataRecord::from_swan("NOT A SPECTRUM\n") {
        Err(DataRecordParsingError::ParseFailure(m)) => assert_eq!(m, "Missing SWAN header"),
        _ => panic!("a file without the SWAN keyword must fail"),
    }
    let two_quantities = "SWAN 1\nLOCATIONS\n0\nRFREQ\n0\nNDIR\n0\nQUANT\n2\n";
    match SwanSpectraDataRecord::from_swan(two_quantities) {
        Err(DataRecordParsingError::ParseFailure(m)) => {
            assert_eq!(m, "Expected single quantity 2D spectra, found 2")
        }
        _ => panic!("two quantities must fail"),
    }
    let bad_keyword = "SWAN 1\nLOCATIONS\n1\n0 0\nRFREQ\n0\nNDIR\n0\nQUANT\n1\nVaDens\nunit\n-99\nzeroes\n";
    match SwanSpectraDataRecord::from_swan(bad_keyword) {
        Err(DataRecordParsingError::ParseFailure(m)) => {
            assert_eq!(m, "Unexpected SWAN spectrum keyword: ZEROES")
        }
        _ => panic!("an unknown block keyword must fail"),
    }
    let bad_date = "SWAN 1\nTIME\n1\nLOCATIONS\n1\n0 0\nRFREQ\n0\nNDIR\n0\nQUANT\n1\nVaDens\nunit\n-99\n20241304.120000\nZERO\n";
    match SwanSpectraDataRecord::from_swan(bad_date) {
        Err(DataRecordParsingError::ParseFailure(m)) => {
            assert_eq!(m, "Invalid SWAN date: 20241304.120000")
        }
        _ => panic!("month 13 must fail"),
    }
}

#[test]
fn parse_forecast_spectra_metadata() {
    let metadata = "'WAVEWATCH III SPECTRA'     50    36     1 'spectral resolution for points'
        0.350E-01 0.375E-01 0.401E-01 0.429E-01 0.459E-01 0.491E-01 0.525E-01 0.562E-01
        0.601E-01 0.643E-01 0.689E-01 0.737E-01 0.788E-01 0.843E-01 0.902E-01 0.966E-01
        0.103E+00 0.111E+00 0.118E+00 0.127E+00 0.135E+00 0.145E+00 0.155E+00 0.166E+00
        0.178E+00 0.190E+00 0.203E+00 0.217E+00 0.233E+00 0.249E+00 0.266E+00 0.285E+00
        0.305E+00 0.326E+00 0.349E+00 0.374E+00 0.400E+00 0.428E+00 0.458E+00 0.490E+00
        0.524E+00 0.561E+00 0.600E+00 0.642E+00 0.687E+00 0.735E+00 0.787E+00 0.842E+00
        0.901E+00 0.964E+00
         0.148E+01  0.131E+01  0.113E+01  0.960E+00  0.785E+00  0.611E+00  0.436E+00
         0.262E+00  0.873E-01  0.620E+01  0.602E+01  0.585E+01  0.567E+01  0.550E+01
         0.532E+01  0.515E+01  0.497E+01  0.480E+01  0.463E+01  0.445E+01  0.428E+01
         0.410E+01  0.393E+01  0.375E+01  0.358E+01  0.340E+01  0.323E+01  0.305E+01
         0.288E+01  0.271E+01  0.253E+01  0.236E+01  0.218E+01  0.201E+01  0.183E+01
         0.166E+01";

    let metadata = ForecastSpectralWaveDataRecordMetadata::from_text(metadata).unwrap();

    assert_eq!(metadata.frequency.len(), 50);
    assert_eq!(metadata.direction.len(), 36);
    assert_eq!(metadata.point_count, 1);
    assert_eq!(metadata.line_count, 14);

    assert_eq!(metadata.frequency[0].parse::<f64>().unwrap(), 0.035);
    assert_eq!(metadata.frequency[11].parse::<f64>().unwrap(), 0.0737);
}

#[test]
fn forecast_spectra_metadata_errors() {
    match ForecastSpectralWaveDataRecordMetadata::from_text("") {
        Err(DataRecordParsingError::ParseFailure(m)) => {
            assert_eq!(m, "Invalid data for header metadata")
        }
        _ => panic!("an empty file has no header"),
    }
    match ForecastSpectralWaveDataRecordMetadata::from_text("'WAVEWATCH III SPECTRA' 3 2 1\n0.1 0.2\n") {
        Err(DataRecordParsingError::ParseFailure(m)) => {
            assert_eq!(m, "Invalid data for frequency metadata")
        }
        _ => panic!("too few frequencies must fail"),
    }
    match ForecastSpectralWaveDataRecordMetadata::from_text("'WAVEWATCH III SPECTRA'  \n") {
        Err(DataRecordParsingError::ParseFailure(m)) => {
            assert_eq!(m, "Failed to parse frequency count: cannot parse integer from empty string")
        }
        _ => panic!("a header without counts must fail"),
    }
    let m = ForecastSpectralWaveDataRecordMetadata::from_text(
        "'WAVEWATCH III SPECTRA' 2 1 1\n0.1 x 0.2 0.3\n1.5\n",
    )
    .unwrap();
    assert_eq!(m.frequency, vec!["0.1", "0.2"]);
    assert_eq!(m.direction, vec!["1.5"]);
    assert_eq!(m.line_count, 3);
}

use surfrs::data::swan_block_file::{SwanBlockError, SwanBlockFile};
use surfrs::data::swan_table_file::{SwanTableError, SwanTableFile};

/// Mimics real SWAN BLOCK layout: header comments with the Unit factor,
/// then two column bands (SWAN wraps wide grids), star cells for land.
/// Raw string: the 5-char y label + 4-char cells are position-sensitive.
const BLOCK_EXAMPLE: &str = r"%
%
% Run:01    Frame:  COMPGRID **  Significant wave height                 , Unit:  0.1000E-01 m
%
%         X --->
%
%     0   1   2
%Y
    2 ****  12  34
    1  100 101 ***
    0   50  51  52
%     3   4
%Y
    2  77 ****
    1  88  89
    0  90  91
";

/// Dense row-major (y, x) grid with NaN for missing cells, each cell
/// scaled by the factor it was read with.
fn dense(block: &SwanBlockFile, width: usize, height: usize) -> Vec<f64> {
    let mut field = vec![f64::NAN; width * height];
    for ((x, y), cell, unit) in &block.values {
        let scale = unit.as_ref().map(|u| u.parse::<f64>().unwrap()).unwrap_or(1.0);
        if *x < width && *y < height {
            field[y * width + x] = cell.parse::<f64>().unwrap() * scale;
        }
    }
    field
}

#[test]
fn parses_bands_stars_and_unit_scaling() {
    let block = SwanBlockFile::from_data(BLOCK_EXAMPLE).unwrap();
    assert_eq!(block.unit.as_ref().unwrap().parse::<f64>().unwrap(), 0.01);
    // 15 cells minus 3 starred
    assert_eq!(block.values.len(), 12);

    let dense = dense(&block, 5, 3);
    assert!((dense[0] - 0.50).abs() < 1e-12); // (0,0)
    assert!((dense[2 * 5 + 1] - 0.12).abs() < 1e-12); // (1,2)
    assert!(dense[2 * 5].is_nan()); // (0,2) starred
    assert!((dense[1 * 5 + 3] - 0.88).abs() < 1e-12); // (3,1) second band
    assert!(dense[2 * 5 + 4].is_nan()); // (4,2) starred in second band
    assert!((dense[0 * 5 + 4] - 0.91).abs() < 1e-12); // (4,0)
}

#[test]
fn swan_block_errors() {
    match SwanBlockFile::from_data("%     0   1\n    0   5   6\n") {
        Ok(block) => {
            assert_eq!(block.values.len(), 2);
            assert!(block.unit.is_none());
        }
        Err(_) => panic!("a band without a factor reads"),
    }
    match SwanBlockFile::from_data("% Unit:\n") {
        Err(SwanBlockError::Parse { line, message }) => {
            assert_eq!(line, 1);
            assert_eq!(message, "Unit: with no value");
        }
        _ => panic!("a factor without a value must fail"),
    }
    match SwanBlockFile::from_data("%\n%     0   x\n") {
        Err(SwanBlockError::Parse { line, message }) => {
            assert_eq!(line, 2);
            assert_eq!(message, "invalid x index: invalid digit found in string");
        }
        _ => panic!("a letter among the x indices must fail"),
    }
    match SwanBlockFile::from_data("%     0\n    0  5.x\n") {
        Err(SwanBlockError::Parse { line, message }) => {
            assert_eq!(line, 2);
            assert_eq!(message, "invalid cell: invalid float literal");
        }
        _ => panic!("a cell that is no number must fail"),
    }
    match SwanBlockFile::from_data("% nothing here\n") {
        Err(SwanBlockError::Empty) => {}
        _ => panic!("a file without cells is empty"),
    }
    let e = SwanBlockError::Parse { line: 3, message: "invalid cell: x".to_string() };
    assert_eq!(e.message(), "SWAN block parse error on line 3: invalid cell: x");
}

const TABLE_EXAMPLE: &str = "%\n\
%\n\
% Run:01    Table:SPT00             SWAN version:41.51A\n\
%\n\
%       Xp            Yp            Depth         Hsig          RTpeak        TPsmoo        Dir           Dspr     \n\
%       [degr]        [degr]        [m]           [m]           [sec]         [sec]         [degr]        [degr]   \n\
%\n\
      -71.545       41.3650       10.0192       1.19505        5.6422        5.4159       126.826       23.7477\n";

#[test]
fn parses_head_table_with_named_columns() {
    let table = SwanTableFile::from_data(TABLE_EXAMPLE).unwrap();
    assert_eq!(table.columns, ["Xp", "Yp", "Depth", "Hsig", "RTpeak", "TPsmoo", "Dir", "Dspr"]);
    assert_eq!(table.units[3], "m");
    assert_eq!(table.rows.len(), 1);
    assert_eq!(table.value(0, "hsig").map(|v| v.parse::<f64>().unwrap()), Some(1.19505));
    assert_eq!(table.value(0, "Dir").map(|v| v.parse::<f64>().unwrap()), Some(126.826));
    assert_eq!(table.value(0, "nope"), None);
}

#[test]
fn swan_table_errors() {
    match SwanTableFile::from_data("% a b\n1 2 3\n") {
        Err(SwanTableError::Parse { line, message }) => {
            assert_eq!(line, 2);
            assert_eq!(message, "3 values for 2 columns");
        }
        _ => panic!("a row longer than the columns must fail"),
    }
    match SwanTableFile::from_data("1 x\n") {
        Err(SwanTableError::Parse { line, message }) => {
            assert_eq!(line, 1);
            assert_eq!(message, "invalid value: invalid float literal");
        }
        _ => panic!("a value that is no number must fail"),
    }
    match SwanTableFile::from_data("%\n% only comments\n") {
        Err(SwanTableError::Empty) => {}
        _ => panic!("a table without rows is empty"),
    }
    assert_eq!(SwanTableError::Empty.message(), "no data rows found in SWAN table output");
}

#[test]
fn swan_try_from_swan_stops_before_a_panic() {
    // the time stamp cuts a character in two at byte 4
    let cut = "SWAN 1\nTIME\n1\nLOCATIONS\n1\n0 0\nRFREQ\n0\nNDIR\n0\nQUANT\n1\nVaDens\nunit\n-99\n202\u{e9}0101.120000\nZERO\n";
    assert!(SwanSpectraDataRecord::try_from_swan(cut).is_none());
    let fine = "SWAN 1\nTIME\n1\nLOCATIONS\n1\n0 0\nRFREQ\n0\nNDIR\n0\nQUANT\n1\nVaDens\nunit\n-99\n20240101.120000\nZERO\n";
    match SwanSpectraDataRecord::try_from_swan(fine) {
        Some(Ok((header, records))) => {
            assert_eq!(header.dir_convention, DirectionConvention::From);
            assert_eq!(records.len(), 1);
        }
        _ => panic!("a valid file reads"),
    }
}
