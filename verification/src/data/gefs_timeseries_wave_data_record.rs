//! The GEFS wave ensemble point time series: one whitespace separated row
//! per output time, `YYYYMMDD HH` then the ensemble mean and spread of wave
//! height, peak period and wind speed.

use vstd::prelude::*;
use vstd::utf8::{
    encode_utf8, encode_utf8_valid_utf8, is_ascii_chars, is_ascii_chars_encode_utf8,
    is_char_boundary, is_char_boundary_iff_not_is_continuation_byte, is_continuation_byte,
};

use crate::data::parseable_data_record::{
    parse_failure, parse_failure_with, row_text, str_refs, DataRecordParsingError,
    ParseableDataRecord,
};
use crate::dimensional_data::DimensionalData;
use crate::text::{
    all_digits, bytes_as_chars, chars_of, decimal, first_word, first_word_bounds, float_result,
    int_result, is_digit, line_spans, lines, parse_int, push_decimal, push_str, split_whitespace,
    split_ws, string_views, substring, words_of, lemma_first_word_split,
};
use crate::time::{utc_datetime, valid_civil, UtcDateTime};
use crate::units::Unit;

verus! {

#[derive(Clone, Debug)]
pub struct GEFSTimeseriesWaveRecord {
    pub date: UtcDateTime,
    pub significant_wave_height_avg: DimensionalData<String>,
    pub significant_wave_height_spread: DimensionalData<String>,
    pub peak_period_avg: DimensionalData<String>,
    pub peak_period_spread: DimensionalData<String>,
    pub wind_speed_avg: DimensionalData<String>,
    pub wind_speed_spread: DimensionalData<String>,
}

/// `d` holds the column `raw` when it is a float, under `name` in `unit`.
pub open spec fn reads_float(
    d: DimensionalData<String>,
    raw: Seq<char>,
    name: Seq<char>,
    unit: Unit,
) -> bool {
    &&& (d.value is Some <==> float_result(raw) is Ok)
    &&& (d.value matches Some(t) ==> t@ == raw)
    &&& d.variable_name@ == name
    &&& d.unit == unit
}

/// Rust's `u32` and `i32` `from_str` on `s`.
pub open spec fn u32_result(s: Seq<char>) -> Result<int, crate::text::IntErrorKind> {
    int_result(s, 0, u32::MAX as int)
}

pub open spec fn i32_result(s: Seq<char>) -> Result<int, crate::text::IntErrorKind> {
    int_result(s, i32::MIN as int, i32::MAX as int)
}

/// The date of a row, or the message of the failure that the row gives:
/// the first column is `YYYYMMDD`, eight bytes long, the second the hour.
pub open spec fn spec_row_date(row: Seq<Seq<char>>) -> Result<UtcDateTime, Seq<char>> {
    if row.len() < 8 {
        Err("Expected 8 columns, got "@ + decimal(row.len()))
    } else {
        let b = encode_utf8(row[0]);
        if b.len() != 8 {
            Err("Expected 8-digit date YYYYMMDD"@)
        } else {
            match (
                i32_result(crate::text::latin1(b.subrange(0, 4))),
                u32_result(crate::text::latin1(b.subrange(4, 6))),
                u32_result(crate::text::latin1(b.subrange(6, 8))),
                u32_result(row[1]),
            ) {
                (Err(_), _, _, _) => Err("Failed to parse year"@),
                (Ok(_), Err(_), _, _) => Err("Failed to parse month"@),
                (Ok(_), Ok(_), Err(_), _) => Err("Failed to parse day"@),
                (Ok(_), Ok(_), Ok(_), Err(_)) => Err("Failed to parse hour"@),
                (Ok(y), Ok(mo), Ok(d), Ok(h)) => if valid_civil(y, mo, d, h, 0, 0) {
                    Ok(
                        UtcDateTime {
                            year: y as i32,
                            month: mo as u32,
                            day: d as u32,
                            hour: h as u32,
                            minute: 0,
                            second: 0,
                        },
                    )
                } else {
                    Err("Invalid date/time"@)
                },
            }
        }
    }
}

/// `rec` is what a row that parses gives.
pub open spec fn record_of_row(rec: GEFSTimeseriesWaveRecord, row: Seq<Seq<char>>) -> bool {
    &&& spec_row_date(row) == Ok::<UtcDateTime, Seq<char>>(rec.date)
    &&& reads_float(
        rec.significant_wave_height_avg,
        row[2],
        "significant wave height avg"@,
        Unit::Meters,
    )
    &&& reads_float(
        rec.significant_wave_height_spread,
        row[3],
        "significant wave height spread"@,
        Unit::Meters,
    )
    &&& reads_float(rec.peak_period_avg, row[4], "peak period avg"@, Unit::Seconds)
    &&& reads_float(rec.peak_period_spread, row[5], "peak period spread"@, Unit::Seconds)
    &&& reads_float(rec.wind_speed_avg, row[6], "wind speed avg"@, Unit::MetersPerSecond)
    &&& reads_float(rec.wind_speed_spread, row[7], "wind speed spread"@, Unit::MetersPerSecond)
}

/// The date column can be cut at its month and day: a row whose date is
/// eight bytes long but not cut there makes string slicing panic.
pub open spec fn date_cuttable(row: Seq<Seq<char>>) -> bool {
    row.len() >= 8 && encode_utf8(row[0]).len() == 8 ==> is_char_boundary(encode_utf8(row[0]), 4)
        && is_char_boundary(encode_utf8(row[0]), 6)
}

fn column_float(raw: &str, name: &str, unit: Unit) -> (d: DimensionalData<String>)
    ensures
        reads_float(d, raw@, name@, unit),
{
    let mut n = String::new();
    push_str(&mut n, name);
    DimensionalData::<String>::from_raw_data(raw, n, unit)
}

fn parse_u32_text(s: &str) -> (r: Option<u32>)
    ensures
        match u32_result(s@) {
            Ok(v) => r matches Some(x) && x == v,
            Err(_) => r is None,
        },
{
    let chars = chars_of(s);
    proof {
        assert(chars@.subrange(0, chars.len() as int) =~= chars@);
    }
    match parse_int(&chars, 0, chars.len(), 0, u32::MAX as i64) {
        Ok(v) => Some(v as u32),
        Err(_) => None,
    }
}

fn parse_u32_chars(chars: &Vec<char>) -> (r: Option<u32>)
    ensures
        match u32_result(chars@) {
            Ok(v) => r matches Some(x) && x == v,
            Err(_) => r is None,
        },
{
    proof {
        assert(chars@.subrange(0, chars.len() as int) =~= chars@);
    }
    match parse_int(chars, 0, chars.len(), 0, u32::MAX as i64) {
        Ok(v) => Some(v as u32),
        Err(_) => None,
    }
}

impl ParseableDataRecord for GEFSTimeseriesWaveRecord {
    type Metadata = ();

    open spec fn row_readable(row: Seq<Seq<char>>) -> bool {
        date_cuttable(row)
    }

    /// Reads a row; see `spec_row_date` for when it fails and with what.
    fn from_data_row(metadata: Option<&()>, row: &Vec<&str>) -> (r: Result<
        GEFSTimeseriesWaveRecord,
        DataRecordParsingError,
    >)
        ensures
            match r {
                Ok(rec) => record_of_row(rec, row_text(row@)),
                Err(e) => spec_row_date(row_text(row@)) matches Err(m)
                    && e matches DataRecordParsingError::ParseFailure(t) && t@ == m,
            },
    {
        let ghost text = row_text(row@);
        if row.len() < 8 {
            let mut t = String::new();
            push_str(&mut t, "Expected 8 columns, got ");
            push_decimal(&mut t, row.len() as u64);
            return Err(DataRecordParsingError::ParseFailure(t));
        }
        proof {
            assert forall|i: int| 0 <= i < row.len() implies #[trigger] text[i] == row@[i]@ by {}
        }
        let date_str = row[0];
        let bytes = date_str.as_bytes();
        if bytes.len() != 8 {
            return Err(parse_failure("Expected 8-digit date YYYYMMDD"));
        }
        let year_chars = bytes_as_chars(bytes, 0, 4);
        let month_chars = bytes_as_chars(bytes, 4, 6);
        let day_chars = bytes_as_chars(bytes, 6, 8);
        proof {
            assert(year_chars@.subrange(0, year_chars.len() as int) =~= year_chars@);
        }
        let year = match parse_int(&year_chars, 0, year_chars.len(), i32::MIN as i64, i32::MAX as i64) {
            Ok(v) => v as i32,
            Err(_) => {
                return Err(parse_failure("Failed to parse year"));
            },
        };
        let month = match parse_u32_chars(&month_chars) {
            Some(v) => v,
            None => {
                return Err(parse_failure("Failed to parse month"));
            },
        };
        let day = match parse_u32_chars(&day_chars) {
            Some(v) => v,
            None => {
                return Err(parse_failure("Failed to parse day"));
            },
        };
        let hour = match parse_u32_text(row[1]) {
            Some(v) => v,
            None => {
                return Err(parse_failure("Failed to parse hour"));
            },
        };
        let date = match utc_datetime(year, month, day, hour, 0, 0) {
            Some(d) => d,
            None => {
                return Err(parse_failure("Invalid date/time"));
            },
        };
        proof {
            let b = encode_utf8(text[0]);
            assert(b == bytes@);
            assert(i32_result(crate::text::latin1(b.subrange(0, 4))) == Ok::<int, crate::text::IntErrorKind>(year as int));
            assert(u32_result(crate::text::latin1(b.subrange(4, 6))) == Ok::<int, crate::text::IntErrorKind>(month as int));
            assert(u32_result(crate::text::latin1(b.subrange(6, 8))) == Ok::<int, crate::text::IntErrorKind>(day as int));
            assert(u32_result(text[1]) == Ok::<int, crate::text::IntErrorKind>(hour as int));
            assert(spec_row_date(text) == Ok::<UtcDateTime, Seq<char>>(date));
        }
        Ok(
            GEFSTimeseriesWaveRecord {
                date,
                significant_wave_height_avg: column_float(
                    row[2],
                    "significant wave height avg",
                    Unit::Meters,
                ),
                significant_wave_height_spread: column_float(
                    row[3],
                    "significant wave height spread",
                    Unit::Meters,
                ),
                peak_period_avg: column_float(row[4], "peak period avg", Unit::Seconds),
                peak_period_spread: column_float(row[5], "peak period spread", Unit::Seconds),
                wind_speed_avg: column_float(row[6], "wind speed avg", Unit::MetersPerSecond),
                wind_speed_spread: column_float(row[7], "wind speed spread", Unit::MetersPerSecond),
            },
        )
    }
}

/// A line whose first word is eight ASCII digits, a `YYYYMMDD` date.
pub open spec fn is_timeseries_row(line: Seq<char>) -> bool {
    first_word(line).len() == 8 && all_digits(first_word(line))
}

/// Returns true for lines that start with an 8-digit date (YYYYMMDD).
fn is_data_row(line: &str) -> (b: bool)
    ensures
        b == is_timeseries_row(line@),
{
    let chars = chars_of(line);
    let (a, e) = first_word_bounds(&chars, 0, chars.len());
    proof {
        assert(chars@.subrange(0, chars.len() as int) =~= chars@);
    }
    if e - a != 8 {
        return false;
    }
    let mut i = a;
    while i < e
        invariant
            a <= i <= e <= chars.len(),
            e - a == 8,
            chars@ == line@,
            chars@.subrange(a as int, e as int) == first_word(chars@),
            forall|j: int| a <= j < i ==> is_digit(#[trigger] chars@[j]),
        decreases e - i,
    {
        if !('0' <= chars[i] && chars[i] <= '9') {
            proof {
                assert(chars@.subrange(a as int, e as int)[i - a] == chars@[i as int]);
            }
            return false;
        }
        i += 1;
    }
    proof {
        let w = chars@.subrange(a as int, e as int);
        assert forall|j: int| 0 <= j < w.len() implies is_digit(#[trigger] w[j]) by {
            assert(w[j] == chars@[a + j]);
        }
    }
    true
}

/// The rows of the data lines among `ls`, in order.
pub open spec fn timeseries_rows(ls: Seq<Seq<char>>) -> Seq<Seq<Seq<char>>>
    decreases ls.len(),
{
    if ls.len() == 0 {
        Seq::empty()
    } else {
        let rest = timeseries_rows(ls.drop_last());
        if is_timeseries_row(ls.last()) {
            rest.push(split_ws(ls.last()))
        } else {
            rest
        }
    }
}

/// `recs` are the records of the rows that parse, in order; rows that do
/// not parse are passed over.
pub open spec fn records_match(recs: Seq<GEFSTimeseriesWaveRecord>, rows: Seq<Seq<Seq<char>>>) -> bool
    decreases rows.len(),
{
    if rows.len() == 0 {
        recs.len() == 0
    } else if spec_row_date(rows.last()) is Ok {
        &&& recs.len() > 0
        &&& record_of_row(recs.last(), rows.last())
        &&& records_match(recs.drop_last(), rows.drop_last())
    } else {
        records_match(recs, rows.drop_last())
    }
}

proof fn lemma_digit_date_cuttable(row: Seq<Seq<char>>)
    requires
        row.len() > 0,
        row[0].len() == 8,
        all_digits(row[0]),
    ensures
        date_cuttable(row),
{
    let w = row[0];
    assert(is_ascii_chars(w));
    is_ascii_chars_encode_utf8(w);
    encode_utf8_valid_utf8(w);
    let b = encode_utf8(w);
    assert(b[4] == w[4] as u8);
    assert(b[6] == w[6] as u8);
    is_char_boundary_iff_not_is_continuation_byte(b, 4);
    is_char_boundary_iff_not_is_continuation_byte(b, 6);
}

pub struct GEFSTimeseriesWaveRecordCollection<'a> {
    data: &'a str,
}

impl<'a> GEFSTimeseriesWaveRecordCollection<'a> {
    /// The text the records are read from.
    pub closed spec fn text(&self) -> Seq<char> {
        self.data@
    }

    pub fn from_data(data: &'a str) -> (c: Self)
        ensures
            c.text() == data@,
    {
        GEFSTimeseriesWaveRecordCollection { data }
    }

    /// The records of the data rows that parse, in order.
    pub fn records(&self) -> (recs: Vec<GEFSTimeseriesWaveRecord>)
        ensures
            records_match(recs@, timeseries_rows(lines(self.text()))),
    {
        let chars = chars_of(self.data);
        let spans = line_spans(&chars);
        let ghost ls = lines(chars@);
        let mut recs: Vec<GEFSTimeseriesWaveRecord> = Vec::new();
        let mut i: usize = 0;
        while i < spans.len()
            invariant
                i <= spans.len() == ls.len(),
                ls == lines(chars@),
                forall|k: int|
                    0 <= k < spans.len() ==> (#[trigger] spans@[k]).0 <= spans@[k].1 <= chars.len()
                        && chars@.subrange(spans@[k].0 as int, spans@[k].1 as int) == ls[k],
                records_match(recs@, timeseries_rows(ls.take(i as int))),
            decreases spans.len() - i,
        {
            let (a, b) = spans[i];
            let line = substring(&chars, a, b);
            let ghost l = ls[i as int];
            let ghost rows_before = timeseries_rows(ls.take(i as int));
            proof {
                assert(ls.take(i + 1).drop_last() =~= ls.take(i as int));
                assert(ls.take(i + 1).last() == l);
                if is_timeseries_row(l) {
                    assert(timeseries_rows(ls.take(i + 1)) == rows_before.push(split_ws(l)));
                    assert(rows_before.push(split_ws(l)).drop_last() =~= rows_before);
                } else {
                    assert(timeseries_rows(ls.take(i + 1)) == rows_before);
                }
            }
            if is_data_row(line.as_str()) {
                let words = words_of(&chars, a, b);
                let cols = str_refs(&words);
                proof {
                    assert(row_text(cols@) == split_ws(l));
                    lemma_first_word_split(l);
                    lemma_digit_date_cuttable(row_text(cols@));
                }
                match GEFSTimeseriesWaveRecord::from_data_row(None, &cols) {
                    Ok(rec) => {
                        let ghost before = recs@;
                        recs.push(rec);
                        proof {
                            assert(recs@.drop_last() =~= before);
                        }
                    },
                    Err(_) => {},
                }
            }
            i += 1;
        }
        proof {
            assert(ls.take(i as int) =~= ls);
        }
        recs
    }
}

} // verus!
