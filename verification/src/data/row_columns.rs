//! Columns of the NDBC observation files: a date written as five integer
//! columns, measurements written as floats (`MM` where missing), and
//! directions.
//!
//! A direction column is kept as written: reading it as a direction
//! (degrees or a compass point) is the job of the `Direction` type of the
//! units module, which is not part of this crate.

use vstd::prelude::*;

use crate::data::gefs_timeseries_wave_data_record::{i32_result, u32_result};
use crate::data::parseable_data_record::row_text;
use crate::dimensional_data::DimensionalData;
use crate::text::{chars_of, float_result, parse_int, push_str};
use crate::time::{utc_datetime, valid_civil, UtcDateTime};
use crate::units::Unit;

verus! {

/// `d` is the column `raw` read as a float (none when it is not one),
/// named `name`, in `unit`.
pub open spec fn measured_from(d: DimensionalData<String>, raw: Seq<char>, name: Seq<char>, unit: Unit) -> bool {
    &&& (d.value is Some <==> float_result(raw) is Ok)
    &&& (d.value matches Some(t) ==> t@ == raw)
    &&& d.variable_name@ == name
    &&& d.unit == unit
}

/// `d` holds the column `raw` as written, named `name`, in `unit`.
pub open spec fn written_as(d: DimensionalData<String>, raw: Seq<char>, name: Seq<char>, unit: Unit) -> bool {
    &&& d.value matches Some(t) && t@ == raw
    &&& d.variable_name@ == name
    &&& d.unit == unit
}

fn text_of(s: &str) -> (t: String)
    ensures
        t@ == s@,
{
    let mut t = String::new();
    push_str(&mut t, s);
    t
}

/// The column `raw` read as a float.
pub fn measure(raw: &str, name: &str, unit: Unit) -> (d: DimensionalData<String>)
    ensures
        measured_from(d, raw@, name@, unit),
{
    DimensionalData::<String>::from_raw_data(raw, text_of(name), unit)
}

/// The column `raw` as written.
pub fn as_written(raw: &str, name: &str, unit: Unit) -> (d: DimensionalData<String>)
    ensures
        written_as(d, raw@, name@, unit),
{
    DimensionalData { value: Some(text_of(raw)), variable_name: text_of(name), unit }
}

/// The date in columns `at..at + 5`: year (`i32`), month, day, hour and
/// minute (`u32`) at second zero; none where a column is no such integer or
/// the date is not in the calendar, on which reading it panics.
pub open spec fn spec_columns_date(row: Seq<Seq<char>>, at: int) -> Option<UtcDateTime> {
    match (
        i32_result(row[at]),
        u32_result(row[at + 1]),
        u32_result(row[at + 2]),
        u32_result(row[at + 3]),
        u32_result(row[at + 4]),
    ) {
        (Ok(y), Ok(mo), Ok(d), Ok(h), Ok(mi)) => if valid_civil(y, mo, d, h, mi, 0) {
            Some(
                UtcDateTime {
                    year: y as i32,
                    month: mo as u32,
                    day: d as u32,
                    hour: h as u32,
                    minute: mi as u32,
                    second: 0,
                },
            )
        } else {
            None
        },
        _ => None,
    }
}

fn column_int(s: &str, min: i64, max: i64) -> (r: Option<i64>)
    requires
        min <= 0 <= max,
    ensures
        match r {
            Some(v) => crate::text::int_result(s@, min as int, max as int) == Ok::<
                int,
                crate::text::IntErrorKind,
            >(v as int),
            None => crate::text::int_result(s@, min as int, max as int) is Err,
        },
        r matches Some(v) ==> min <= v <= max,
{
    let chars = chars_of(s);
    proof {
        assert(chars@.subrange(0, chars.len() as int) =~= chars@);
    }
    match parse_int(&chars, 0, chars.len(), min, max) {
        Ok(v) => Some(v),
        Err(_) => None,
    }
}

/// Reads the date in columns `at..at + 5`; see `spec_columns_date`.
pub fn columns_date(row: &Vec<&str>, at: usize) -> (r: Option<UtcDateTime>)
    requires
        at + 5 <= row.len(),
    ensures
        r == spec_columns_date(row_text(row@), at as int),
{
    let ghost text = row_text(row@);
    proof {
        assert forall|i: int| 0 <= i < row.len() implies #[trigger] text[i] == row@[i]@ by {}
        assert(text[at as int] == row@[at as int]@);
        assert(text[at + 1] == row@[at + 1]@);
        assert(text[at + 2] == row@[at + 2]@);
        assert(text[at + 3] == row@[at + 3]@);
        assert(text[at + 4] == row@[at + 4]@);
    }
    let y = column_int(row[at], i32::MIN as i64, i32::MAX as i64);
    let mo = column_int(row[at + 1], 0, u32::MAX as i64);
    let d = column_int(row[at + 2], 0, u32::MAX as i64);
    let h = column_int(row[at + 3], 0, u32::MAX as i64);
    let mi = column_int(row[at + 4], 0, u32::MAX as i64);
    match (y, mo, d, h, mi) {
        (Some(y), Some(mo), Some(d), Some(h), Some(mi)) => {
            proof {
                assert(i32_result(text[at as int]) == Ok::<int, crate::text::IntErrorKind>(y as int));
                assert(u32_result(text[at + 1]) == Ok::<int, crate::text::IntErrorKind>(mo as int));
                assert(u32_result(text[at + 2]) == Ok::<int, crate::text::IntErrorKind>(d as int));
                assert(u32_result(text[at + 3]) == Ok::<int, crate::text::IntErrorKind>(h as int));
                assert(u32_result(text[at + 4]) == Ok::<int, crate::text::IntErrorKind>(mi as int));
            }
            utc_datetime(y as i32, mo as u32, d as u32, h as u32, mi as u32, 0)
        },
        _ => None,
    }
}

} // verus!
