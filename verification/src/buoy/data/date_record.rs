//! Dates given as separate year, month, day, hour and minute columns.

use vstd::prelude::*;

use crate::buoy::data::parseable_data_record::{DataRecordParsingError, ParseableDataRecord};
use crate::text::{chars_of, parse_signed, signed_parse};

verus! {

#[derive(Clone, Debug, Copy, PartialEq, Eq)]
pub struct DateRecord {
    pub year: i32,
    pub month: i32,
    pub day: i32,
    pub hour: i32,
    pub minute: i32,
}

/// The `i32` value of a column.
pub open spec fn column_i32(s: Seq<char>) -> Option<int> {
    signed_parse(s, i32::MIN as int, i32::MAX as int)
}

fn parse_i32(s: &str) -> (r: Option<i32>)
    ensures
        r == match column_i32(s@) {
            Some(v) => Some(v as i32),
            None => None::<i32>,
        },
{
    let chars = chars_of(s);
    proof {
        assert(chars@.subrange(0, chars.len() as int) =~= chars@);
    }
    match parse_signed(&chars, 0, chars.len(), i32::MIN as i64, i32::MAX as i64) {
        Some(v) => Some(v as i32),
        None => None,
    }
}

impl ParseableDataRecord for DateRecord {
    type Metadata = ();

    /// The first five columns are year, month, day, hour and minute; each
    /// must be an integer.
    open spec fn row_accepted(row: Seq<Seq<char>>) -> bool {
        &&& row.len() >= 5
        &&& forall|i: int| 0 <= i < 5 ==> (#[trigger] column_i32(row[i])) is Some
    }

    fn from_data_row(metadata: Option<&()>, row: &Vec<&str>) -> (r: Result<
        DateRecord,
        DataRecordParsingError,
    >)
        ensures
            r matches Ok(d) && d.year == column_i32(row@[0]@)->0 && d.month == column_i32(
                row@[1]@,
            )->0 && d.day == column_i32(row@[2]@)->0 && d.hour == column_i32(row@[3]@)->0
                && d.minute == column_i32(row@[4]@)->0,
    {
        proof {
            assert forall|i: int| 0 <= i < 5 implies (#[trigger] column_i32(row@[i]@)) is Some by {
                assert(row@.map_values(|s: &str| s@)[i] == row@[i]@);
            }
        }
        let year = parse_i32(row[0]).unwrap();
        let month = parse_i32(row[1]).unwrap();
        let day = parse_i32(row[2]).unwrap();
        let hour = parse_i32(row[3]).unwrap();
        let minute = parse_i32(row[4]).unwrap();
        Ok(DateRecord { year, month, day, hour, minute })
    }
}

} // verus!
