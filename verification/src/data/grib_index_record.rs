//! GRIB `.idx` index rows: `index:offset:d=YYYYMMDDHH:var:level:valid:`.

use vstd::prelude::*;

use crate::data::delimited::{delimited_records, nonempty_fields, nonempty_row, read_delimited};
use crate::data::parseable_data_record::{row_text, DataRecordParsingError, ParseableDataRecord};
use crate::text::{chars_of, int_result, parse_uint, push_str, string_views};
use crate::time::{naive_time_parse, parse_naive_time, UtcDateTime};

verus! {

#[derive(Debug)]
pub struct GribIndexRecord {
    pub index: usize,
    pub offset: usize,
    pub reference_date: UtcDateTime,
    pub var: String,
    pub level: String,
    pub valid: String,
}

/// Rust's `usize` `from_str` on `s`, its failure as the message it
/// converts to.
pub open spec fn usize_column(s: Seq<char>) -> Result<int, Seq<char>> {
    match int_result(s, 0, usize::MAX as int) {
        Err(k) => Err("Int: "@ + k.spec_message()),
        Ok(v) => Ok(v),
    }
}

/// What a row gives: index, offset and reference time, or the message of
/// the first failure. The date column gets `00` minutes appended before
/// it is read with the format `d=%Y%m%d%H%M`.
pub open spec fn spec_index_row(row: Seq<Seq<char>>) -> Result<(int, int, UtcDateTime), Seq<char>> {
    match usize_column(row[0]) {
        Err(m) => Err(m),
        Ok(index) => match usize_column(row[1]) {
            Err(m) => Err(m),
            Ok(offset) => match naive_time_parse(row[2] + "00"@, "d=%Y%m%d%H%M"@) {
                Err(m) => Err("Date: "@ + m),
                Ok(t) => Ok((index, offset, t)),
            },
        },
    }
}

fn usize_of(s: &str) -> (r: Result<usize, DataRecordParsingError>)
    ensures
        match (r, usize_column(s@)) {
            (Ok(v), Ok(w)) => v == w,
            (Err(e), Err(m)) => e matches DataRecordParsingError::ParseFailure(t) && t@ == m,
            _ => false,
        },
{
    let chars = chars_of(s);
    proof {
        assert(chars@.subrange(0, chars.len() as int) =~= chars@);
    }
    match parse_uint(&chars, 0, chars.len(), usize::MAX as u64) {
        Ok(v) => Ok(v as usize),
        Err(k) => Err(DataRecordParsingError::from_int_error(k)),
    }
}

fn copy_str(s: &str) -> (t: String)
    ensures
        t@ == s@,
{
    let mut t = String::new();
    push_str(&mut t, s);
    t
}

impl ParseableDataRecord for GribIndexRecord {
    type Metadata = ();

    /// The row has the six columns that are read.
    open spec fn row_readable(row: Seq<Seq<char>>) -> bool {
        row.len() >= 6
    }

    fn from_data_row(metadata: Option<&()>, row: &Vec<&str>) -> (r: Result<
        GribIndexRecord,
        DataRecordParsingError,
    >)
        ensures
            match (r, spec_index_row(row_text(row@))) {
                (Ok(rec), Ok((index, offset, t))) => {
                    &&& rec.index == index
                    &&& rec.offset == offset
                    &&& rec.reference_date == t
                    &&& rec.var@ == row@[3]@
                    &&& rec.level@ == row@[4]@
                    &&& rec.valid@ == row@[5]@
                },
                (Err(e), Err(m)) => e matches DataRecordParsingError::ParseFailure(t) && t@ == m,
                _ => false,
            },
    {
        let ghost text = row_text(row@);
        proof {
            assert forall|i: int| 0 <= i < row.len() implies #[trigger] text[i] == row@[i]@ by {}
        }
        let index = match usize_of(row[0]) {
            Ok(v) => v,
            Err(e) => {
                return Err(e);
            },
        };
        let offset = match usize_of(row[1]) {
            Ok(v) => v,
            Err(e) => {
                return Err(e);
            },
        };
        // The minutes are appended so that the format can read a full time.
        let mut raw_date = copy_str(row[2]);
        push_str(&mut raw_date, "00");
        let var = copy_str(row[3]);
        let level = copy_str(row[4]);
        let valid = copy_str(row[5]);
        let reference_date = match parse_naive_time(raw_date.as_str(), "d=%Y%m%d%H%M") {
            Ok(t) => t,
            Err(m) => {
                let mut t = String::new();
                push_str(&mut t, "Date: ");
                push_str(&mut t, m.as_str());
                return Err(DataRecordParsingError::ParseFailure(t));
            },
        };
        Ok(GribIndexRecord { index, offset, reference_date, var, level, valid })
    }
}

/// `rec` is what the row `row` gives.
pub open spec fn index_record_is(rec: GribIndexRecord, row: Seq<Seq<char>>) -> bool {
    &&& spec_index_row(row) matches Ok((index, offset, t))
    &&& rec.index == index
    &&& rec.offset == offset
    &&& rec.reference_date == t
    &&& rec.var@ == row[3]
    &&& rec.level@ == row[4]
    &&& rec.valid@ == row[5]
}

/// The rows of the records read, their empty fields left out, that give
/// an index record, in order; none where a row has fewer than six fields,
/// on which reading it panics. Records that could not be read are passed
/// over.
pub open spec fn index_rows(rs: Seq<Result<Seq<Seq<char>>, Seq<char>>>) -> Option<Seq<Seq<Seq<char>>>>
    decreases rs.len(),
{
    if rs.len() == 0 {
        Some(Seq::empty())
    } else {
        match index_rows(rs.drop_last()) {
            None => None,
            Some(prev) => match rs.last() {
                Err(_) => Some(prev),
                Ok(fields) => {
                    let row = nonempty_fields(fields);
                    if row.len() < 6 {
                        None
                    } else if spec_index_row(row) is Ok {
                        Some(prev.push(row))
                    } else {
                        Some(prev)
                    }
                },
            },
        }
    }
}

/// Once a prefix of the records panics, all of them do.
proof fn lemma_index_rows_prefix_none(rs: Seq<Result<Seq<Seq<char>>, Seq<char>>>, n: int)
    requires
        0 <= n <= rs.len(),
        index_rows(rs.take(n)) is None,
    ensures
        index_rows(rs) is None,
    decreases rs.len() - n,
{
    if n < rs.len() {
        assert(rs.take(n + 1).drop_last() =~= rs.take(n));
        lemma_index_rows_prefix_none(rs, n + 1);
    } else {
        assert(rs.take(n) =~= rs);
    }
}

/// The records of an index file as its rows are: `:` between fields and
/// lines that start with `#` left out.
pub open spec fn index_file_records(data: Seq<char>) -> Seq<Result<Seq<Seq<char>>, Seq<char>>> {
    delimited_records(data, 58u8, 35u8)
}

/// `recs` are what `rows` give, one for one.
pub open spec fn index_records_are(recs: Seq<GribIndexRecord>, rows: Seq<Seq<Seq<char>>>) -> bool {
    &&& recs.len() == rows.len()
    &&& forall|i: int| 0 <= i < recs.len() ==> index_record_is(#[trigger] recs[i], rows[i])
}

/// The rows of a GRIB index file.
pub struct GribIndexRecordCollection<'a> {
    data: &'a str,
}

impl<'a> GribIndexRecordCollection<'a> {
    /// The text the records are read from.
    pub closed spec fn text(&self) -> Seq<char> {
        self.data@
    }

    pub fn from_data(data: &'a str) -> (c: Self)
        ensures
            c.text() == data@,
    {
        GribIndexRecordCollection { data }
    }

    /// The index records of the file, those whose rows parse.
    pub fn records(&self) -> (r: Vec<GribIndexRecord>)
        requires
            index_rows(index_file_records(self.text())) is Some,
        ensures
            index_rows(index_file_records(self.text())) matches Some(rows) && index_records_are(
                r@,
                rows,
            ),
    {
        match self.try_records() {
            Some(r) => r,
            None => Vec::new(),
        }
    }

    /// As `records`, but `None` where a row has fewer than six fields.
    pub fn try_records(&self) -> (r: Option<Vec<GribIndexRecord>>)
        ensures
            match (r, index_rows(index_file_records(self.text()))) {
                (None, None) => true,
                (Some(v), Some(rows)) => index_records_are(v@, rows),
                _ => false,
            },
    {
        // ':' between fields, '#' before comments
        let records = read_delimited(self.data, 58u8, 35u8);
        let ghost rs = index_file_records(self.text());
        let mut out: Vec<GribIndexRecord> = Vec::new();
        let mut i: usize = 0;
        proof {
            assert(rs.take(0) =~= Seq::<Result<Seq<Seq<char>>, Seq<char>>>::empty());
        }
        while i < records.len()
            invariant
                i <= records.len(),
                rs == crate::data::delimited::record_views(records@),
                rs == index_file_records(self.text()),
                rs.len() == records.len(),
                index_rows(rs.take(i as int)) matches Some(rows) && index_records_are(out@, rows),
            decreases records.len() - i,
        {
            proof {
                assert(rs.take(i + 1).drop_last() =~= rs.take(i as int));
                assert(rs.take(i + 1).last() == rs[i as int]);
            }
            match &records[i] {
                Err(_) => {},
                Ok(fields) => {
                    let row = nonempty_row(fields);
                    proof {
                        assert(rs[i as int] == Ok::<Seq<Seq<char>>, Seq<char>>(string_views(fields@)));
                    }
                    if row.len() < 6 {
                        proof {
                            assert(row_text(row@).len() == row.len());
                            assert(index_rows(rs.take(i + 1)) is None);
                            lemma_index_rows_prefix_none(rs, i + 1);
                        }
                        return None;
                    }
                    let ghost rows = index_rows(rs.take(i as int))->0;
                    match GribIndexRecord::from_data_row(None, &row) {
                        Ok(rec) => {
                            proof {
                                let t = row_text(row@);
                                assert(index_record_is(rec, t));
                                assert forall|k: int| 0 <= k < out.len() + 1 implies index_record_is(
                                    #[trigger] out@.push(rec)[k],
                                    rows.push(t)[k],
                                ) by {
                                    if k < out.len() {
                                        assert(out@.push(rec)[k] == out@[k]);
                                        assert(rows.push(t)[k] == rows[k]);
                                    }
                                }
                            }
                            out.push(rec);
                        },
                        Err(_) => {},
                    }
                },
            }
            i += 1;
        }
        proof {
            assert(rs.take(i as int) =~= rs);
        }
        Some(out)
    }
}

} // verus!
