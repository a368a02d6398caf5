//! Rows of delimited text, split into fields by the `csv` crate.

use vstd::prelude::*;

use crate::data::parseable_data_record::row_text;
use crate::text::string_views;

verus! {

/// What the csv crate reads from `data` as delimited text with
/// `delimiter` between fields, where lines that start with `comment` are
/// left out, there is no header row, rows may have any number of fields
/// and the whitespace around each field is trimmed: for each record, its
/// fields, or the text of the error reading it gave.
pub uninterp spec fn delimited_records(data: Seq<char>, delimiter: u8, comment: u8) -> Seq<
    Result<Seq<Seq<char>>, Seq<char>>,
>;

/// The text of each record's fields, or of its error.
pub open spec fn record_views(v: Seq<Result<Vec<String>, String>>) -> Seq<
    Result<Seq<Seq<char>>, Seq<char>>,
> {
    v.map_values(
        |r: Result<Vec<String>, String>|
            match r {
                Ok(f) => Ok(string_views(f@)),
                Err(e) => Err(e@),
            },
    )
}

/// Reads `data` with a `csv::Reader` built by `csv::ReaderBuilder` with
/// the given delimiter and comment byte, `Trim::All`, no headers and
/// flexible rows, and collects `Reader::records`, each record's fields
/// (`StringRecord::iter`) or its error (`csv::Error`'s `Display`) as owned
/// strings. Stated: the outcome is `delimited_records` of the arguments;
/// how the crate splits text into records and fields is left to that name.
#[verifier::external_body]
pub(crate) fn read_delimited(data: &str, delimiter: u8, comment: u8) -> (r: Vec<
    Result<Vec<String>, String>,
>)
    ensures
        record_views(r@) == delimited_records(data@, delimiter, comment),
{
    let mut reader = csv::ReaderBuilder::new().delimiter(delimiter).trim(csv::Trim::All).comment(
        Some(comment),
    ).has_headers(false).flexible(true).from_reader(data.as_bytes());
    let mut out = Vec::new();
    for r in reader.records() {
        match r {
            Ok(rec) => out.push(Ok(rec.iter().map(|f| f.to_string()).collect())),
            Err(e) => out.push(Err(e.to_string())),
        }
    }
    out
}

/// The fields of `fields` that are not empty, in order.
pub open spec fn nonempty_fields(fields: Seq<Seq<char>>) -> Seq<Seq<char>>
    decreases fields.len(),
{
    if fields.len() == 0 {
        fields
    } else if fields.last().len() == 0 {
        nonempty_fields(fields.drop_last())
    } else {
        nonempty_fields(fields.drop_last()).push(fields.last())
    }
}

/// Borrows the fields of a record that are not empty, as a row.
pub fn nonempty_row<'a>(fields: &'a Vec<String>) -> (row: Vec<&'a str>)
    ensures
        row_text(row@) == nonempty_fields(string_views(fields@)),
{
    let ghost fv = string_views(fields@);
    let mut row: Vec<&'a str> = Vec::new();
    let mut i: usize = 0;
    while i < fields.len()
        invariant
            i <= fields.len(),
            fv == string_views(fields@),
            row_text(row@) == nonempty_fields(fv.take(i as int)),
        decreases fields.len() - i,
    {
        proof {
            assert(fv.take(i + 1).drop_last() =~= fv.take(i as int));
            assert(fv.take(i + 1).last() == fields@[i as int]@);
        }
        if !fields[i].as_str().is_empty() {
            let ghost before = row@;
            row.push(fields[i].as_str());
            proof {
                assert(row_text(row@) =~= row_text(before).push(fields@[i as int]@));
            }
        } else {
            proof {
                assert(fields@[i as int]@.len() == 0);
            }
        }
        i += 1;
    }
    proof {
        assert(fv.take(i as int) =~= fv);
    }
    row
}

/// The rows of the records read, their empty fields left out, in order;
/// none where one of them is not `readable`, on which reading it panics.
/// Records that could not be read are passed over.
pub open spec fn readable_rows(
    rs: Seq<Result<Seq<Seq<char>>, Seq<char>>>,
    readable: spec_fn(Seq<Seq<char>>) -> bool,
) -> Option<Seq<Seq<Seq<char>>>>
    decreases rs.len(),
{
    if rs.len() == 0 {
        Some(Seq::empty())
    } else {
        match readable_rows(rs.drop_last(), readable) {
            None => None,
            Some(prev) => match rs.last() {
                Err(_) => Some(prev),
                Ok(fields) => {
                    let row = nonempty_fields(fields);
                    if readable(row) {
                        Some(prev.push(row))
                    } else {
                        None
                    }
                },
            },
        }
    }
}

/// Once a prefix of the records panics, all of them do.
pub proof fn lemma_readable_rows_prefix_none(
    rs: Seq<Result<Seq<Seq<char>>, Seq<char>>>,
    readable: spec_fn(Seq<Seq<char>>) -> bool,
    n: int,
)
    requires
        0 <= n <= rs.len(),
        readable_rows(rs.take(n), readable) is None,
    ensures
        readable_rows(rs, readable) is None,
    decreases rs.len() - n,
{
    if n < rs.len() {
        assert(rs.take(n + 1).drop_last() =~= rs.take(n));
        lemma_readable_rows_prefix_none(rs, readable, n + 1);
    } else {
        assert(rs.take(n) =~= rs);
    }
}

} // verus!
