//! Records parsed from rows of text data, and why a parse fails.

use vstd::prelude::*;

use crate::text::{push_str, string_views, FloatErrorKind, IntErrorKind};

verus! {

/// Why a record could not be parsed.
#[derive(Clone, Debug)]
pub enum DataRecordParsingError {
    EOF,
    NotImplemented,
    InvalidData,
    ParseFailure(String),
    KeyMissing(String),
}

impl DataRecordParsingError {
    /// The text that the error displays.
    pub open spec fn spec_message(self) -> Seq<char> {
        match self {
            DataRecordParsingError::EOF => "EOF while parsing data"@,
            DataRecordParsingError::NotImplemented => "Encountered not implemented behavior"@,
            DataRecordParsingError::InvalidData => "Invalid data encountered while parsing data"@,
            DataRecordParsingError::ParseFailure(e) => "Data parse failure: "@ + e@,
            DataRecordParsingError::KeyMissing(key) => "Key missing from data: "@ + key@,
        }
    }

    pub fn message(&self) -> (m: String)
        ensures
            m@ == self.spec_message(),
    {
        let mut m = String::new();
        match self {
            DataRecordParsingError::EOF => push_str(&mut m, "EOF while parsing data"),
            DataRecordParsingError::NotImplemented => push_str(
                &mut m,
                "Encountered not implemented behavior",
            ),
            DataRecordParsingError::InvalidData => push_str(
                &mut m,
                "Invalid data encountered while parsing data",
            ),
            DataRecordParsingError::ParseFailure(e) => {
                push_str(&mut m, "Data parse failure: ");
                push_str(&mut m, e.as_str());
            },
            DataRecordParsingError::KeyMissing(key) => {
                push_str(&mut m, "Key missing from data: ");
                push_str(&mut m, key.as_str());
            },
        }
        m
    }

    /// The failure that an integer parse error converts to.
    pub fn from_int_error(kind: IntErrorKind) -> (e: Self)
        ensures
            e matches DataRecordParsingError::ParseFailure(m) && m@ == "Int: "@
                + kind.spec_message(),
    {
        let mut m = String::new();
        push_str(&mut m, "Int: ");
        push_str(&mut m, kind.message());
        DataRecordParsingError::ParseFailure(m)
    }

    /// The failure that a float parse error converts to.
    pub fn from_float_error(kind: FloatErrorKind) -> (e: Self)
        ensures
            e matches DataRecordParsingError::ParseFailure(m) && m@ == "Float: "@
                + kind.spec_message(),
    {
        let mut m = String::new();
        push_str(&mut m, "Float: ");
        push_str(&mut m, kind.message());
        DataRecordParsingError::ParseFailure(m)
    }
}

/// A parse failure with the message `m`.
pub fn parse_failure(m: &str) -> (e: DataRecordParsingError)
    ensures
        e matches DataRecordParsingError::ParseFailure(t) && t@ == m@,
{
    let mut t = String::new();
    push_str(&mut t, m);
    DataRecordParsingError::ParseFailure(t)
}

/// A parse failure with the message `m` followed by `detail`.
pub fn parse_failure_with(m: &str, detail: &str) -> (e: DataRecordParsingError)
    ensures
        e matches DataRecordParsingError::ParseFailure(t) && t@ == m@ + detail@,
{
    let mut t = String::new();
    push_str(&mut t, m);
    push_str(&mut t, detail);
    DataRecordParsingError::ParseFailure(t)
}

/// The columns of a row, as text.
pub open spec fn row_text(row: Seq<&str>) -> Seq<Seq<char>> {
    row.map_values(|s: &str| s@)
}

/// Borrows each string of `words` as a column.
pub fn str_refs<'a>(words: &'a Vec<String>) -> (row: Vec<&'a str>)
    ensures
        row_text(row@) == string_views(words@),
{
    let mut row: Vec<&'a str> = Vec::new();
    let mut i: usize = 0;
    while i < words.len()
        invariant
            i <= words.len(),
            row_text(row@) == string_views(words@).take(i as int),
        decreases words.len() - i,
    {
        let ghost before = row@;
        row.push(words[i].as_str());
        i += 1;
        proof {
            assert(row_text(row@) =~= row_text(before).push(words@[i - 1]@));
            assert(string_views(words@).take(i as int) =~= string_views(words@).take(i - 1).push(
                words@[i - 1]@,
            ));
        }
    }
    proof {
        assert(string_views(words@).take(i as int) =~= string_views(words@));
    }
    row
}

/// A record read from the columns of one row of text data.
pub trait ParseableDataRecord: Sized {
    type Metadata;

    /// The rows that `from_data_row` reads without panicking.
    spec fn row_readable(row: Seq<Seq<char>>) -> bool;

    /// Reads a record from `row`; a type that reads no rows says so.
    fn from_data_row(metadata: Option<&Self::Metadata>, row: &Vec<&str>) -> (r: Result<
        Self,
        DataRecordParsingError,
    >)
        requires
            Self::row_readable(row_text(row@)),
        default_ensures
            r matches Err(DataRecordParsingError::NotImplemented),
    {
        Err(DataRecordParsingError::NotImplemented)
    }
}

} // verus!
