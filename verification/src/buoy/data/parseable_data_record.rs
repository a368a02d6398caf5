//! Records parsed from rows of text data.

use vstd::prelude::*;

verus! {

/// Why a record could not be parsed.
#[derive(Clone, Debug)]
pub enum DataRecordParsingError {
    NotImplemented,
    InvalidData,
    ParseFailure(String),
}

/// A record read from a row of whitespace separated columns.
pub trait ParseableDataRecord: Sized {
    type Metadata;

    /// The rows that `from_data_row` reads without failing.
    spec fn row_accepted(row: Seq<Seq<char>>) -> bool;

    fn from_data_row(metadata: Option<&Self::Metadata>, row: &Vec<&str>) -> (r: Result<
        Self,
        DataRecordParsingError,
    >)
        requires
            Self::row_accepted(row@.map_values(|s: &str| s@)),
    ;
}

} // verus!
