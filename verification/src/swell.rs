//! Swell components.

use vstd::prelude::*;

use crate::text::push_str;

verus! {

/// Why swell could not be derived from a data source.
#[derive(Debug, Clone)]
pub enum SwellProviderError {
    NotImplemented,
    InsufficientData(String),
    SwellPartitionError(String),
}

impl SwellProviderError {
    pub open spec fn spec_message(self) -> Seq<char> {
        match self {
            SwellProviderError::NotImplemented => "not implemented"@,
            SwellProviderError::InsufficientData(s) => "insufficient data to create swell:  "@ + s@,
            SwellProviderError::SwellPartitionError(s) => "error partitioning swell: "@ + s@,
        }
    }

    /// The description shown to users.
    pub fn message(&self) -> (m: String)
        ensures
            m@ == self.spec_message(),
    {
        let mut m = String::new();
        match self {
            SwellProviderError::NotImplemented => push_str(&mut m, "not implemented"),
            SwellProviderError::InsufficientData(s) => {
                push_str(&mut m, "insufficient data to create swell:  ");
                push_str(&mut m, s.as_str());
            },
            SwellProviderError::SwellPartitionError(s) => {
                push_str(&mut m, "error partitioning swell: ");
                push_str(&mut m, s.as_str());
            },
        }
        m
    }
}

} // verus!
