//! Regular expression search, done by the `regex` crate.

use vstd::prelude::*;

use regex::Regex;

verus! {

/// The text of each optional string.
pub open spec fn opt_views(v: Seq<Option<String>>) -> Seq<Option<Seq<char>>> {
    v.map_values(
        |o: Option<String>|
            match o {
                Some(s) => Some(s@),
                None => None,
            },
    )
}

/// What compiling `pattern` with the regex crate and searching `haystack`
/// with it gives: the error text when the pattern does not compile; else
/// no match, or the text of each capture group of the first match, in
/// group order, where group 0 is the whole match and a group that took no
/// part is none.
pub uninterp spec fn regex_search(pattern: Seq<char>, haystack: Seq<char>) -> Result<
    Option<Seq<Option<Seq<char>>>>,
    Seq<char>,
>;

/// `Regex::new(pattern)`, then `Regex::captures(haystack)` on the result,
/// with each group converted to an owned string. Stated: the outcome is
/// `regex_search` of the two texts; whether it is an error does not depend
/// on the haystack (the pattern is compiled before the haystack is used);
/// and group 0 of a match is present (as the crate documents for
/// `Captures::get(0)`). Which groups match, and how, is the crate's
/// matching and is left to that name.
#[verifier::external_body]
pub(crate) fn regex_captures(pattern: &str, haystack: &str) -> (r: Result<
    Option<Vec<Option<String>>>,
    String,
>)
    ensures
        match (r, regex_search(pattern@, haystack@)) {
            (Ok(None), Ok(None)) => true,
            (Ok(Some(groups)), Ok(Some(g))) => opt_views(groups@) == g && g.len() > 0 && g[0] is Some,
            (Err(e), Err(m)) => e@ == m,
            _ => false,
        },
        r is Err <==> regex_search(pattern@, Seq::<char>::empty()) is Err,
{
    match Regex::new(pattern) {
        Err(e) => Err(e.to_string()),
        Ok(re) => match re.captures(haystack) {
            None => Ok(None),
            Some(caps) => {
                let mut groups = Vec::new();
                for m in caps.iter() {
                    groups.push(m.map(|m| m.as_str().to_string()));
                }
                Ok(Some(groups))
            },
        },
    }
}

} // verus!
