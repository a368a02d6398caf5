//! Tide predictions of the NOAA CO-OPS data API: the time of each
//! prediction, its height, and whether it is a high or a low tide.

use vstd::prelude::*;

use crate::text::{chars_of, check_float, float_result, FloatErrorKind};
use crate::time::{naive_time_parse, parse_naive_time, UtcDateTime};

verus! {

/// A high or a low tide, listed as `H` or `L`.
#[derive(Clone, Copy, Debug, PartialEq, Eq)]
pub enum TidalEvent {
    High,
    Low,
}

/// One prediction. The height is held as the float text it was given as.
#[derive(Clone, Debug)]
pub struct TidalDataRecord {
    pub date: UtcDateTime,
    pub value: String,
    pub event: Option<TidalEvent>,
}

/// The predictions of one request.
#[derive(Clone, Debug)]
pub struct TidalDataRecordCollection {
    pub records: Vec<TidalDataRecord>,
}

/// Why the fields of a prediction do not make a record.
#[derive(Clone, Debug)]
pub enum TidalFieldError {
    /// The time, with the text of chrono's error.
    Date(String),
    /// The height, which is no float.
    Value(FloatErrorKind),
    /// The kind of tide, which is neither `H` nor `L`.
    Event,
}

/// The format of a prediction's time.
pub open spec fn tidal_date_format() -> Seq<char> {
    "%Y-%m-%d %H:%M"@
}

/// The kind of tide that `s` names.
pub open spec fn spec_tidal_event(s: Seq<char>) -> Option<TidalEvent> {
    if s == seq!['H'] {
        Some(TidalEvent::High)
    } else if s == seq!['L'] {
        Some(TidalEvent::Low)
    } else {
        None
    }
}

/// `r` is what the fields `t` (the time), `v` (the height as text) and
/// `kind` (`H`, `L`, or none) give.
pub open spec fn tidal_fields_give(
    r: Result<TidalDataRecord, TidalFieldError>,
    t: Seq<char>,
    v: Seq<char>,
    kind: Option<Seq<char>>,
) -> bool {
    match naive_time_parse(t, tidal_date_format()) {
        Err(m) => r matches Err(TidalFieldError::Date(e)) && e@ == m,
        Ok(date) => match float_result(v) {
            Err(k) => r == Err::<TidalDataRecord, TidalFieldError>(TidalFieldError::Value(k)),
            Ok(_) => match kind {
                Some(k) if spec_tidal_event(k) is None => r matches Err(TidalFieldError::Event),
                _ => r matches Ok(rec) && rec.date == date && rec.value@ == v && rec.event == match kind {
                    Some(k) => spec_tidal_event(k),
                    None => None,
                },
            },
        },
    }
}

/// The kind of tide that `s` names, if any.
pub fn tidal_event(s: &str) -> (r: Option<TidalEvent>)
    ensures
        r == spec_tidal_event(s@),
{
    let chars = chars_of(s);
    if chars.len() == 1 && chars[0] == 'H' {
        proof {
            assert(s@ =~= seq!['H']);
        }
        Some(TidalEvent::High)
    } else if chars.len() == 1 && chars[0] == 'L' {
        proof {
            assert(s@ =~= seq!['L']);
        }
        Some(TidalEvent::Low)
    } else {
        proof {
            if s@ == seq!['H'] || s@ == seq!['L'] {
                assert(chars@[0] == s@[0]);
            }
        }
        None
    }
}

impl TidalDataRecord {
    /// The prediction given by its time `t`, its height `v` as text and the
    /// kind of tide, when there is one.
    pub fn from_fields(t: &str, v: &str, kind: Option<&str>) -> (r: Result<TidalDataRecord, TidalFieldError>)
        ensures
            tidal_fields_give(
                r,
                t@,
                v@,
                match kind {
                    Some(k) => Some(k@),
                    None => None,
                },
            ),
    {
        let date = match parse_naive_time(t, "%Y-%m-%d %H:%M") {
            Ok(d) => d,
            Err(e) => {
                return Err(TidalFieldError::Date(e));
            },
        };
        let chars = chars_of(v);
        proof {
            assert(chars@.subrange(0, chars.len() as int) =~= chars@);
        }
        if let Err(k) = check_float(&chars, 0, chars.len()) {
            return Err(TidalFieldError::Value(k));
        }
        let event = match kind {
            None => None,
            Some(k) => match tidal_event(k) {
                None => {
                    return Err(TidalFieldError::Event);
                },
                Some(e) => Some(e),
            },
        };
        let mut value = String::new();
        crate::text::push_str(&mut value, v);
        Ok(TidalDataRecord { date, value, event })
    }
}

} // verus!
