//! WAVEWATCH III point bulletins: the first line names the station and its
//! position (`Location : NAME (LATN LONW)`), the third gives the model
//! cycle (`Cycle : YYYYMMDD HH UTC`); after the header, each row holds the
//! day and hour (`DDHH`), the significant wave height and, in threes, the
//! height, period and direction of each swell component.

use vstd::prelude::*;

use crate::data::gefs_bulletin_wave_data_record::{group, group_present, LocationText};
use crate::data::delimited::{delimited_records, nonempty_fields, nonempty_row, read_delimited, record_views};
use crate::data::gefs_timeseries_wave_data_record::{i32_result, u32_result};
use crate::data::parseable_data_record::row_text;
use crate::data::row_columns::{as_written, measure, measured_from, written_as};
use crate::dimensional_data::DimensionalData;
use crate::units::Unit;
use vstd::utf8::{encode_utf8, is_char_boundary};
use crate::data::parseable_data_record::DataRecordParsingError;
use crate::location::{Coordinate, Location};
use crate::pattern::{opt_views, regex_captures, regex_search};
use crate::text::{
    bytes_as_chars, chars_of, check_float, copy_string, float_result, int_result, latin1,
    line_spans, lines, parse_int, push_str, string_views, substring, trim, trim_bounds,
};
use crate::time::{utc_datetime, valid_civil, UtcDateTime};

verus! {

/// The location line of a bulletin.
pub open spec fn bulletin_location_pattern() -> Seq<char> {
    "Location\\s*:\\s*(.{0,10})\\s*\\(([+-]?[0-9]*[.]?[0-9]+[N|S])\\s*([+-]?[0-9]*[.]?[0-9]+[E|W])\\)"@
}

/// The cycle line of a bulletin.
pub open spec fn bulletin_cycle_pattern() -> Seq<char> {
    "Cycle\\s*:\\s*([0-9]{0,4})([0-9]{0,2})([0-9]{0,2})\\s*([0-9]{0,2})"@
}

/// Why reading a header stops: a failure with its message, or text on
/// which reading it panics.
pub enum HeaderStop {
    Failure(Seq<char>),
    Panic,
}

/// A float text as magnitude and sign, negated when `negate`: a leading
/// sign of the text moves into the flag.
pub open spec fn signed_magnitude(body: Seq<char>, negate: bool) -> (Seq<char>, bool) {
    if body.len() > 0 && body[0] == '-' {
        (body.drop_first(), !negate)
    } else if body.len() > 0 && body[0] == '+' {
        (body.drop_first(), negate)
    } else {
        (body, negate)
    }
}

/// A coordinate such as `40.98N`: the float before the last character,
/// negated when the text holds `negative_letter`. Cutting the last
/// character off panics on empty text and on a last character of more
/// than one byte.
pub open spec fn spec_lettered_coordinate(raw: Seq<char>, negative_letter: char, what: Seq<char>) -> Result<
    (Seq<char>, bool),
    HeaderStop,
> {
    if raw.len() == 0 || raw.last() as u32 >= 128 {
        Err(HeaderStop::Panic)
    } else {
        let body = raw.drop_last();
        match float_result(body) {
            Err(k) => Err(HeaderStop::Failure("Failed to parse "@ + what + ": "@ + k.spec_debug())),
            Ok(_) => Ok(signed_magnitude(body, raw.contains(negative_letter))),
        }
    }
}

/// The station read from a match of the location pattern, its name as
/// matched.
pub open spec fn spec_bulletin_location(caps: Option<Seq<Option<Seq<char>>>>) -> Result<
    LocationText,
    HeaderStop,
> {
    match caps {
        None => Err(HeaderStop::Failure("Failed to capture location data from regex"@)),
        Some(g) => if !group_present(g, 1) || !group_present(g, 2) || !group_present(g, 3) {
            Err(HeaderStop::Panic)
        } else {
            match spec_lettered_coordinate(group(g, 2), 'S', "latitude"@) {
                Err(e) => Err(e),
                Ok(lat) => match spec_lettered_coordinate(group(g, 3), 'W', "longitude"@) {
                    Err(e) => Err(e),
                    Ok(lon) => Ok((group(g, 1), lat, lon)),
                },
            }
        },
    }
}

/// The name of cycle field `i` (1 to 4) in failures.
pub open spec fn cycle_field_name(i: int) -> Seq<char> {
    if i == 1 {
        "year"@
    } else if i == 2 {
        "month"@
    } else if i == 3 {
        "day"@
    } else {
        "hour"@
    }
}

/// Cycle field `i` of a match: the year as `i32`, the others within
/// `[min, max]`.
pub open spec fn cycle_field(g: Seq<Option<Seq<char>>>, i: int, min: int, max: int) -> Result<int, HeaderStop> {
    if !group_present(g, i) {
        Err(HeaderStop::Panic)
    } else {
        let r = if i == 1 {
            i32_result(group(g, i))
        } else {
            int_result(group(g, i), min, max)
        };
        match r {
            Err(_) => Err(HeaderStop::Failure("Failed to capture model date "@ + cycle_field_name(i))),
            Ok(v) => Ok(v),
        }
    }
}

/// Year, month, day and hour read from a match of the cycle pattern.
pub open spec fn spec_cycle_fields(caps: Option<Seq<Option<Seq<char>>>>, min: int, max: int) -> Result<
    (int, int, int, int),
    HeaderStop,
> {
    match caps {
        None => Err(HeaderStop::Failure("Failed to capture model run date from regex"@)),
        Some(g) => match cycle_field(g, 1, min, max) {
            Err(e) => Err(e),
            Ok(y) => match cycle_field(g, 2, min, max) {
                Err(e) => Err(e),
                Ok(mo) => match cycle_field(g, 3, min, max) {
                    Err(e) => Err(e),
                    Ok(d) => match cycle_field(g, 4, min, max) {
                        Err(e) => Err(e),
                        Ok(h) => Ok((y, mo, d, h)),
                    },
                },
            },
        },
    }
}

/// Line `i` of `ls`, or the empty text.
pub open spec fn line_or_blank(ls: Seq<Seq<char>>, i: int) -> Seq<char> {
    if 0 <= i < ls.len() {
        ls[i]
    } else {
        Seq::empty()
    }
}

/// The station and the cycle fields of a bulletin header, the cycle's
/// fields other than the year read within `[min, max]`.
pub open spec fn spec_bulletin_header(s: Seq<char>, min: int, max: int) -> Result<
    (LocationText, (int, int, int, int)),
    HeaderStop,
> {
    let ls = lines(s);
    match regex_search(bulletin_location_pattern(), line_or_blank(ls, 0)) {
        Err(m) => Err(HeaderStop::Failure("Failed to create location regex: "@ + m)),
        Ok(caps) => if ls.len() == 0 {
            Err(HeaderStop::Failure("Invalid data for location metadata"@))
        } else {
            match spec_bulletin_location(caps) {
                Err(e) => Err(e),
                Ok(loc) => match regex_search(bulletin_cycle_pattern(), line_or_blank(ls, 2)) {
                    Err(_) => Err(
                        HeaderStop::Failure("Failed to create regex to parse model date run"@),
                    ),
                    Ok(caps2) => match spec_cycle_fields(caps2, min, max) {
                        Err(e) => Err(e),
                        Ok(f) => Ok((loc, f)),
                    },
                },
            }
        },
    }
}

/// The header of a bulletin: the station, its name trimmed, and the model
/// run, which must be a valid date (else reading it panics).
pub open spec fn spec_cbulletin_metadata(s: Seq<char>) -> Result<(LocationText, UtcDateTime), HeaderStop> {
    match spec_bulletin_header(s, 0, u32::MAX as int) {
        Err(e) => Err(e),
        Ok(((name, lat, lon), (y, mo, d, h))) => if valid_civil(y, mo, d, h, 0, 0) {
            Ok(
                (
                    (trim(name), lat, lon),
                    UtcDateTime {
                        year: y as i32,
                        month: mo as u32,
                        day: d as u32,
                        hour: h as u32,
                        minute: 0,
                        second: 0,
                    },
                ),
            )
        } else {
            Err(HeaderStop::Panic)
        },
    }
}

/// What a header failure is reported as: the message, or `None` for a panic.
pub open spec fn stop_is(e: Option<String>, stop: HeaderStop) -> bool {
    match stop {
        HeaderStop::Panic => e is None,
        HeaderStop::Failure(m) => e matches Some(t) && t@ == m,
    }
}

fn has_char(chars: &Vec<char>, c: char) -> (b: bool)
    ensures
        b == chars@.contains(c),
{
    let mut i: usize = 0;
    while i < chars.len()
        invariant
            i <= chars.len(),
            forall|j: int| 0 <= j < i ==> chars@[j] != c,
        decreases chars.len() - i,
    {
        if chars[i] == c {
            return true;
        }
        i += 1;
    }
    false
}

/// Reads a lettered coordinate; `Err(None)` where `spec_lettered_coordinate`
/// panics.
pub(crate) fn lettered_coordinate(raw: &str, negative_letter: char, what: &str) -> (r: Result<
    Coordinate,
    Option<String>,
>)
    ensures
        match (r, spec_lettered_coordinate(raw@, negative_letter, what@)) {
            (Ok(c), Ok(p)) => c.view_pair() == p,
            (Err(e), Err(stop)) => stop_is(e, stop),
            _ => false,
        },
{
    let chars = chars_of(raw);
    let n = chars.len();
    if n == 0 || (chars[n - 1] as u32) >= 128 {
        return Err(None);
    }
    let body_end = n - 1;
    if let Err(k) = check_float(&chars, 0, body_end) {
        let mut t = String::new();
        push_str(&mut t, "Failed to parse ");
        push_str(&mut t, what);
        push_str(&mut t, ": ");
        push_str(&mut t, k.debug());
        proof {
            assert(chars@.subrange(0, body_end as int) =~= raw@.drop_last());
            assert(t@ =~= "Failed to parse "@ + what@ + ": "@ + k.spec_debug());
        }
        return Err(Some(t));
    }
    proof {
        assert(chars@.subrange(0, body_end as int) =~= raw@.drop_last());
    }
    let negate = has_char(&chars, negative_letter);
    let ghost body = raw@.drop_last();
    if body_end > 0 && chars[0] == '-' {
        proof {
            assert(chars@.subrange(1, body_end as int) =~= body.drop_first());
        }
        Ok(Coordinate { magnitude: substring(&chars, 1, body_end), negative: !negate })
    } else if body_end > 0 && chars[0] == '+' {
        proof {
            assert(chars@.subrange(1, body_end as int) =~= body.drop_first());
        }
        Ok(Coordinate { magnitude: substring(&chars, 1, body_end), negative: negate })
    } else {
        Ok(Coordinate { magnitude: substring(&chars, 0, body_end), negative: negate })
    }
}

/// Whether group `i` took part in the match, and its text.
fn group_text(g: &Vec<Option<String>>, i: usize) -> (r: Option<&String>)
    ensures
        r is Some <==> group_present(opt_views(g@), i as int),
        r matches Some(t) ==> t@ == group(opt_views(g@), i as int),
{
    if i < g.len() {
        match &g[i] {
            Some(t) => Some(t),
            None => None,
        }
    } else {
        None
    }
}

/// Reads the station of a match of the location pattern.
pub fn bulletin_location(caps: &Option<Vec<Option<String>>>) -> (r: Result<
    (String, Coordinate, Coordinate),
    Option<String>,
>)
    ensures
        match (
            r,
            spec_bulletin_location(
                match caps {
                    Some(g) => Some(opt_views(g@)),
                    None => None,
                },
            ),
        ) {
            (Ok((name, lat, lon)), Ok(t)) => (name@, lat.view_pair(), lon.view_pair()) == t,
            (Err(e), Err(stop)) => stop_is(e, stop),
            _ => false,
        },
{
    let g = match caps {
        None => {
            let mut t = String::new();
            push_str(&mut t, "Failed to capture location data from regex");
            return Err(Some(t));
        },
        Some(g) => g,
    };
    let (name, lat_text, lon_text) = match (group_text(g, 1), group_text(g, 2), group_text(g, 3)) {
        (Some(a), Some(b), Some(c)) => (a, b, c),
        _ => {
            return Err(None);
        },
    };
    let latitude = match lettered_coordinate(lat_text.as_str(), 'S', "latitude") {
        Ok(c) => c,
        Err(e) => {
            return Err(e);
        },
    };
    let longitude = match lettered_coordinate(lon_text.as_str(), 'W', "longitude") {
        Ok(c) => c,
        Err(e) => {
            return Err(e);
        },
    };
    Ok((copy_string(name), latitude, longitude))
}

fn cycle_field_text(i: usize) -> (t: &'static str)
    ensures
        t@ == cycle_field_name(i as int),
{
    if i == 1 {
        "year"
    } else if i == 2 {
        "month"
    } else if i == 3 {
        "day"
    } else {
        "hour"
    }
}

/// Reads cycle field `i` of a match.
fn read_cycle_field(g: &Vec<Option<String>>, i: usize, min: i64, max: i64) -> (r: Result<
    i64,
    Option<String>,
>)
    requires
        1 <= i <= 4,
        min <= 0 <= max,
    ensures
        match (r, cycle_field(opt_views(g@), i as int, min as int, max as int)) {
            (Ok(v), Ok(w)) => v == w,
            (Err(e), Err(stop)) => stop_is(e, stop),
            _ => false,
        },
        r matches Ok(v) ==> (if i == 1 {
            i32::MIN <= v <= i32::MAX
        } else {
            min <= v <= max
        }),
{
    let text = match group_text(g, i) {
        Some(t) => t,
        None => {
            return Err(None);
        },
    };
    let chars = chars_of(text.as_str());
    proof {
        assert(chars@.subrange(0, chars.len() as int) =~= chars@);
    }
    let (lo, hi) = if i == 1 {
        (i32::MIN as i64, i32::MAX as i64)
    } else {
        (min, max)
    };
    match parse_int(&chars, 0, chars.len(), lo, hi) {
        Ok(v) => Ok(v),
        Err(_) => {
            let mut t = String::new();
            push_str(&mut t, "Failed to capture model date ");
            push_str(&mut t, cycle_field_text(i));
            return Err(Some(t));
        },
    }
}

/// Reads the cycle fields of a match of the cycle pattern.
pub fn cycle_fields(caps: &Option<Vec<Option<String>>>, min: i64, max: i64) -> (r: Result<
    (i64, i64, i64, i64),
    Option<String>,
>)
    requires
        min <= 0 <= max,
    ensures
        match (
            r,
            spec_cycle_fields(
                match caps {
                    Some(g) => Some(opt_views(g@)),
                    None => None,
                },
                min as int,
                max as int,
            ),
        ) {
            (Ok(v), Ok(w)) => v.0 == w.0 && v.1 == w.1 && v.2 == w.2 && v.3 == w.3,
            (Err(e), Err(stop)) => stop_is(e, stop),
            _ => false,
        },
        r matches Ok(v) ==> i32::MIN <= v.0 <= i32::MAX && min <= v.1 <= max && min <= v.2 <= max
            && min <= v.3 <= max,
{
    let g = match caps {
        None => {
            let mut t = String::new();
            push_str(&mut t, "Failed to capture model run date from regex");
            return Err(Some(t));
        },
        Some(g) => g,
    };
    let y = match read_cycle_field(g, 1, min, max) {
        Ok(v) => v,
        Err(e) => {
            return Err(e);
        },
    };
    let mo = match read_cycle_field(g, 2, min, max) {
        Ok(v) => v,
        Err(e) => {
            return Err(e);
        },
    };
    let d = match read_cycle_field(g, 3, min, max) {
        Ok(v) => v,
        Err(e) => {
            return Err(e);
        },
    };
    let h = match read_cycle_field(g, 4, min, max) {
        Ok(v) => v,
        Err(e) => {
            return Err(e);
        },
    };
    Ok((y, mo, d, h))
}

/// Line `i` of the text, or the empty text.
fn line_at(chars: &Vec<char>, spans: &Vec<(usize, usize)>, i: usize) -> (s: String)
    requires
        spans.len() == lines(chars@).len(),
        forall|k: int|
            0 <= k < spans.len() ==> (#[trigger] spans@[k]).0 <= spans@[k].1 <= chars.len()
                && chars@.subrange(spans@[k].0 as int, spans@[k].1 as int) == lines(chars@)[k],
    ensures
        s@ == line_or_blank(lines(chars@), i as int),
{
    if i < spans.len() {
        substring(chars, spans[i].0, spans[i].1)
    } else {
        String::new()
    }
}

/// Reads the station and the cycle fields of a bulletin header.
pub fn bulletin_header(s: &str, min: i64, max: i64) -> (r: Result<
    ((String, Coordinate, Coordinate), (i64, i64, i64, i64)),
    Option<String>,
>)
    requires
        min <= 0 <= max,
    ensures
        match (r, spec_bulletin_header(s@, min as int, max as int)) {
            (Ok(((name, lat, lon), f)), Ok((t, w))) => (name@, lat.view_pair(), lon.view_pair())
                == t && f.0 == w.0 && f.1 == w.1 && f.2 == w.2 && f.3 == w.3,
            (Err(e), Err(stop)) => stop_is(e, stop),
            _ => false,
        },
        r matches Ok((_, f)) ==> i32::MIN <= f.0 <= i32::MAX && min <= f.1 <= max && min <= f.2
            <= max && min <= f.3 <= max,
{
    let chars = chars_of(s);
    let spans = line_spans(&chars);
    let first = line_at(&chars, &spans, 0);
    let caps = match regex_captures(
        "Location\\s*:\\s*(.{0,10})\\s*\\(([+-]?[0-9]*[.]?[0-9]+[N|S])\\s*([+-]?[0-9]*[.]?[0-9]+[E|W])\\)",
        first.as_str(),
    ) {
        Ok(c) => c,
        Err(e) => {
            let mut t = String::new();
            push_str(&mut t, "Failed to create location regex: ");
            push_str(&mut t, e.as_str());
            return Err(Some(t));
        },
    };
    if spans.len() == 0 {
        let mut t = String::new();
        push_str(&mut t, "Invalid data for location metadata");
        return Err(Some(t));
    }
    let location = match bulletin_location(&caps) {
        Ok(l) => l,
        Err(e) => {
            return Err(e);
        },
    };
    // The second line is skipped; the third has the model run.
    let third = line_at(&chars, &spans, 2);
    let caps2 = match regex_captures(
        "Cycle\\s*:\\s*([0-9]{0,4})([0-9]{0,2})([0-9]{0,2})\\s*([0-9]{0,2})",
        third.as_str(),
    ) {
        Ok(c) => c,
        Err(_) => {
            let mut t = String::new();
            push_str(&mut t, "Failed to create regex to parse model date run");
            return Err(Some(t));
        },
    };
    match cycle_fields(&caps2, min, max) {
        Ok(f) => Ok((location, f)),
        Err(e) => Err(e),
    }
}

/// The header of a forecast bulletin: the station and the model run.
#[derive(Clone, Debug)]
pub struct ForecastCBulletinWaveRecordMetadata {
    pub location: Location,
    pub model_run_date: UtcDateTime,
}

/// The coordinate text `raw` as read by `parse_latitude` or
/// `parse_longitude`.
pub open spec fn lettered(raw: Seq<char>, negative_letter: char, what: Seq<char>, r: Result<Coordinate, DataRecordParsingError>) -> bool {
    match (r, spec_lettered_coordinate(raw, negative_letter, what)) {
        (Ok(c), Ok(p)) => c.view_pair() == p,
        (Err(e), Err(HeaderStop::Failure(m))) => e matches DataRecordParsingError::ParseFailure(t) && t@ == m,
        _ => false,
    }
}

/// A latitude such as `40.98N`; negative when the text holds `S`.
pub fn parse_latitude(raw: &str) -> (r: Result<Coordinate, DataRecordParsingError>)
    requires
        raw@.len() > 0,
        (raw@.last() as u32) < 128,
    ensures
        lettered(raw@, 'S', "latitude"@, r),
{
    match lettered_coordinate(raw, 'S', "latitude") {
        Ok(c) => Ok(c),
        Err(Some(m)) => Err(DataRecordParsingError::ParseFailure(m)),
        Err(None) => Err(DataRecordParsingError::InvalidData),
    }
}

/// A longitude such as `71.12W`; negative when the text holds `W`.
pub fn parse_longitude(raw: &str) -> (r: Result<Coordinate, DataRecordParsingError>)
    requires
        raw@.len() > 0,
        (raw@.last() as u32) < 128,
    ensures
        lettered(raw@, 'W', "longitude"@, r),
{
    match lettered_coordinate(raw, 'W', "longitude") {
        Ok(c) => Ok(c),
        Err(Some(m)) => Err(DataRecordParsingError::ParseFailure(m)),
        Err(None) => Err(DataRecordParsingError::InvalidData),
    }
}

/// `m` is the header `t` as read.
pub open spec fn cbulletin_metadata_is(m: ForecastCBulletinWaveRecordMetadata, t: (LocationText, UtcDateTime)) -> bool {
    &&& (m.location.name@, m.location.latitude.view_pair(), m.location.longitude.view_pair()) == t.0
    &&& m.model_run_date == t.1
}

impl ForecastCBulletinWaveRecordMetadata {
    /// Reads the header of a bulletin; see `spec_cbulletin_metadata`.
    pub fn from_text(s: &str) -> (r: Result<Self, DataRecordParsingError>)
        requires
            spec_cbulletin_metadata(s@) != Err::<(LocationText, UtcDateTime), HeaderStop>(HeaderStop::Panic),
        ensures
            match (r, spec_cbulletin_metadata(s@)) {
                (Ok(m), Ok(t)) => cbulletin_metadata_is(m, t),
                (Err(e), Err(HeaderStop::Failure(msg))) => e matches DataRecordParsingError::ParseFailure(t) && t@ == msg,
                _ => false,
            },
    {
        match Self::try_from_text(s) {
            Some(r) => r,
            None => Err(DataRecordParsingError::InvalidData),
        }
    }

    /// As `from_text`, but `None` on the headers that make it panic.
    pub fn try_from_text(s: &str) -> (r: Option<Result<Self, DataRecordParsingError>>)
        ensures
            match (r, spec_cbulletin_metadata(s@)) {
                (None, Err(HeaderStop::Panic)) => true,
                (Some(Ok(m)), Ok(t)) => cbulletin_metadata_is(m, t),
                (Some(Err(e)), Err(HeaderStop::Failure(msg))) => e matches DataRecordParsingError::ParseFailure(t) && t@ == msg,
                _ => false,
            },
    {
        let ((name, latitude, longitude), (y, mo, d, h)) = match bulletin_header(s, 0, u32::MAX as i64) {
            Ok(v) => v,
            Err(Some(m)) => {
                return Some(Err(DataRecordParsingError::ParseFailure(m)));
            },
            Err(None) => {
                return None;
            },
        };
        let model_run_date = match utc_datetime(y as i32, mo as u32, d as u32, h as u32, 0, 0) {
            Some(date) => date,
            None => {
                return None;
            },
        };
        let chars = chars_of(name.as_str());
        let (a, b) = trim_bounds(&chars, 0, chars.len());
        proof {
            assert(chars@.subrange(0, chars.len() as int) =~= chars@);
        }
        let location = Location::new(latitude, longitude, substring(&chars, a, b));
        Some(Ok(ForecastCBulletinWaveRecordMetadata { location, model_run_date }))
    }
}

/// Why reading a row stops: a failure with its message, a row read
/// without the header, or text on which reading it panics.
pub enum RowStop {
    Failure(Seq<char>),
    Invalid,
    Panic,
}

/// A swell component as read: height and period text and direction in
/// degrees.
pub type SwellText = (Seq<char>, Seq<char>, int);

/// The swell components from column `i` on, in threes; reading a
/// component's period or direction past the end of the row panics.
pub open spec fn spec_cbulletin_swells(row: Seq<Seq<char>>, i: int) -> Result<Seq<SwellText>, RowStop>
    decreases row.len() - i,
{
    if i < 0 || i >= row.len() {
        Ok(Seq::empty())
    } else {
        match float_result(row[i]) {
            Err(_) => Err(RowStop::Failure("Failed to parse height from row"@)),
            Ok(_) => if i + 1 >= row.len() {
                Err(RowStop::Panic)
            } else {
                match float_result(row[i + 1]) {
                    Err(_) => Err(RowStop::Failure("Failed to parse period from row"@)),
                    Ok(_) => if i + 2 >= row.len() {
                        Err(RowStop::Panic)
                    } else {
                        match i32_result(row[i + 2]) {
                            Err(_) => Err(RowStop::Failure("Failed to parse direction from row"@)),
                            Ok(d) => match spec_cbulletin_swells(row, i + 3) {
                                Err(e) => Err(e),
                                Ok(rest) => Ok(seq![(row[i], row[i + 1], d)] + rest),
                            },
                        }
                    },
                }
            },
        }
    }
}

/// A row as read: its date, significant wave height and swell components.
pub type CBulletinRowText = (UtcDateTime, Seq<char>, Seq<SwellText>);

/// A row of a bulletin from the run `run`. The first column `DDHH` is cut
/// after its second byte (which panics on a shorter column or inside a
/// character); the date is in the run's month unless its day is before
/// the run's, then in the next month, and must be in the calendar (else
/// reading panics). Without the run the row is invalid.
pub open spec fn spec_cbulletin_row(row: Seq<Seq<char>>, run: Option<UtcDateTime>) -> Result<
    CBulletinRowText,
    RowStop,
> {
    if row.len() == 0 {
        Err(RowStop::Panic)
    } else {
        let b = encode_utf8(row[0]);
        if b.len() < 2 || !is_char_boundary(b, 2) {
            Err(RowStop::Panic)
        } else {
            match u32_result(latin1(b.subrange(0, 2))) {
                Err(_) => Err(RowStop::Failure("Failed to parse day from timestep"@)),
                Ok(day) => match u32_result(latin1(b.subrange(2, b.len() as int))) {
                    Err(_) => Err(RowStop::Failure("Failed to parse hour from timestep"@)),
                    Ok(hour) => match run {
                        None => Err(RowStop::Invalid),
                        Some(r) => {
                            let month = if r.day > day {
                                r.month + 1
                            } else {
                                r.month as int
                            };
                            if !valid_civil(r.year as int, month, day, hour, 0, 0) {
                                Err(RowStop::Panic)
                            } else if row.len() < 2 {
                                Err(RowStop::Panic)
                            } else {
                                match spec_cbulletin_swells(row, 2) {
                                    Err(e) => Err(e),
                                    Ok(sw) => Ok(
                                        (
                                            UtcDateTime {
                                                year: r.year,
                                                month: month as u32,
                                                day: day as u32,
                                                hour: hour as u32,
                                                minute: 0,
                                                second: 0,
                                            },
                                            row[1],
                                            sw,
                                        ),
                                    ),
                                }
                            }
                        },
                    },
                },
            }
        }
    }
}

/// A swell component of a bulletin row: height in feet and period in
/// seconds, held as the float text they were read as, and the direction
/// in whole degrees as written (reading it as a direction is the job of
/// the units module's `Direction`, which is not part of this crate).
#[derive(Clone, Debug)]
pub struct ForecastCBulletinSwell {
    pub wave_height: DimensionalData<String>,
    pub period: DimensionalData<String>,
    pub direction_degrees: i32,
}

/// A row of a bulletin.
#[derive(Clone, Debug)]
pub struct ForecastCBulletinWaveRecord {
    pub date: UtcDateTime,
    pub significant_wave_height: DimensionalData<String>,
    pub swell_components: Vec<ForecastCBulletinSwell>,
}

/// `s` is the component `t` as read.
pub open spec fn swell_is(s: ForecastCBulletinSwell, t: SwellText) -> bool {
    &&& written_as(s.wave_height, t.0, "wave height"@, Unit::Feet)
    &&& written_as(s.period, t.1, "period"@, Unit::Seconds)
    &&& s.direction_degrees == t.2
}

/// `rec` is the row `t` as read.
pub open spec fn cbulletin_record_is(rec: ForecastCBulletinWaveRecord, t: CBulletinRowText) -> bool {
    &&& rec.date == t.0
    &&& measured_from(rec.significant_wave_height, t.1, "significant wave height"@, Unit::Feet)
    &&& rec.swell_components.len() == t.2.len()
    &&& forall|i: int|
        0 <= i < t.2.len() ==> swell_is(#[trigger] rec.swell_components@[i], t.2[i])
}

/// What a row stop is reported as: `None` for a panic.
pub open spec fn row_stop_is(e: Option<DataRecordParsingError>, stop: RowStop) -> bool {
    match stop {
        RowStop::Panic => e is None,
        RowStop::Invalid => e matches Some(DataRecordParsingError::InvalidData),
        RowStop::Failure(m) => e matches Some(DataRecordParsingError::ParseFailure(t)) && t@ == m,
    }
}

fn failure(m: &str) -> (e: Option<DataRecordParsingError>)
    ensures
        e matches Some(DataRecordParsingError::ParseFailure(t)) && t@ == m@,
{
    let mut t = String::new();
    push_str(&mut t, m);
    Some(DataRecordParsingError::ParseFailure(t))
}

fn text_is_float(s: &str) -> (b: bool)
    ensures
        b == (float_result(s@) is Ok),
{
    let chars = chars_of(s);
    proof {
        assert(chars@.subrange(0, chars.len() as int) =~= chars@);
    }
    check_float(&chars, 0, chars.len()).is_ok()
}

fn text_i32(s: &str) -> (r: Option<i32>)
    ensures
        match r {
            Some(v) => i32_result(s@) == Ok::<int, crate::text::IntErrorKind>(v as int),
            None => i32_result(s@) is Err,
        },
{
    let chars = chars_of(s);
    proof {
        assert(chars@.subrange(0, chars.len() as int) =~= chars@);
    }
    match parse_int(&chars, 0, chars.len(), i32::MIN as i64, i32::MAX as i64) {
        Ok(v) => Some(v as i32),
        Err(_) => None,
    }
}

/// Reads the swell components of a row; `Err(None)` where that panics.
fn read_swells(row: &Vec<&str>) -> (r: Result<Vec<ForecastCBulletinSwell>, Option<DataRecordParsingError>>)
    requires
        row.len() >= 2,
    ensures
        match (r, spec_cbulletin_swells(row_text(row@), 2)) {
            (Ok(v), Ok(ts)) => v.len() == ts.len() && forall|i: int|
                0 <= i < ts.len() ==> swell_is(#[trigger] v@[i], ts[i]),
            (Err(e), Err(stop)) => row_stop_is(e, stop),
            _ => false,
        },
{
    let ghost text = row_text(row@);
    proof {
        assert forall|i: int| 0 <= i < row.len() implies #[trigger] text[i] == row@[i]@ by {}
    }
    let mut out: Vec<ForecastCBulletinSwell> = Vec::new();
    let mut i: usize = 2;
    while i < row.len()
        invariant
            2 <= i,
            i <= row.len() + 2,
            text == row_text(row@),
            forall|k: int| 0 <= k < row.len() ==> #[trigger] text[k] == row@[k]@,
            match spec_cbulletin_swells(text, i as int) {
                Err(e) => spec_cbulletin_swells(text, 2) == Err::<Seq<SwellText>, RowStop>(e),
                Ok(rest) => spec_cbulletin_swells(text, 2) matches Ok(all) && all.len() == out.len()
                    + rest.len() && (forall|k: int|
                    0 <= k < out.len() ==> swell_is(#[trigger] out@[k], all[k])) && (forall|k: int|
                    0 <= k < rest.len() ==> all[out.len() + k] == rest[k]),
            },
        decreases row.len() + 2 - i,
    {
        proof {
            assert(text[i as int] == row@[i as int]@);
        }
        if !text_is_float(row[i]) {
            return Err(failure("Failed to parse height from row"));
        }
        if i + 1 >= row.len() {
            return Err(None);
        }
        proof {
            assert(text[i + 1] == row@[i + 1]@);
        }
        if !text_is_float(row[i + 1]) {
            return Err(failure("Failed to parse period from row"));
        }
        if i + 2 >= row.len() {
            return Err(None);
        }
        proof {
            assert(text[i + 2] == row@[i + 2]@);
        }
        let degrees = match text_i32(row[i + 2]) {
            Some(d) => d,
            None => {
                return Err(failure("Failed to parse direction from row"));
            },
        };
        let swell = ForecastCBulletinSwell {
            wave_height: as_written(row[i], "wave height", Unit::Feet),
            period: as_written(row[i + 1], "period", Unit::Seconds),
            direction_degrees: degrees,
        };
        let ghost t: SwellText = (text[i as int], text[i + 1], degrees as int);
        proof {
            match spec_cbulletin_swells(text, i + 3) {
                Ok(rest) => {
                    let all = spec_cbulletin_swells(text, 2)->Ok_0;
                    let cur = seq![t] + rest;
                    assert(cur[0] == t);
                    assert(all[out.len() as int] == t);
                    assert forall|k: int| 0 <= k < rest.len() implies all[out.len() + 1 + k]
                        == rest[k] by {
                        assert(cur[k + 1] == rest[k]);
                    }
                    assert forall|k: int| 0 <= k < out.len() + 1 implies swell_is(
                        #[trigger] out@.push(swell)[k],
                        all[k],
                    ) by {
                        if k < out.len() {
                            assert(out@.push(swell)[k] == out@[k]);
                        }
                    }
                },
                Err(_) => {},
            }
        }
        out.push(swell);
        i += 3;
    }
    Ok(out)
}

/// Reads one bulletin row from the run of `metadata`; `Err(None)` where
/// that panics.
fn read_row(metadata: Option<&ForecastCBulletinWaveRecordMetadata>, row: &Vec<&str>) -> (r: Result<
    ForecastCBulletinWaveRecord,
    Option<DataRecordParsingError>,
>)
    ensures
        match (
            r,
            spec_cbulletin_row(
                row_text(row@),
                match metadata {
                    Some(m) => Some(m.model_run_date),
                    None => None,
                },
            ),
        ) {
            (Ok(rec), Ok(t)) => cbulletin_record_is(rec, t),
            (Err(e), Err(stop)) => row_stop_is(e, stop),
            _ => false,
        },
{
    let ghost text = row_text(row@);
    proof {
        assert forall|i: int| 0 <= i < row.len() implies #[trigger] text[i] == row@[i]@ by {}
    }
    if row.len() == 0 {
        return Err(None);
    }
    let timestep = row[0];
    proof {
        assert(text[0] == timestep@);
    }
    let b = timestep.as_bytes();
    if b.len() < 2 || !timestep.is_char_boundary(2) {
        return Err(None);
    }
    let dc = bytes_as_chars(b, 0, 2);
    let hc = bytes_as_chars(b, 2, b.len());
    proof {
        assert(dc@.subrange(0, dc.len() as int) =~= dc@);
        assert(hc@.subrange(0, hc.len() as int) =~= hc@);
    }
    let day = match parse_int(&dc, 0, dc.len(), 0, u32::MAX as i64) {
        Ok(v) => v as u32,
        Err(_) => {
            return Err(failure("Failed to parse day from timestep"));
        },
    };
    let hour = match parse_int(&hc, 0, hc.len(), 0, u32::MAX as i64) {
        Ok(v) => v as u32,
        Err(_) => {
            return Err(failure("Failed to parse hour from timestep"));
        },
    };
    let run = match metadata {
        Some(m) => m.model_run_date,
        None => {
            return Err(Some(DataRecordParsingError::InvalidData));
        },
    };
    let month = if run.day > day {
        if run.month >= 12 {
            return Err(None);
        }
        run.month + 1
    } else {
        run.month
    };
    let date = match utc_datetime(run.year, month, day, hour, 0, 0) {
        Some(d) => d,
        None => {
            return Err(None);
        },
    };
    if row.len() < 2 {
        return Err(None);
    }
    proof {
        assert(text[1] == row@[1]@);
    }
    let significant_wave_height = measure(row[1], "significant wave height", Unit::Feet);
    match read_swells(row) {
        Ok(swell_components) => Ok(
            ForecastCBulletinWaveRecord { date, significant_wave_height, swell_components },
        ),
        Err(e) => Err(e),
    }
}

impl ForecastCBulletinWaveRecord {
    /// Reads one bulletin row from the run of `metadata`; see
    /// `spec_cbulletin_row`.
    pub fn from_data_row(metadata: Option<&ForecastCBulletinWaveRecordMetadata>, row: &Vec<&str>) -> (r: Result<
        ForecastCBulletinWaveRecord,
        DataRecordParsingError,
    >)
        requires
            !(spec_cbulletin_row(
                row_text(row@),
                match metadata {
                    Some(m) => Some(m.model_run_date),
                    None => None,
                },
            ) matches Err(RowStop::Panic)),
        ensures
            match (
                r,
                spec_cbulletin_row(
                    row_text(row@),
                    match metadata {
                        Some(m) => Some(m.model_run_date),
                        None => None,
                    },
                ),
            ) {
                (Ok(rec), Ok(t)) => cbulletin_record_is(rec, t),
                (Err(e), Err(stop)) => row_stop_is(Some(e), stop),
                _ => false,
            },
    {
        match read_row(metadata, row) {
            Ok(rec) => Ok(rec),
            Err(Some(e)) => Err(e),
            Err(None) => Err(DataRecordParsingError::InvalidData),
        }
    }
}

/// The rows read from the records, their empty fields left out, from the
/// run `run`, those that parse; none where reading one panics. Records
/// that could not be read are passed over.
pub open spec fn cbulletin_rows(rs: Seq<Result<Seq<Seq<char>>, Seq<char>>>, run: UtcDateTime) -> Option<
    Seq<CBulletinRowText>,
>
    decreases rs.len(),
{
    if rs.len() == 0 {
        Some(Seq::empty())
    } else {
        match cbulletin_rows(rs.drop_last(), run) {
            None => None,
            Some(prev) => match rs.last() {
                Err(_) => Some(prev),
                Ok(fields) => match spec_cbulletin_row(nonempty_fields(fields), Some(run)) {
                    Err(RowStop::Panic) => None,
                    Err(_) => Some(prev),
                    Ok(t) => Some(prev.push(t)),
                },
            },
        }
    }
}

/// Once a prefix of the records panics, all of them do.
proof fn lemma_cbulletin_rows_prefix_none(rs: Seq<Result<Seq<Seq<char>>, Seq<char>>>, run: UtcDateTime, n: int)
    requires
        0 <= n <= rs.len(),
        cbulletin_rows(rs.take(n), run) is None,
    ensures
        cbulletin_rows(rs, run) is None,
    decreases rs.len() - n,
{
    if n < rs.len() {
        assert(rs.take(n + 1).drop_last() =~= rs.take(n));
        lemma_cbulletin_rows_prefix_none(rs, run, n + 1);
    } else {
        assert(rs.take(n) =~= rs);
    }
}

/// The records of a bulletin after its first five (the header): spaces
/// between fields and lines that start with `#` left out.
pub open spec fn bulletin_body_records(data: Seq<char>) -> Seq<Result<Seq<Seq<char>>, Seq<char>>> {
    let rs = delimited_records(data, 32u8, 35u8);
    if rs.len() <= 5 {
        Seq::empty()
    } else {
        rs.skip(5)
    }
}

/// A bulletin read: its header and the rows that parse, or the message of
/// the header's failure; none where reading panics.
pub open spec fn spec_cbulletin_collection(s: Seq<char>) -> Option<
    Result<((LocationText, UtcDateTime), Seq<CBulletinRowText>), Seq<char>>,
> {
    match spec_cbulletin_metadata(s) {
        Err(HeaderStop::Panic) => None,
        Err(HeaderStop::Failure(m)) => Some(Err(m)),
        Ok(meta) => match cbulletin_rows(bulletin_body_records(s), meta.1) {
            None => None,
            Some(ts) => Some(Ok((meta, ts))),
        },
    }
}

/// `recs` are the rows `ts` as read, one for one.
pub open spec fn cbulletin_records_are(recs: Seq<ForecastCBulletinWaveRecord>, ts: Seq<CBulletinRowText>) -> bool {
    &&& recs.len() == ts.len()
    &&& forall|i: int| 0 <= i < recs.len() ==> cbulletin_record_is(#[trigger] recs[i], ts[i])
}

/// What reading a bulletin gives, against its spec.
pub open spec fn cbulletin_read_is(
    r: Result<(ForecastCBulletinWaveRecordMetadata, Vec<ForecastCBulletinWaveRecord>), DataRecordParsingError>,
    w: Result<((LocationText, UtcDateTime), Seq<CBulletinRowText>), Seq<char>>,
) -> bool {
    match (r, w) {
        (Ok((m, recs)), Ok((meta, ts))) => cbulletin_metadata_is(m, meta) && cbulletin_records_are(recs@, ts),
        (Err(e), Err(msg)) => e matches DataRecordParsingError::ParseFailure(t) && t@ == msg,
        _ => false,
    }
}

/// A forecast bulletin to read.
pub struct ForecastCBulletinWaveRecordCollection<'a> {
    data: &'a str,
}

impl<'a> ForecastCBulletinWaveRecordCollection<'a> {
    /// The text the bulletin is read from.
    pub closed spec fn text(&self) -> Seq<char> {
        self.data@
    }

    pub fn from_data(data: &'a str) -> (c: Self)
        ensures
            c.text() == data@,
    {
        ForecastCBulletinWaveRecordCollection { data }
    }

    /// The header of the bulletin and its rows that parse.
    pub fn records(&self) -> (r: Result<
        (ForecastCBulletinWaveRecordMetadata, Vec<ForecastCBulletinWaveRecord>),
        DataRecordParsingError,
    >)
        requires
            spec_cbulletin_collection(self.text()) is Some,
        ensures
            spec_cbulletin_collection(self.text()) matches Some(w) && cbulletin_read_is(r, w),
    {
        match self.try_records() {
            Some(r) => r,
            None => Err(DataRecordParsingError::InvalidData),
        }
    }

    /// As `records`, but `None` where reading the header or a row panics.
    pub fn try_records(&self) -> (r: Option<
        Result<(ForecastCBulletinWaveRecordMetadata, Vec<ForecastCBulletinWaveRecord>), DataRecordParsingError>,
    >)
        ensures
            match (r, spec_cbulletin_collection(self.text())) {
                (None, None) => true,
                (Some(v), Some(w)) => cbulletin_read_is(v, w),
                _ => false,
            },
    {
        let metadata = match ForecastCBulletinWaveRecordMetadata::try_from_text(self.data) {
            None => {
                return None;
            },
            Some(Err(e)) => {
                return Some(Err(e));
            },
            Some(Ok(m)) => m,
        };
        let ghost run = metadata.model_run_date;
        // ' ' between fields, '#' before comments; the first five records
        // are the header.
        let records = read_delimited(self.data, 32u8, 35u8);
        let ghost all = delimited_records(self.text(), 32u8, 35u8);
        let ghost rs = bulletin_body_records(self.text());
        let start: usize = if records.len() <= 5 {
            records.len()
        } else {
            5
        };
        proof {
            if all.len() > 5 {
                assert(rs =~= all.subrange(5, all.len() as int));
            } else {
                assert(rs =~= all.subrange(all.len() as int, all.len() as int));
            }
        }
        let mut out: Vec<ForecastCBulletinWaveRecord> = Vec::new();
        let mut i: usize = start;
        proof {
            assert(rs.take(0) =~= Seq::<Result<Seq<Seq<char>>, Seq<char>>>::empty());
        }
        while i < records.len()
            invariant
                start <= i <= records.len(),
                all == record_views(records@),
                all.len() == records.len(),
                rs == all.subrange(start as int, all.len() as int),
                rs == bulletin_body_records(self.text()),
                run == metadata.model_run_date,
                spec_cbulletin_metadata(self.text()) matches Ok(meta) && cbulletin_metadata_is(
                    metadata,
                    meta,
                ),
                cbulletin_rows(rs.take(i - start), run) matches Some(ts) && cbulletin_records_are(out@, ts),
            decreases records.len() - i,
        {
            let ghost j = i - start;
            proof {
                assert(rs.take(j + 1).drop_last() =~= rs.take(j));
                assert(rs.take(j + 1).last() == rs[j]);
                assert(rs[j] == all[i as int]);
            }
            match &records[i] {
                Err(_) => {},
                Ok(fields) => {
                    let row = nonempty_row(fields);
                    proof {
                        assert(all[i as int] == Ok::<Seq<Seq<char>>, Seq<char>>(string_views(fields@)));
                    }
                    let ghost ts = cbulletin_rows(rs.take(j), run)->0;
                    match read_row(Some(&metadata), &row) {
                        Err(None) => {
                            proof {
                                assert(cbulletin_rows(rs.take(j + 1), run) is None);
                                lemma_cbulletin_rows_prefix_none(rs, run, j + 1);
                            }
                            return None;
                        },
                        Err(Some(_)) => {},
                        Ok(rec) => {
                            proof {
                                let t = spec_cbulletin_row(row_text(row@), Some(run))->Ok_0;
                                assert forall|k: int| 0 <= k < out.len() + 1 implies cbulletin_record_is(
                                    #[trigger] out@.push(rec)[k],
                                    ts.push(t)[k],
                                ) by {
                                    if k < out.len() {
                                        assert(out@.push(rec)[k] == out@[k]);
                                        assert(ts.push(t)[k] == ts[k]);
                                    }
                                }
                            }
                            out.push(rec);
                        },
                    }
                },
            }
            i += 1;
        }
        proof {
            assert(rs.take(i - start) =~= rs);
        }
        Some(Ok((metadata, out)))
    }
}

} // verus!
