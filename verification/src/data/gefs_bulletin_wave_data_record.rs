//! The GEFS wave ensemble point bulletin: a header that names the station
//! (`Location : ...`) and the model cycle (`Cycle : YYYYMMDD tHHz`), then a
//! table with one `|`-separated row per output time, `DD HH` then the
//! ensemble mean and spread of wave height, peak period and wind speed and
//! the probabilities of wave heights above six thresholds.

use vstd::prelude::*;

use crate::data::gefs_timeseries_wave_data_record::{i32_result, reads_float, u32_result};
use crate::data::parseable_data_record::{
    parse_failure, parse_failure_with, row_text, str_refs, DataRecordParsingError,
    ParseableDataRecord,
};
use crate::dimensional_data::DimensionalData;
use crate::location::{Coordinate, Location};
use crate::pattern::{opt_views, regex_captures, regex_search};
use crate::text::{
    check_float, chars_of, contains, decimal, find_line_with, first_line_with, float_result,
    has_substring, is_digit, line_spans, lines, parse_int, push_decimal, push_str, split_on,
    split_spans, split_ws, string_views, substring, trim, trim_bounds, trim_end_alphabetic,
    trim_end_alphabetic_bound, words_of, FloatErrorKind,
};
use crate::time::{utc_datetime, valid_civil, UtcDateTime};
use crate::units::Unit;

verus! {

#[derive(Clone, Debug)]
pub struct GEFSBulletinWaveRecordMetadata {
    pub location: Location,
    pub model_run_date: UtcDateTime,
}

/// The text of a location: its name, then latitude and longitude as
/// (magnitude text, negated).
pub type LocationText = (Seq<char>, (Seq<char>, bool), (Seq<char>, bool));

pub open spec fn location_text(loc: Location) -> LocationText {
    (loc.name@, loc.latitude.view_pair(), loc.longitude.view_pair())
}

/// The header line with the station name and its position.
pub open spec fn location_pattern() -> Seq<char> {
    "Location\\s*:\\s*(.{0,10}?)\\s*\\(\\s*([+-]?[0-9]*\\.?[0-9]+[NS])\\s+([+-]?[0-9]*\\.?[0-9]+[EW])\\)"@
}

/// The header line with the model cycle.
pub open spec fn cycle_pattern() -> Seq<char> {
    "Cycle\\s*:\\s*([0-9]{4})([0-9]{2})([0-9]{2})\\s+t([0-9]{2})z"@
}

/// Group `i` of a match took part in it.
pub open spec fn group_present(g: Seq<Option<Seq<char>>>, i: int) -> bool {
    0 <= i < g.len() && g[i] is Some
}

/// The text of group `i` of a match.
pub open spec fn group(g: Seq<Option<Seq<char>>>, i: int) -> Seq<char> {
    match g[i] {
        Some(t) => t,
        None => Seq::empty(),
    }
}

/// A coordinate column such as `40.969N`: the number before the trailing
/// letters, negated when the text ends with `negative_letter`.
pub open spec fn spec_coordinate(raw: Seq<char>, negative_letter: char) -> Result<
    (Seq<char>, bool),
    FloatErrorKind,
> {
    let t = trim(raw);
    let num = trim_end_alphabetic(t);
    match float_result(num) {
        Err(k) => Err(k),
        Ok(_) => Ok((num, t.len() > 0 && t.last() == negative_letter)),
    }
}

/// The location read from a match of `location_pattern`, or the message of
/// the failure.
pub open spec fn spec_location(caps: Option<Seq<Option<Seq<char>>>>) -> Result<LocationText, Seq<char>> {
    match caps {
        None => Err("Failed to capture location data from regex"@),
        Some(g) => if !group_present(g, 1) {
            Err("Missing location name capture"@)
        } else if !group_present(g, 2) {
            Err("Missing latitude capture"@)
        } else {
            match spec_coordinate(group(g, 2), 'S') {
                Err(k) => Err("Failed to parse latitude: "@ + k.spec_message()),
                Ok(lat) => if !group_present(g, 3) {
                    Err("Missing longitude capture"@)
                } else {
                    match spec_coordinate(group(g, 3), 'W') {
                        Err(k) => Err("Failed to parse longitude: "@ + k.spec_message()),
                        Ok(lon) => Ok((trim(group(g, 1)), lat, lon)),
                    }
                },
            }
        },
    }
}

/// The model run read from a match of `cycle_pattern`, or the message of
/// the failure.
pub open spec fn spec_cycle(caps: Option<Seq<Option<Seq<char>>>>) -> Result<UtcDateTime, Seq<char>> {
    match caps {
        None => Err("Failed to match cycle line"@),
        Some(g) => if !group_present(g, 1) {
            Err("Missing cycle year capture"@)
        } else {
            match i32_result(group(g, 1)) {
                Err(_) => Err("Failed to parse cycle year"@),
                Ok(y) => if !group_present(g, 2) {
                    Err("Missing cycle month capture"@)
                } else {
                    match u32_result(group(g, 2)) {
                        Err(_) => Err("Failed to parse cycle month"@),
                        Ok(mo) => if !group_present(g, 3) {
                            Err("Missing cycle day capture"@)
                        } else {
                            match u32_result(group(g, 3)) {
                                Err(_) => Err("Failed to parse cycle day"@),
                                Ok(d) => if !group_present(g, 4) {
                                    Err("Missing cycle hour capture"@)
                                } else {
                                    match u32_result(group(g, 4)) {
                                        Err(_) => Err("Failed to parse cycle hour"@),
                                        Ok(h) => if valid_civil(y, mo, d, h, 0, 0) {
                                            Ok(
                                                UtcDateTime {
                                                    year: y as i32,
                                                    month: mo as u32,
                                                    day: d as u32,
                                                    hour: h as u32,
                                                    minute: 0,
                                                    second: 0,
                                                },
                                            )
                                        } else {
                                            Err("Invalid cycle date/time"@)
                                        },
                                    }
                                },
                            }
                        },
                    }
                },
            }
        },
    }
}

/// The line searched for a pattern: the one found, or the empty text, on
/// which the search only tells whether the pattern compiles.
pub open spec fn line_or_empty(l: Option<Seq<char>>) -> Seq<char> {
    match l {
        Some(t) => t,
        None => Seq::empty(),
    }
}

/// The header of a bulletin: the location from the first line that holds
/// `Location` and the model run from the first that holds `Cycle`, or the
/// message of the first failure.
pub open spec fn spec_metadata(s: Seq<char>) -> Result<(LocationText, UtcDateTime), Seq<char>> {
    let ls = lines(s);
    let loc_line = first_line_with(ls, "Location"@);
    match regex_search(location_pattern(), line_or_empty(loc_line)) {
        Err(m) => Err("Failed to create location regex: "@ + m),
        Ok(caps) => match loc_line {
            None => Err("Invalid data for location metadata"@),
            Some(_) => match spec_location(caps) {
                Err(m) => Err(m),
                Ok(loc) => {
                    let cycle_line = first_line_with(ls, "Cycle"@);
                    match regex_search(cycle_pattern(), line_or_empty(cycle_line)) {
                        Err(m) => Err("Failed to create cycle regex: "@ + m),
                        Ok(caps2) => match cycle_line {
                            None => Err("Missing cycle line"@),
                            Some(_) => match spec_cycle(caps2) {
                                Err(m) => Err(m),
                                Ok(d) => Ok((loc, d)),
                            },
                        },
                    }
                },
            },
        },
    }
}

/// `s` with surrounding whitespace removed.
fn trimmed(s: &str) -> (t: String)
    ensures
        t@ == trim(s@),
{
    let chars = chars_of(s);
    let (a, b) = trim_bounds(&chars, 0, chars.len());
    proof {
        assert(chars@.subrange(0, chars.len() as int) =~= chars@);
    }
    substring(&chars, a, b)
}

fn parse_coordinate(raw: &str, negative_letter: char) -> (r: Result<Coordinate, FloatErrorKind>)
    ensures
        match (r, spec_coordinate(raw@, negative_letter)) {
            (Ok(c), Ok(p)) => c.view_pair() == p,
            (Err(e), Err(k)) => e == k,
            _ => false,
        },
{
    let chars = chars_of(raw);
    let (a, b) = trim_bounds(&chars, 0, chars.len());
    proof {
        assert(chars@.subrange(0, chars.len() as int) =~= chars@);
    }
    let e = trim_end_alphabetic_bound(&chars, a, b);
    match check_float(&chars, a, e) {
        Err(k) => Err(k),
        Ok(()) => {
            let negative = b > a && chars[b - 1] == negative_letter;
            proof {
                let t = chars@.subrange(a as int, b as int);
                if b > a {
                    assert(t.last() == chars@[b - 1]);
                }
            }
            Ok(Coordinate { magnitude: substring(&chars, a, e), negative })
        },
    }
}

fn parse_lat(raw: &str) -> (r: Result<Coordinate, DataRecordParsingError>)
    ensures
        match (r, spec_coordinate(raw@, 'S')) {
            (Ok(c), Ok(p)) => c.view_pair() == p,
            (Err(e), Err(k)) => e matches DataRecordParsingError::ParseFailure(t) && t@
                == "Failed to parse latitude: "@ + k.spec_message(),
            _ => false,
        },
{
    match parse_coordinate(raw, 'S') {
        Ok(c) => Ok(c),
        Err(k) => Err(parse_failure_with("Failed to parse latitude: ", k.message())),
    }
}

fn parse_lon(raw: &str) -> (r: Result<Coordinate, DataRecordParsingError>)
    ensures
        match (r, spec_coordinate(raw@, 'W')) {
            (Ok(c), Ok(p)) => c.view_pair() == p,
            (Err(e), Err(k)) => e matches DataRecordParsingError::ParseFailure(t) && t@
                == "Failed to parse longitude: "@ + k.spec_message(),
            _ => false,
        },
{
    match parse_coordinate(raw, 'W') {
        Ok(c) => Ok(c),
        Err(k) => Err(parse_failure_with("Failed to parse longitude: ", k.message())),
    }
}

/// Whether group `i` took part in the match, as `Captures::get(i)`.
fn group_at(g: &Vec<Option<String>>, i: usize) -> (r: Option<&String>)
    ensures
        r is Some <==> group_present(opt_views(g@), i as int),
        r matches Some(t) ==> t@ == group(opt_views(g@), i as int),
{
    if i < g.len() {
        match &g[i] {
            Some(t) => Some(t),
            None => None,
        }
    } else {
        None
    }
}

fn parse_u32_str(s: &str) -> (r: Option<u32>)
    ensures
        match u32_result(s@) {
            Ok(v) => r matches Some(x) && x == v,
            Err(_) => r is None,
        },
{
    let chars = chars_of(s);
    proof {
        assert(chars@.subrange(0, chars.len() as int) =~= chars@);
    }
    match parse_int(&chars, 0, chars.len(), 0, u32::MAX as i64) {
        Ok(v) => Some(v as u32),
        Err(_) => None,
    }
}

fn parse_i32_str(s: &str) -> (r: Option<i32>)
    ensures
        match i32_result(s@) {
            Ok(v) => r matches Some(x) && x == v,
            Err(_) => r is None,
        },
{
    let chars = chars_of(s);
    proof {
        assert(chars@.subrange(0, chars.len() as int) =~= chars@);
    }
    match parse_int(&chars, 0, chars.len(), i32::MIN as i64, i32::MAX as i64) {
        Ok(v) => Some(v as i32),
        Err(_) => None,
    }
}

/// The location that a search with `location_pattern` found.
pub fn location_from_captures(caps: &Option<Vec<Option<String>>>) -> (r: Result<
    Location,
    DataRecordParsingError,
>)
    ensures
        match (
            r,
            spec_location(
                match caps {
                    Some(g) => Some(opt_views(g@)),
                    None => None,
                },
            ),
        ) {
            (Ok(loc), Ok(t)) => location_text(loc) == t,
            (Err(e), Err(m)) => e matches DataRecordParsingError::ParseFailure(t) && t@ == m,
            _ => false,
        },
{
    match caps {
        None => Err(parse_failure("Failed to capture location data from regex")),
        Some(g) => {
            let name = match group_at(g, 1) {
                Some(t) => trimmed(t.as_str()),
                None => {
                    return Err(parse_failure("Missing location name capture"));
                },
            };
            let latitude = match group_at(g, 2) {
                Some(t) => match parse_lat(t.as_str()) {
                    Ok(c) => c,
                    Err(e) => {
                        return Err(e);
                    },
                },
                None => {
                    return Err(parse_failure("Missing latitude capture"));
                },
            };
            let longitude = match group_at(g, 3) {
                Some(t) => match parse_lon(t.as_str()) {
                    Ok(c) => c,
                    Err(e) => {
                        return Err(e);
                    },
                },
                None => {
                    return Err(parse_failure("Missing longitude capture"));
                },
            };
            Ok(Location { name, latitude, longitude })
        },
    }
}

/// The model run that a search with `cycle_pattern` found.
pub fn cycle_from_captures(caps: &Option<Vec<Option<String>>>) -> (r: Result<
    UtcDateTime,
    DataRecordParsingError,
>)
    ensures
        match (
            r,
            spec_cycle(
                match caps {
                    Some(g) => Some(opt_views(g@)),
                    None => None,
                },
            ),
        ) {
            (Ok(d), Ok(t)) => d == t,
            (Err(e), Err(m)) => e matches DataRecordParsingError::ParseFailure(t) && t@ == m,
            _ => false,
        },
{
    match caps {
        None => Err(parse_failure("Failed to match cycle line")),
        Some(g) => {
            let year = match group_at(g, 1) {
                Some(t) => match parse_i32_str(t.as_str()) {
                    Some(v) => v,
                    None => {
                        return Err(parse_failure("Failed to parse cycle year"));
                    },
                },
                None => {
                    return Err(parse_failure("Missing cycle year capture"));
                },
            };
            let month = match group_at(g, 2) {
                Some(t) => match parse_u32_str(t.as_str()) {
                    Some(v) => v,
                    None => {
                        return Err(parse_failure("Failed to parse cycle month"));
                    },
                },
                None => {
                    return Err(parse_failure("Missing cycle month capture"));
                },
            };
            let day = match group_at(g, 3) {
                Some(t) => match parse_u32_str(t.as_str()) {
                    Some(v) => v,
                    None => {
                        return Err(parse_failure("Failed to parse cycle day"));
                    },
                },
                None => {
                    return Err(parse_failure("Missing cycle day capture"));
                },
            };
            let hour = match group_at(g, 4) {
                Some(t) => match parse_u32_str(t.as_str()) {
                    Some(v) => v,
                    None => {
                        return Err(parse_failure("Failed to parse cycle hour"));
                    },
                },
                None => {
                    return Err(parse_failure("Missing cycle hour capture"));
                },
            };
            match utc_datetime(year, month, day, hour, 0, 0) {
                Some(d) => Ok(d),
                None => Err(parse_failure("Invalid cycle date/time")),
            }
        },
    }
}

/// The text of the line at `span`, or the empty text.
fn line_text(chars: &Vec<char>, span: Option<(usize, usize)>) -> (s: String)
    requires
        span matches Some(sp) ==> sp.0 <= sp.1 <= chars.len(),
    ensures
        s@ == match span {
            Some(sp) => chars@.subrange(sp.0 as int, sp.1 as int),
            None => Seq::empty(),
        },
{
    match span {
        Some((a, b)) => substring(chars, a, b),
        None => String::new(),
    }
}

impl GEFSBulletinWaveRecordMetadata {
    /// Reads the header of a bulletin; see `spec_metadata`.
    pub fn from_text(s: &str) -> (r: Result<Self, DataRecordParsingError>)
        ensures
            match (r, spec_metadata(s@)) {
                (Ok(m), Ok((loc, run))) => location_text(m.location) == loc && m.model_run_date
                    == run,
                (Err(e), Err(msg)) => e matches DataRecordParsingError::ParseFailure(t) && t@
                    == msg,
                _ => false,
            },
    {
        let chars = chars_of(s);
        // The location line is searched for after the pattern compiles: with
        // no such line, the search of the empty text only checks that.
        let loc_span = find_line_with(&chars, "Location");
        let loc_line = line_text(&chars, loc_span);
        let caps = match regex_captures(
            "Location\\s*:\\s*(.{0,10}?)\\s*\\(\\s*([+-]?[0-9]*\\.?[0-9]+[NS])\\s+([+-]?[0-9]*\\.?[0-9]+[EW])\\)",
            loc_line.as_str(),
        ) {
            Ok(c) => c,
            Err(e) => {
                return Err(parse_failure_with("Failed to create location regex: ", e.as_str()));
            },
        };
        if loc_span.is_none() {
            return Err(parse_failure("Invalid data for location metadata"));
        }
        let location = match location_from_captures(&caps) {
            Ok(l) => l,
            Err(e) => {
                return Err(e);
            },
        };
        let cycle_span = find_line_with(&chars, "Cycle");
        let cycle_line = line_text(&chars, cycle_span);
        let caps2 = match regex_captures(
            "Cycle\\s*:\\s*([0-9]{4})([0-9]{2})([0-9]{2})\\s+t([0-9]{2})z",
            cycle_line.as_str(),
        ) {
            Ok(c) => c,
            Err(e) => {
                return Err(parse_failure_with("Failed to create cycle regex: ", e.as_str()));
            },
        };
        if cycle_span.is_none() {
            return Err(parse_failure("Missing cycle line"));
        }
        let model_run_date = match cycle_from_captures(&caps2) {
            Ok(d) => d,
            Err(e) => {
                return Err(e);
            },
        };
        Ok(GEFSBulletinWaveRecordMetadata { location, model_run_date })
    }
}

#[derive(Clone, Debug)]
pub struct GEFSBulletinWaveRecord {
    pub date: UtcDateTime,
    pub significant_wave_height_avg: DimensionalData<String>,
    pub significant_wave_height_spread: DimensionalData<String>,
    pub peak_period_avg: DimensionalData<String>,
    pub peak_period_spread: DimensionalData<String>,
    pub wind_speed_avg: DimensionalData<String>,
    pub wind_speed_spread: DimensionalData<String>,
    pub prob_hs_gt_1m: String,
    pub prob_hs_gt_2m: String,
    pub prob_hs_gt_3m: String,
    pub prob_hs_gt_5_5m: String,
    pub prob_hs_gt_7m: String,
    pub prob_hs_gt_9m: String,
}

/// The date of a row of a bulletin from the run `run`: its first column is
/// `DD HH`, in the run's month unless the day is before the run's, then in
/// the next month. `Err(None)` is a row read without the header.
pub open spec fn spec_bulletin_date(row: Seq<Seq<char>>, run: Option<UtcDateTime>) -> Result<
    UtcDateTime,
    Option<Seq<char>>,
> {
    if row.len() < 13 {
        Err(Some("Expected 13 columns, got "@ + decimal(row.len())))
    } else {
        let dh = split_ws(row[0]);
        if dh.len() < 2 {
            Err(Some("Failed to parse day/hour column"@))
        } else {
            match (u32_result(dh[0]), u32_result(dh[1]), run) {
                (Err(_), _, _) => Err(Some("Failed to parse day"@)),
                (Ok(_), Err(_), _) => Err(Some("Failed to parse hour"@)),
                (Ok(_), Ok(_), None) => Err(None),
                (Ok(d), Ok(h), Some(r)) => {
                    let month = if r.day > d {
                        r.month + 1
                    } else {
                        r.month as int
                    };
                    if valid_civil(r.year as int, month, d, h, 0, 0) {
                        Ok(
                            UtcDateTime {
                                year: r.year,
                                month: month as u32,
                                day: d as u32,
                                hour: h as u32,
                                minute: 0,
                                second: 0,
                            },
                        )
                    } else {
                        Err(Some("Invalid forecast date/time"@))
                    }
                },
            }
        }
    }
}

/// The first of the probability columns `i..13` that is not a float.
pub open spec fn first_float_error(row: Seq<Seq<char>>, i: int) -> Option<FloatErrorKind>
    decreases 13 - i,
{
    if i >= 13 {
        None
    } else {
        match float_result(trim(row[i])) {
            Err(k) => Some(k),
            Ok(_) => first_float_error(row, i + 1),
        }
    }
}

/// What a row gives: its date, or the failure (`None` for a row read
/// without the header, else the message).
pub open spec fn spec_bulletin_row(row: Seq<Seq<char>>, run: Option<UtcDateTime>) -> Result<
    UtcDateTime,
    Option<Seq<char>>,
> {
    match spec_bulletin_date(row, run) {
        Err(e) => Err(e),
        Ok(d) => match first_float_error(row, 7) {
            Some(k) => Err(Some("Float parse: "@ + k.spec_message())),
            None => Ok(d),
        },
    }
}

/// `rec` is what a row that parses gives.
pub open spec fn bulletin_record_of_row(
    rec: GEFSBulletinWaveRecord,
    row: Seq<Seq<char>>,
    run: Option<UtcDateTime>,
) -> bool {
    &&& spec_bulletin_row(row, run) == Ok::<UtcDateTime, Option<Seq<char>>>(rec.date)
    &&& reads_float(
        rec.significant_wave_height_avg,
        trim(row[1]),
        "significant wave height avg"@,
        Unit::Meters,
    )
    &&& reads_float(
        rec.significant_wave_height_spread,
        trim(row[2]),
        "significant wave height spread"@,
        Unit::Meters,
    )
    &&& reads_float(rec.peak_period_avg, trim(row[3]), "peak period avg"@, Unit::Seconds)
    &&& reads_float(rec.peak_period_spread, trim(row[4]), "peak period spread"@, Unit::Seconds)
    &&& reads_float(rec.wind_speed_avg, trim(row[5]), "wind speed avg"@, Unit::MetersPerSecond)
    &&& reads_float(
        rec.wind_speed_spread,
        trim(row[6]),
        "wind speed spread"@,
        Unit::MetersPerSecond,
    )
    &&& rec.prob_hs_gt_1m@ == trim(row[7])
    &&& rec.prob_hs_gt_2m@ == trim(row[8])
    &&& rec.prob_hs_gt_3m@ == trim(row[9])
    &&& rec.prob_hs_gt_5_5m@ == trim(row[10])
    &&& rec.prob_hs_gt_7m@ == trim(row[11])
    &&& rec.prob_hs_gt_9m@ == trim(row[12])
}

fn column_float(raw: &str, name: &str, unit: Unit) -> (d: DimensionalData<String>)
    ensures
        reads_float(d, trim(raw@), name@, unit),
{
    let t = trimmed(raw);
    let mut n = String::new();
    push_str(&mut n, name);
    DimensionalData::<String>::from_raw_data(t.as_str(), n, unit)
}

/// The trimmed text of a probability column, when it is a float.
fn probability(raw: &str) -> (r: Result<String, DataRecordParsingError>)
    ensures
        match (r, float_result(trim(raw@))) {
            (Ok(t), Ok(_)) => t@ == trim(raw@),
            (Err(e), Err(k)) => e matches DataRecordParsingError::ParseFailure(t) && t@
                == "Float parse: "@ + k.spec_message(),
            _ => false,
        },
{
    let t = trimmed(raw);
    let chars = chars_of(t.as_str());
    proof {
        assert(chars@.subrange(0, chars.len() as int) =~= chars@);
    }
    match check_float(&chars, 0, chars.len()) {
        Ok(()) => Ok(t),
        Err(k) => Err(parse_failure_with("Float parse: ", k.message())),
    }
}

impl ParseableDataRecord for GEFSBulletinWaveRecord {
    type Metadata = GEFSBulletinWaveRecordMetadata;

    open spec fn row_readable(row: Seq<Seq<char>>) -> bool {
        true
    }

    /// Reads a row with the header of its bulletin; see `spec_bulletin_row`.
    fn from_data_row(metadata: Option<&GEFSBulletinWaveRecordMetadata>, row: &Vec<&str>) -> (r:
        Result<GEFSBulletinWaveRecord, DataRecordParsingError>)
        ensures
            ({
                let run = match metadata {
                    Some(m) => Some(m.model_run_date),
                    None => None,
                };
                match r {
                    Ok(rec) => bulletin_record_of_row(rec, row_text(row@), run),
                    Err(e) => match spec_bulletin_row(row_text(row@), run) {
                        Err(None) => e matches DataRecordParsingError::InvalidData,
                        Err(Some(m)) => e matches DataRecordParsingError::ParseFailure(t) && t@
                            == m,
                        Ok(_) => false,
                    },
                }
            }),
    {
        let ghost text = row_text(row@);
        let ghost run = match metadata {
            Some(m) => Some(m.model_run_date),
            None => None,
        };
        if row.len() < 13 {
            let mut t = String::new();
            push_str(&mut t, "Expected 13 columns, got ");
            push_decimal(&mut t, row.len() as u64);
            return Err(DataRecordParsingError::ParseFailure(t));
        }
        proof {
            assert forall|i: int| 0 <= i < row.len() implies #[trigger] text[i] == row@[i]@ by {}
        }
        let first = chars_of(row[0]);
        let day_hour = words_of(&first, 0, first.len());
        proof {
            assert(first@.subrange(0, first.len() as int) =~= first@);
        }
        if day_hour.len() < 2 {
            return Err(parse_failure("Failed to parse day/hour column"));
        }
        proof {
            assert(day_hour@[0]@ == string_views(day_hour@)[0]);
            assert(day_hour@[1]@ == string_views(day_hour@)[1]);
        }
        let day = match parse_u32_str(day_hour[0].as_str()) {
            Some(v) => v,
            None => {
                return Err(parse_failure("Failed to parse day"));
            },
        };
        let hour = match parse_u32_str(day_hour[1].as_str()) {
            Some(v) => v,
            None => {
                return Err(parse_failure("Failed to parse hour"));
            },
        };
        let model_date = match metadata {
            Some(m) => m.model_run_date,
            None => {
                return Err(DataRecordParsingError::InvalidData);
            },
        };
        let month: u64 = if model_date.day > day {
            model_date.month as u64 + 1
        } else {
            model_date.month as u64
        };
        if month > 12 {
            return Err(parse_failure("Invalid forecast date/time"));
        }
        let date = match utc_datetime(model_date.year, month as u32, day, hour, 0, 0) {
            Some(d) => d,
            None => {
                return Err(parse_failure("Invalid forecast date/time"));
            },
        };
        proof {
            assert(spec_bulletin_date(text, run) == Ok::<UtcDateTime, Option<Seq<char>>>(date));
            reveal_with_fuel(first_float_error, 7);
        }
        let significant_wave_height_avg = column_float(
            row[1],
            "significant wave height avg",
            Unit::Meters,
        );
        let significant_wave_height_spread = column_float(
            row[2],
            "significant wave height spread",
            Unit::Meters,
        );
        let peak_period_avg = column_float(row[3], "peak period avg", Unit::Seconds);
        let peak_period_spread = column_float(row[4], "peak period spread", Unit::Seconds);
        let wind_speed_avg = column_float(row[5], "wind speed avg", Unit::MetersPerSecond);
        let wind_speed_spread = column_float(row[6], "wind speed spread", Unit::MetersPerSecond);
        let prob_hs_gt_1m = match probability(row[7]) {
            Ok(t) => t,
            Err(e) => {
                return Err(e);
            },
        };
        let prob_hs_gt_2m = match probability(row[8]) {
            Ok(t) => t,
            Err(e) => {
                return Err(e);
            },
        };
        let prob_hs_gt_3m = match probability(row[9]) {
            Ok(t) => t,
            Err(e) => {
                return Err(e);
            },
        };
        let prob_hs_gt_5_5m = match probability(row[10]) {
            Ok(t) => t,
            Err(e) => {
                return Err(e);
            },
        };
        let prob_hs_gt_7m = match probability(row[11]) {
            Ok(t) => t,
            Err(e) => {
                return Err(e);
            },
        };
        let prob_hs_gt_9m = match probability(row[12]) {
            Ok(t) => t,
            Err(e) => {
                return Err(e);
            },
        };
        Ok(
            GEFSBulletinWaveRecord {
                date,
                significant_wave_height_avg,
                significant_wave_height_spread,
                peak_period_avg,
                peak_period_spread,
                wind_speed_avg,
                wind_speed_spread,
                prob_hs_gt_1m,
                prob_hs_gt_2m,
                prob_hs_gt_3m,
                prob_hs_gt_5_5m,
                prob_hs_gt_7m,
                prob_hs_gt_9m,
            },
        )
    }
}

/// A table row with data: the trimmed line starts with `|`, and its first
/// cell is not empty, names neither `day` nor `hour`, and starts with a
/// digit.
pub open spec fn is_bulletin_row(line: Seq<char>) -> bool {
    let t = trim(line);
    let pieces = split_on(t, '|');
    let first = if pieces.len() > 1 {
        trim(pieces[1])
    } else {
        Seq::empty()
    };
    &&& t.len() > 0
    &&& t[0] == '|'
    &&& first.len() > 0
    &&& !has_substring(first, "day"@)
    &&& !has_substring(first, "hour"@)
    &&& is_digit(first[0])
}

/// Returns true for pipe-delimited data rows (not separators or header rows).
fn is_data_row(line: &str) -> (b: bool)
    ensures
        b == is_bulletin_row(line@),
{
    let chars = chars_of(line);
    let (a, e) = trim_bounds(&chars, 0, chars.len());
    proof {
        assert(chars@.subrange(0, chars.len() as int) =~= chars@);
    }
    if a == e || chars[a] != '|' {
        return false;
    }
    let pieces = split_spans(&chars, a, e, '|');
    if pieces.len() <= 1 {
        return false;
    }
    let (p, q) = pieces[1];
    let (fa, fe) = trim_bounds(&chars, p, q);
    if fa == fe {
        return false;
    }
    let first = sub_chars_of(&chars, fa, fe);
    if contains(&first, &chars_of("day")) || contains(&first, &chars_of("hour")) {
        return false;
    }
    '0' <= chars[fa] && chars[fa] <= '9'
}

fn sub_chars_of(chars: &Vec<char>, a: usize, b: usize) -> (out: Vec<char>)
    requires
        a <= b <= chars.len(),
    ensures
        out@ == chars@.subrange(a as int, b as int),
{
    crate::text::sub_chars(chars, a, b)
}

/// The trimmed pieces of `pieces` that are not empty.
pub open spec fn nonempty_trimmed(pieces: Seq<Seq<char>>) -> Seq<Seq<char>>
    decreases pieces.len(),
{
    if pieces.len() == 0 {
        Seq::empty()
    } else {
        let rest = nonempty_trimmed(pieces.drop_last());
        let t = trim(pieces.last());
        if t.len() > 0 {
            rest.push(t)
        } else {
            rest
        }
    }
}

/// The cells of a table row.
pub open spec fn bulletin_cells(line: Seq<char>) -> Seq<Seq<char>> {
    nonempty_trimmed(split_on(line, '|'))
}

/// The cells of `chars[a..b]`, each as an owned string.
fn cells_of(chars: &Vec<char>, a: usize, b: usize) -> (cells: Vec<String>)
    requires
        a <= b <= chars.len(),
    ensures
        string_views(cells@) == bulletin_cells(chars@.subrange(a as int, b as int)),
{
    let spans = split_spans(chars, a, b, '|');
    let ghost pieces = split_on(chars@.subrange(a as int, b as int), '|');
    let mut cells: Vec<String> = Vec::new();
    let mut i: usize = 0;
    while i < spans.len()
        invariant
            i <= spans.len() == pieces.len(),
            a <= b <= chars.len(),
            pieces == split_on(chars@.subrange(a as int, b as int), '|'),
            forall|k: int|
                0 <= k < spans.len() ==> a <= (#[trigger] spans@[k]).0 <= spans@[k].1 <= b
                    && chars@.subrange(spans@[k].0 as int, spans@[k].1 as int) == pieces[k],
            string_views(cells@) == nonempty_trimmed(pieces.take(i as int)),
        decreases spans.len() - i,
    {
        let (p, q) = spans[i];
        let (ta, tb) = trim_bounds(chars, p, q);
        proof {
            assert(pieces.take(i + 1).drop_last() =~= pieces.take(i as int));
            assert(pieces.take(i + 1).last() == pieces[i as int]);
        }
        if ta < tb {
            let ghost before = cells@;
            cells.push(substring(chars, ta, tb));
            proof {
                assert(string_views(cells@) =~= string_views(before).push(
                    chars@.subrange(ta as int, tb as int),
                ));
            }
        }
        i += 1;
    }
    proof {
        assert(pieces.take(i as int) =~= pieces);
    }
    cells
}

/// The cells of the data rows among `ls`, in order.
pub open spec fn bulletin_rows(ls: Seq<Seq<char>>) -> Seq<Seq<Seq<char>>>
    decreases ls.len(),
{
    if ls.len() == 0 {
        Seq::empty()
    } else {
        let rest = bulletin_rows(ls.drop_last());
        if is_bulletin_row(ls.last()) {
            rest.push(bulletin_cells(ls.last()))
        } else {
            rest
        }
    }
}

/// `recs` are the records of the rows that parse with the run `run`, in
/// order; rows that do not parse are passed over.
pub open spec fn bulletin_records_match(
    recs: Seq<GEFSBulletinWaveRecord>,
    rows: Seq<Seq<Seq<char>>>,
    run: UtcDateTime,
) -> bool
    decreases rows.len(),
{
    if rows.len() == 0 {
        recs.len() == 0
    } else if spec_bulletin_row(rows.last(), Some(run)) is Ok {
        &&& recs.len() > 0
        &&& bulletin_record_of_row(recs.last(), rows.last(), Some(run))
        &&& bulletin_records_match(recs.drop_last(), rows.drop_last(), run)
    } else {
        bulletin_records_match(recs, rows.drop_last(), run)
    }
}

pub struct GEFSBulletinWaveRecordCollection<'a> {
    data: &'a str,
}

impl<'a> GEFSBulletinWaveRecordCollection<'a> {
    /// The text the records are read from.
    pub closed spec fn text(&self) -> Seq<char> {
        self.data@
    }

    pub fn from_data(data: &'a str) -> (c: Self)
        ensures
            c.text() == data@,
    {
        GEFSBulletinWaveRecordCollection { data }
    }

    /// The header, and the records of the table rows that parse, in order.
    pub fn records(&self) -> (r: Result<
        (GEFSBulletinWaveRecordMetadata, Vec<GEFSBulletinWaveRecord>),
        DataRecordParsingError,
    >)
        ensures
            match (r, spec_metadata(self.text())) {
                (Ok((m, recs)), Ok((loc, run))) => {
                    &&& location_text(m.location) == loc
                    &&& m.model_run_date == run
                    &&& bulletin_records_match(recs@, bulletin_rows(lines(self.text())), run)
                },
                (Err(e), Err(msg)) => e matches DataRecordParsingError::ParseFailure(t) && t@
                    == msg,
                _ => false,
            },
    {
        let metadata = match GEFSBulletinWaveRecordMetadata::from_text(self.data) {
            Ok(m) => m,
            Err(e) => {
                return Err(e);
            },
        };
        let chars = chars_of(self.data);
        let spans = line_spans(&chars);
        let ghost ls = lines(chars@);
        let ghost run = metadata.model_run_date;
        let mut recs: Vec<GEFSBulletinWaveRecord> = Vec::new();
        let mut i: usize = 0;
        while i < spans.len()
            invariant
                i <= spans.len() == ls.len(),
                ls == lines(chars@),
                run == metadata.model_run_date,
                forall|k: int|
                    0 <= k < spans.len() ==> (#[trigger] spans@[k]).0 <= spans@[k].1 <= chars.len()
                        && chars@.subrange(spans@[k].0 as int, spans@[k].1 as int) == ls[k],
                bulletin_records_match(recs@, bulletin_rows(ls.take(i as int)), run),
            decreases spans.len() - i,
        {
            let (a, b) = spans[i];
            let line = substring(&chars, a, b);
            let ghost l = ls[i as int];
            let ghost rows_before = bulletin_rows(ls.take(i as int));
            proof {
                assert(ls.take(i + 1).drop_last() =~= ls.take(i as int));
                assert(ls.take(i + 1).last() == l);
                if is_bulletin_row(l) {
                    assert(bulletin_rows(ls.take(i + 1)) == rows_before.push(bulletin_cells(l)));
                    assert(rows_before.push(bulletin_cells(l)).drop_last() =~= rows_before);
                } else {
                    assert(bulletin_rows(ls.take(i + 1)) == rows_before);
                }
            }
            if is_data_row(line.as_str()) {
                let cells = cells_of(&chars, a, b);
                let cols = str_refs(&cells);
                match GEFSBulletinWaveRecord::from_data_row(Some(&metadata), &cols) {
                    Ok(rec) => {
                        let ghost before = recs@;
                        recs.push(rec);
                        proof {
                            assert(recs@.drop_last() =~= before);
                        }
                    },
                    Err(_) => {},
                }
            }
            i += 1;
        }
        proof {
            assert(ls.take(i as int) =~= ls);
        }
        Ok((metadata, recs))
    }
}

proof fn lemma_blank_line_first(s: Seq<char>)
    ensures
        lines(seq!['\n'] + s) == seq![Seq::<char>::empty()] + lines(s),
{
    let t = seq!['\n'] + s;
    assert(t[0] == '\n');
    assert(crate::text::find_newline(t) == 0);
    assert(t.take(0) =~= Seq::<char>::empty());
    assert(crate::text::strip_cr(Seq::<char>::empty()) =~= Seq::<char>::empty());
    assert(t.skip(1) =~= s);
}

proof fn lemma_rows_skip_first(x: Seq<char>, ls: Seq<Seq<char>>)
    requires
        !is_bulletin_row(x),
    ensures
        bulletin_rows(seq![x] + ls) == bulletin_rows(ls),
    decreases ls.len(),
{
    if ls.len() == 0 {
        assert((seq![x] + ls).drop_last() =~= Seq::<Seq<char>>::empty());
        assert(bulletin_rows(seq![x] + ls) == bulletin_rows(Seq::<Seq<char>>::empty()));
    } else {
        assert((seq![x] + ls).drop_last() =~= seq![x] + ls.drop_last());
        assert((seq![x] + ls).last() == ls.last());
        lemma_rows_skip_first(x, ls.drop_last());
    }
}

/// A bulletin read with a blank line before it reads as the bulletin
/// itself: the same header, or the same failure, and the same table rows.
pub proof fn lemma_leading_blank_line(s: Seq<char>)
    ensures
        spec_metadata(seq!['\n'] + s) == spec_metadata(s),
        bulletin_rows(lines(seq!['\n'] + s)) == bulletin_rows(lines(s)),
{
    lemma_blank_line_first(s);
    let ls = lines(s);
    let blank = Seq::<char>::empty();
    reveal_strlit("Location");
    reveal_strlit("Cycle");
    assert(!has_substring(blank, "Location"@));
    assert(!has_substring(blank, "Cycle"@));
    assert((seq![blank] + ls).drop_first() =~= ls);
    assert(first_line_with(seq![blank] + ls, "Location"@) == first_line_with(ls, "Location"@));
    assert(first_line_with(seq![blank] + ls, "Cycle"@) == first_line_with(ls, "Cycle"@));
    assert(trim(blank).len() == 0);
    assert(!is_bulletin_row(blank));
    lemma_rows_skip_first(blank, ls);
}

} // verus!
