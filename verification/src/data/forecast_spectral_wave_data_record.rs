//! WAVEWATCH III point spectra files: a header line with the number of
//! frequencies, directions and points, then the frequencies and directions
//! as whitespace separated floats over as many lines as they take, then
//! one block per point and output time.

use vstd::prelude::*;
use vstd::utf8::{encode_utf8, is_char_boundary};

use crate::data::gefs_bulletin_wave_data_record::{group, group_present};
use crate::data::parseable_data_record::{parse_failure, parse_failure_with, DataRecordParsingError};
use crate::dimensional_data::DimensionalData;
use crate::units::Unit;
use crate::pattern::{opt_views, regex_captures, regex_search};
use crate::time::{utc_datetime, valid_civil, UtcDateTime};
use crate::text::{
    bytes_as_chars, copy_string, latin1, chars_of, check_float, float_result, int_result, line_spans, lines,
    parse_int, parse_uint, split_ws, push_str, string_views, substring, words_of, IntErrorKind,
};

verus! {

/// The grid of a spectra file. Frequencies are in Hz and directions in
/// radians, each held as the float text it was read as; `line_count` is
/// the number of lines the header takes.
#[derive(Clone, Debug)]
pub struct ForecastSpectralWaveDataRecordMetadata {
    pub frequency: Vec<String>,
    pub direction: Vec<String>,
    pub point_count: usize,
    pub line_count: usize,
}

/// The first line of a spectra file, with the three counts.
pub open spec fn header_pattern() -> Seq<char> {
    "'WAVEWATCH III SPECTRA'\\s*([0-9]{0,2})\\s*([0-9]{0,2})\\s*([0-9]{0,2})"@
}

/// Rust's `usize` `from_str` on `s`.
pub open spec fn usize_result(s: Seq<char>) -> Result<int, IntErrorKind> {
    int_result(s, 0, usize::MAX as int)
}

/// Count `i` of a header match, named `what` in failures.
pub open spec fn spec_count(g: Seq<Option<Seq<char>>>, i: int, what: Seq<char>) -> Result<
    int,
    Seq<char>,
> {
    if !group_present(g, i) {
        Err("Failed to parse "@ + what + " count"@)
    } else {
        match usize_result(group(g, i)) {
            Err(k) => Err("Failed to parse "@ + what + " count: "@ + k.spec_message()),
            Ok(v) => Ok(v),
        }
    }
}

/// The frequency, direction and point counts of a header match.
pub open spec fn spec_counts(caps: Option<Seq<Option<Seq<char>>>>) -> Result<
    (int, int, int),
    Seq<char>,
> {
    match caps {
        None => Err("Invalid data for header metadata"@),
        Some(g) => match spec_count(g, 1, "frequency"@) {
            Err(m) => Err(m),
            Ok(f) => match spec_count(g, 2, "direction"@) {
                Err(m) => Err(m),
                Ok(d) => match spec_count(g, 3, "point"@) {
                    Err(m) => Err(m),
                    Ok(p) => Ok((f, d, p)),
                },
            },
        },
    }
}

/// `acc` followed by the tokens of `tokens` that are floats, taken in
/// order while fewer than `count` are held; the others are passed over.
pub open spec fn take_floats(tokens: Seq<Seq<char>>, count: int, acc: Seq<Seq<char>>) -> Seq<
    Seq<char>,
>
    decreases tokens.len(),
{
    if tokens.len() == 0 {
        acc
    } else {
        let next = if acc.len() < count && float_result(tokens[0]) is Ok {
            acc.push(tokens[0])
        } else {
            acc
        };
        take_floats(tokens.drop_first(), count, next)
    }
}

/// Reads lines from `ls[idx]` on until `count` floats are held: the floats
/// and the index of the next line, or none when the lines run out first.
pub open spec fn read_floats(ls: Seq<Seq<char>>, idx: int, count: int, acc: Seq<Seq<char>>) -> Option<
    (Seq<Seq<char>>, int),
>
    decreases ls.len() - idx,
{
    if acc.len() >= count {
        Some((acc, idx))
    } else if idx < 0 || idx >= ls.len() {
        None
    } else {
        read_floats(ls, idx + 1, count, take_floats(split_ws(ls[idx]), count, acc))
    }
}

/// The grid of a spectra file: frequencies, directions, point count and
/// header length, or the message of the first failure.
pub open spec fn spec_spectra_metadata(s: Seq<char>) -> Result<
    (Seq<Seq<char>>, Seq<Seq<char>>, int, int),
    Seq<char>,
> {
    let ls = lines(s);
    let header = if ls.len() > 0 {
        ls[0]
    } else {
        Seq::empty()
    };
    match regex_search(header_pattern(), header) {
        Err(m) => Err("Failed to create metadata header regex: "@ + m),
        Ok(caps) => if ls.len() == 0 {
            Err("Invalid data for header metadata"@)
        } else {
            match spec_counts(caps) {
                Err(m) => Err(m),
                Ok((fc, dc, pc)) => match read_floats(ls, 1, fc, Seq::empty()) {
                    None => Err("Invalid data for frequency metadata"@),
                    Some((freq, i)) => match read_floats(ls, i, dc, Seq::empty()) {
                        None => Err("Invalid data for direction metadata"@),
                        Some((dir, j)) => Ok((freq, dir, pc, j)),
                    },
                },
            }
        },
    }
}

/// Count `i` of a header match, as `usize`.
fn header_count(g: &Vec<Option<String>>, i: usize, what: &str) -> (r: Result<
    usize,
    DataRecordParsingError,
>)
    ensures
        match (r, spec_count(opt_views(g@), i as int, what@)) {
            (Ok(v), Ok(w)) => v == w,
            (Err(e), Err(m)) => e matches DataRecordParsingError::ParseFailure(t) && t@ == m,
            _ => false,
        },
{
    let ghost gv = opt_views(g@);
    if i >= g.len() || g[i].is_none() {
        let mut t = String::new();
        push_str(&mut t, "Failed to parse ");
        push_str(&mut t, what);
        push_str(&mut t, " count");
        proof {
            assert(!group_present(gv, i as int));
        }
        return Err(DataRecordParsingError::ParseFailure(t));
    }
    let text = match &g[i] {
        Some(t) => t,
        None => {
            return Err(DataRecordParsingError::InvalidData);
        },
    };
    proof {
        assert(group_present(gv, i as int));
        assert(group(gv, i as int) == text@);
    }
    let chars = chars_of(text.as_str());
    proof {
        assert(chars@.subrange(0, chars.len() as int) =~= chars@);
    }
    match parse_uint(&chars, 0, chars.len(), usize::MAX as u64) {
        Ok(v) => Ok(v as usize),
        Err(k) => {
            let mut t = String::new();
            push_str(&mut t, "Failed to parse ");
            push_str(&mut t, what);
            push_str(&mut t, " count: ");
            push_str(&mut t, k.message());
            Err(DataRecordParsingError::ParseFailure(t))
        },
    }
}

/// The frequency, direction and point counts that a search of the header
/// line with `header_pattern` found; see `spec_counts`.
pub fn header_counts(caps: &Option<Vec<Option<String>>>) -> (r: Result<
    (usize, usize, usize),
    DataRecordParsingError,
>)
    ensures
        match (
            r,
            spec_counts(
                match caps {
                    Some(g) => Some(opt_views(g@)),
                    None => None,
                },
            ),
        ) {
            (Ok((f, d, p)), Ok((wf, wd, wp))) => f == wf && d == wd && p == wp,
            (Err(e), Err(m)) => e matches DataRecordParsingError::ParseFailure(t) && t@ == m,
            _ => false,
        },
{
    let g = match caps {
        Some(g) => g,
        None => {
            return Err(parse_failure("Invalid data for header metadata"));
        },
    };
    let frequency_count = match header_count(g, 1, "frequency") {
        Ok(v) => v,
        Err(e) => {
            return Err(e);
        },
    };
    let direction_count = match header_count(g, 2, "direction") {
        Ok(v) => v,
        Err(e) => {
            return Err(e);
        },
    };
    let point_count = match header_count(g, 3, "point") {
        Ok(v) => v,
        Err(e) => {
            return Err(e);
        },
    };
    Ok((frequency_count, direction_count, point_count))
}

/// Reads lines from `spans[idx]` on, as `read_floats`.
fn collect_floats(chars: &Vec<char>, spans: &Vec<(usize, usize)>, idx: usize, count: usize) -> (r:
    Option<(Vec<String>, usize)>)
    requires
        idx <= spans.len(),
        forall|k: int|
            0 <= k < spans.len() ==> (#[trigger] spans@[k]).0 <= spans@[k].1 <= chars.len(),
    ensures
        match (
            r,
            read_floats(
                spans@.map_values(|sp: (usize, usize)| chars@.subrange(sp.0 as int, sp.1 as int)),
                idx as int,
                count as int,
                Seq::empty(),
            ),
        ) {
            (Some((v, j)), Some((w, k))) => string_views(v@) == w && j == k,
            (None, None) => true,
            _ => false,
        },
        r matches Some((v, j)) ==> j <= spans.len(),
{
    let ghost ls = spans@.map_values(|sp: (usize, usize)| chars@.subrange(sp.0 as int, sp.1 as int));
    let mut acc: Vec<String> = Vec::new();
    let mut i = idx;
    proof {
        assert(string_views(acc@) =~= Seq::<Seq<char>>::empty());
    }
    while acc.len() < count
        invariant
            idx <= i <= spans.len(),
            acc.len() <= count,
            ls == spans@.map_values(|sp: (usize, usize)| chars@.subrange(sp.0 as int, sp.1 as int)),
            forall|k: int|
                0 <= k < spans.len() ==> (#[trigger] spans@[k]).0 <= spans@[k].1 <= chars.len(),
            read_floats(ls, idx as int, count as int, Seq::empty()) == read_floats(
                ls,
                i as int,
                count as int,
                string_views(acc@),
            ),
        decreases spans.len() - i,
    {
        if i >= spans.len() {
            return None;
        }
        let (a, b) = spans[i];
        proof {
            assert(ls[i as int] == chars@.subrange(a as int, b as int));
        }
        let words = words_of(chars, a, b);
        let ghost tokens = string_views(words@);
        let ghost before = string_views(acc@);
        let mut t: usize = 0;
        proof {
            assert(tokens.skip(0) =~= tokens);
        }
        while t < words.len()
            invariant
                t <= words.len(),
                acc.len() <= count,
                tokens == string_views(words@),
                take_floats(tokens, count as int, before) == take_floats(
                    tokens.skip(t as int),
                    count as int,
                    string_views(acc@),
                ),
            decreases words.len() - t,
        {
            let w = chars_of(words[t].as_str());
            proof {
                assert(w@.subrange(0, w.len() as int) =~= w@);
                assert(tokens.skip(t as int).drop_first() =~= tokens.skip(t + 1));
                assert(tokens.skip(t as int)[0] == words@[t as int]@);
            }
            if acc.len() < count {
                if check_float(&w, 0, w.len()).is_ok() {
                    let ghost old_acc = string_views(acc@);
                    acc.push(substring(&w, 0, w.len()));
                    proof {
                        assert(string_views(acc@) =~= old_acc.push(words@[t as int]@));
                    }
                }
            }
            t += 1;
        }
        proof {
            assert(tokens.skip(t as int).len() == 0);
        }
        i += 1;
    }
    Some((acc, i))
}

impl ForecastSpectralWaveDataRecordMetadata {
    /// Reads the header of a spectra file; see `spec_spectra_metadata`.
    pub fn from_text(s: &str) -> (r: Result<Self, DataRecordParsingError>)
        ensures
            match (r, spec_spectra_metadata(s@)) {
                (Ok(m), Ok((freq, dir, points, count))) => {
                    &&& string_views(m.frequency@) == freq
                    &&& string_views(m.direction@) == dir
                    &&& m.point_count == points
                    &&& m.line_count == count
                },
                (Err(e), Err(msg)) => e matches DataRecordParsingError::ParseFailure(t) && t@
                    == msg,
                _ => false,
            },
    {
        let chars = chars_of(s);
        let spans = line_spans(&chars);
        let ghost ls = lines(chars@);
        proof {
            assert(spans@.map_values(|sp: (usize, usize)| chars@.subrange(sp.0 as int, sp.1 as int))
                =~= ls);
        }
        let header = if spans.len() > 0 {
            substring(&chars, spans[0].0, spans[0].1)
        } else {
            String::new()
        };
        let caps = match regex_captures(
            "'WAVEWATCH III SPECTRA'\\s*([0-9]{0,2})\\s*([0-9]{0,2})\\s*([0-9]{0,2})",
            header.as_str(),
        ) {
            Ok(c) => c,
            Err(e) => {
                return Err(parse_failure_with("Failed to create metadata header regex: ", e.as_str()));
            },
        };
        if spans.len() == 0 {
            return Err(parse_failure("Invalid data for header metadata"));
        }
        let (frequency_count, direction_count, point_count) = match header_counts(&caps) {
            Ok(c) => c,
            Err(e) => {
                return Err(e);
            },
        };
        let (frequency, next) = match collect_floats(&chars, &spans, 1, frequency_count) {
            Some(r) => r,
            None => {
                return Err(parse_failure("Invalid data for frequency metadata"));
            },
        };
        let (direction, line_count) = match collect_floats(&chars, &spans, next, direction_count) {
            Some(r) => r,
            None => {
                return Err(parse_failure("Invalid data for direction metadata"));
            },
        };
        Ok(ForecastSpectralWaveDataRecordMetadata { frequency, direction, point_count, line_count })
    }
}

pub struct ForecastSpectralWaveDataRecordCollection<'a> {
    data: &'a str,
}

impl<'a> ForecastSpectralWaveDataRecordCollection<'a> {
    /// The text the records are read from.
    pub closed spec fn text(&self) -> Seq<char> {
        self.data@
    }

    pub fn from_data(data: &'a str) -> (c: Self)
        ensures
            c.text() == data@,
    {
        ForecastSpectralWaveDataRecordCollection { data }
    }

    /// The grid of the file the records are read from.
    pub fn metadata(&self) -> (r: Result<ForecastSpectralWaveDataRecordMetadata, DataRecordParsingError>)
        ensures
            match (r, spec_spectra_metadata(self.text())) {
                (Ok(m), Ok((freq, dir, points, count))) => {
                    &&& string_views(m.frequency@) == freq
                    &&& string_views(m.direction@) == dir
                    &&& m.point_count == points
                    &&& m.line_count == count
                },
                (Err(e), Err(msg)) => e matches DataRecordParsingError::ParseFailure(t) && t@
                    == msg,
                _ => false,
            },
    {
        ForecastSpectralWaveDataRecordMetadata::from_text(self.data)
    }
}

/// The point line of a record: a label, then latitude, longitude, depth,
/// wind speed and direction, current speed and direction.
pub open spec fn point_pattern() -> Seq<char> {
    ".{0,12}\\s*([+-]?[0-9]*[.]?[0-9]+)\\s*([+-]?[0-9]*[.]?[0-9]+)\\s*([+-]?[0-9]*[.]?[0-9]+)\\s*([+-]?[0-9]*[.]?[0-9]+)\\s*([+-]?[0-9]*[.]?[0-9]+)\\s*([+-]?[0-9]*[.]?[0-9]+)\\s*([+-]?[0-9]*[.]?[0-9]+)"@
}

/// Why reading a record stops: the lines ran out, a failure with its
/// message, or text that makes string slicing or the date panic.
pub enum SpectraStop {
    Eof,
    Failure(Seq<char>),
    Panic,
}

/// The name of point value `i` (1 to 7) in failures. (The current
/// direction is reported as the current speed.)
pub open spec fn point_value_name(i: int) -> Seq<char> {
    if i == 1 {
        "latitude"@
    } else if i == 2 {
        "longitude"@
    } else if i == 3 {
        "depth"@
    } else if i == 4 {
        "wind speed"@
    } else if i == 5 {
        "wind direction"@
    } else {
        "current speed"@
    }
}

/// The point values `i..=7` of a match, each a float, or why not.
pub open spec fn point_values(g: Seq<Option<Seq<char>>>, i: int) -> Result<Seq<Seq<char>>, SpectraStop>
    decreases 8 - i,
{
    if i > 7 || i < 1 {
        Ok(Seq::empty())
    } else if !group_present(g, i) {
        Err(SpectraStop::Failure("Failed to parse "@ + point_value_name(i)))
    } else {
        match float_result(group(g, i)) {
            Err(k) => Err(SpectraStop::Failure("Float: "@ + k.spec_message())),
            Ok(_) => match point_values(g, i + 1) {
                Err(e) => Err(e),
                Ok(rest) => Ok(seq![group(g, i)] + rest),
            },
        }
    }
}

/// The floats among `tokens`, in order.
pub open spec fn floats_among(tokens: Seq<Seq<char>>) -> Seq<Seq<char>>
    decreases tokens.len(),
{
    if tokens.len() == 0 {
        Seq::empty()
    } else {
        let rest = floats_among(tokens.drop_last());
        if float_result(tokens.last()) is Ok {
            rest.push(tokens.last())
        } else {
            rest
        }
    }
}

/// Reads whole lines from `ls[i]` on, keeping every float, until at least
/// `count` are held: the values and the next line, or none when the lines
/// run out first.
pub open spec fn energy_values(ls: Seq<Seq<char>>, i: int, count: int, acc: Seq<Seq<char>>) -> Option<
    (Seq<Seq<char>>, int),
>
    decreases ls.len() - i,
{
    if acc.len() >= count {
        Some((acc, i))
    } else if i < 0 || i >= ls.len() {
        None
    } else {
        energy_values(ls, i + 1, count, acc + floats_among(split_ws(ls[i])))
    }
}

/// One date field: the bytes `b[from..to]` as an integer in `[min, max]`,
/// or the failure named `what`, or a panic when the slice is out of the
/// text or cuts a character.
pub open spec fn date_field(b: Seq<u8>, from: int, to: int, min: int, max: int, what: Seq<char>) -> Result<
    int,
    SpectraStop,
> {
    if b.len() < to || !is_char_boundary(b, from) || !is_char_boundary(b, to) {
        Err(SpectraStop::Panic)
    } else {
        match int_result(latin1(b.subrange(from, to)), min, max) {
            Err(k) => Err(SpectraStop::Failure("Failed to parse "@ + what + ": "@ + k.spec_message())),
            Ok(v) => Ok(v),
        }
    }
}

/// The date line of a record: `YYYYMMDD HHMM` at fixed byte offsets.
pub open spec fn record_date(line: Seq<char>) -> Result<UtcDateTime, SpectraStop> {
    let b = encode_utf8(line);
    match date_field(b, 0, 4, i32::MIN as int, i32::MAX as int, "year"@) {
        Err(e) => Err(e),
        Ok(y) => match date_field(b, 4, 6, 0, u32::MAX as int, "month"@) {
            Err(e) => Err(e),
            Ok(mo) => match date_field(b, 6, 8, 0, u32::MAX as int, "day"@) {
                Err(e) => Err(e),
                Ok(d) => match date_field(b, 9, 11, 0, u32::MAX as int, "hour"@) {
                    Err(e) => Err(e),
                    Ok(h) => match date_field(b, 11, 13, 0, u32::MAX as int, "minute"@) {
                        Err(e) => Err(e),
                        Ok(mi) => if valid_civil(y, mo, d, h, mi, 0) {
                            Ok(
                                UtcDateTime {
                                    year: y as i32,
                                    month: mo as u32,
                                    day: d as u32,
                                    hour: h as u32,
                                    minute: mi as u32,
                                    second: 0,
                                },
                            )
                        } else {
                            Err(SpectraStop::Panic)
                        },
                    },
                },
            },
        },
    }
}

/// A record as read: its date, the reference (first) date, the seven
/// point values, and the energy values.
pub type SpectraRecordText = (UtcDateTime, UtcDateTime, Seq<Seq<char>>, Seq<Seq<char>>);

/// Reading one record from line `pos` with the first date `reference` so
/// far and `count` energy values per record: the outcome, the next line,
/// and the first date afterwards.
pub open spec fn spec_next_record(
    ls: Seq<Seq<char>>,
    pos: int,
    reference: Option<UtcDateTime>,
    count: int,
) -> (Result<SpectraRecordText, SpectraStop>, int, Option<UtcDateTime>) {
    if pos < 0 || pos >= ls.len() {
        (Err(SpectraStop::Eof), pos, reference)
    } else {
        match record_date(ls[pos]) {
            Err(e) => (Err(e), pos + 1, reference),
            Ok(date) => {
                let first = match reference {
                    Some(r) => r,
                    None => date,
                };
                if pos + 1 >= ls.len() {
                    (Err(SpectraStop::Eof), pos + 1, Some(first))
                } else {
                    match regex_search(point_pattern(), ls[pos + 1]) {
                        Err(m) => (Err(SpectraStop::Failure(m)), pos + 2, Some(first)),
                        Ok(None) => (
                            Err(SpectraStop::Failure("Invalid data for point data"@)),
                            pos + 2,
                            Some(first),
                        ),
                        Ok(Some(g)) => match point_values(g, 1) {
                            Err(e) => (Err(e), pos + 2, Some(first)),
                            Ok(point) => match energy_values(ls, pos + 2, count, Seq::empty()) {
                                None => (Err(SpectraStop::Eof), ls.len() as int, Some(first)),
                                Some((energy, next)) => (
                                    Ok((date, first, point, energy)),
                                    next,
                                    Some(first),
                                ),
                            },
                        },
                    }
                }
            },
        }
    }
}

/// A record of a spectra file. Its numbers are held as the float text
/// they were read as; `energy` is frequency-major within each direction.
#[derive(Clone, Debug)]
pub struct ForecastSpectralWaveDataRecord {
    pub date: UtcDateTime,
    pub reference_date: UtcDateTime,
    pub latitude: String,
    pub longitude: String,
    pub depth: DimensionalData<String>,
    pub wind_speed: DimensionalData<String>,
    pub wind_direction: DimensionalData<String>,
    pub current_speed: DimensionalData<String>,
    pub current_direction: DimensionalData<String>,
    pub energy: Vec<String>,
    /// The frequencies of the file's header.
    pub frequency: Vec<String>,
    /// The directions of the file's header.
    pub direction: Vec<String>,
}

/// `rec` holds the frequencies `freq` and directions `dir`.
pub open spec fn on_grid(rec: ForecastSpectralWaveDataRecord, freq: Seq<Seq<char>>, dir: Seq<Seq<char>>) -> bool {
    &&& string_views(rec.frequency@) == freq
    &&& string_views(rec.direction@) == dir
}

/// `d` holds `text` under `name` in `unit`.
pub open spec fn holds(d: DimensionalData<String>, text: Seq<char>, name: Seq<char>, unit: Unit) -> bool {
    &&& d.value matches Some(t) && t@ == text
    &&& d.variable_name@ == name
    &&& d.unit == unit
}

/// `rec` is the record `t` as read.
pub open spec fn record_is(rec: ForecastSpectralWaveDataRecord, t: SpectraRecordText) -> bool {
    &&& t.2.len() == 7
    &&& rec.date == t.0
    &&& rec.reference_date == t.1
    &&& rec.latitude@ == t.2[0]
    &&& rec.longitude@ == t.2[1]
    &&& holds(rec.depth, t.2[2], "depth"@, Unit::Meters)
    &&& holds(rec.wind_speed, t.2[3], "wind speed"@, Unit::MetersPerSecond)
    &&& holds(rec.wind_direction, t.2[4], "wind direction"@, Unit::Degrees)
    &&& holds(rec.current_speed, t.2[5], "current speed"@, Unit::MetersPerSecond)
    &&& holds(rec.current_direction, t.2[6], "current direction"@, Unit::Degrees)
    &&& string_views(rec.energy@) == t.3
}

/// The error a stop is reported as.
pub open spec fn spectra_stop_matches(e: DataRecordParsingError, stop: SpectraStop) -> bool {
    match stop {
        SpectraStop::Eof => e matches DataRecordParsingError::EOF,
        SpectraStop::Failure(m) => e matches DataRecordParsingError::ParseFailure(t) && t@ == m,
        SpectraStop::Panic => false,
    }
}

/// Reads the records of a spectra file from line `pos` on, as the
/// iterator yields them, keeping those that parse; none when reading
/// panics. (Each record read moves on by at least one line.)
pub open spec fn spectra_records(
    ls: Seq<Seq<char>>,
    pos: int,
    reference: Option<UtcDateTime>,
    count: int,
) -> Option<Seq<SpectraRecordText>>
    decreases ls.len() - pos,
{
    let (r, next, first) = spec_next_record(ls, pos, reference, count);
    match r {
        Err(SpectraStop::Eof) => Some(Seq::empty()),
        Err(SpectraStop::Panic) => None,
        Err(SpectraStop::Failure(_)) => if pos < next <= ls.len() {
            spectra_records(ls, next, first, count)
        } else {
            Some(Seq::empty())
        },
        Ok(t) => if pos < next <= ls.len() {
            match spectra_records(ls, next, first, count) {
                None => None,
                Some(rest) => Some(seq![t] + rest),
            }
        } else {
            Some(seq![t])
        },
    }
}

fn copy_texts(v: &Vec<String>) -> (out: Vec<String>)
    ensures
        string_views(out@) == string_views(v@),
{
    let mut out: Vec<String> = Vec::new();
    let mut i: usize = 0;
    while i < v.len()
        invariant
            i <= v.len(),
            string_views(out@) == string_views(v@).take(i as int),
        decreases v.len() - i,
    {
        let ghost before = string_views(out@);
        out.push(copy_string(&v[i]));
        i += 1;
        proof {
            assert(string_views(out@) =~= before.push(v@[i - 1]@));
            assert(string_views(v@).take(i as int) =~= string_views(v@).take(i - 1).push(v@[i - 1]@));
        }
    }
    proof {
        assert(string_views(v@).take(i as int) =~= string_views(v@));
    }
    out
}

impl ForecastSpectralWaveDataRecordMetadata {
    /// A copy with the same grid and counts.
    pub fn copy(&self) -> (c: Self)
        ensures
            string_views(c.frequency@) == string_views(self.frequency@),
            string_views(c.direction@) == string_views(self.direction@),
            c.point_count == self.point_count,
            c.line_count == self.line_count,
    {
        ForecastSpectralWaveDataRecordMetadata {
            frequency: copy_texts(&self.frequency),
            direction: copy_texts(&self.direction),
            point_count: self.point_count,
            line_count: self.line_count,
        }
    }
}

/// Reads the records of a spectra file one after another.
pub struct ForecastSpectralWaveRecordIterator {
    lines: Vec<String>,
    position: usize,
    metadata: ForecastSpectralWaveDataRecordMetadata,
    reference_date: Option<UtcDateTime>,
}

impl ForecastSpectralWaveRecordIterator {
    /// All the lines of the file.
    pub closed spec fn text(&self) -> Seq<Seq<char>> {
        string_views(self.lines@)
    }

    /// The next line to read.
    pub closed spec fn at(&self) -> int {
        self.position as int
    }

    /// The date of the first record read, once one was.
    pub closed spec fn first_date(&self) -> Option<UtcDateTime> {
        self.reference_date
    }

    /// The number of energy values per record.
    pub closed spec fn energy_count(&self) -> int {
        self.metadata.frequency.len() * self.metadata.direction.len()
    }

    /// The frequencies, directions, point count and header length read
    /// from the header.
    pub closed spec fn grid(&self) -> (Seq<Seq<char>>, Seq<Seq<char>>, int, int) {
        (
            string_views(self.metadata.frequency@),
            string_views(self.metadata.direction@),
            self.metadata.point_count as int,
            self.metadata.line_count as int,
        )
    }

    /// The point pattern compiles (from_data checks it before anything is
    /// read).
    pub closed spec fn wf(&self) -> bool {
        regex_search(point_pattern(), Seq::empty()) is Ok
    }

    /// Starts reading the records after the header of `data`.
    pub fn from_data(data: &str) -> (r: Result<Self, DataRecordParsingError>)
        ensures
            match (r, spec_spectra_metadata(data@)) {
                (Err(e), Err(msg)) => e matches DataRecordParsingError::ParseFailure(t) && t@
                    == msg,
                (Err(e), Ok(_)) => regex_search(point_pattern(), Seq::empty()) matches Err(m) && e matches DataRecordParsingError::ParseFailure(t)
                    && t@ == "Failed to create point regex: "@ + m,
                (Ok(it), Ok((freq, dir, points, count))) => {
                    &&& it.wf()
                    &&& it.text() == lines(data@)
                    &&& it.at() == count
                    &&& it.first_date() is None
                    &&& it.grid() == (freq, dir, points, count)
                    &&& it.energy_count() == freq.len() * dir.len()
                },
                _ => false,
            },
    {
        let metadata = match ForecastSpectralWaveDataRecordMetadata::from_text(data) {
            Ok(m) => m,
            Err(e) => {
                return Err(e);
            },
        };
        let chars = chars_of(data);
        let spans = line_spans(&chars);
        let ghost ls = lines(chars@);
        let mut all: Vec<String> = Vec::new();
        let mut i: usize = 0;
        while i < spans.len()
            invariant
                i <= spans.len() == ls.len(),
                forall|k: int|
                    0 <= k < spans.len() ==> (#[trigger] spans@[k]).0 <= spans@[k].1 <= chars.len()
                        && chars@.subrange(spans@[k].0 as int, spans@[k].1 as int) == ls[k],
                string_views(all@) == ls.take(i as int),
            decreases spans.len() - i,
        {
            let ghost before = string_views(all@);
            all.push(substring(&chars, spans[i].0, spans[i].1));
            i += 1;
            proof {
                assert(string_views(all@) =~= before.push(ls[i - 1]));
                assert(ls.take(i as int) =~= ls.take(i - 1).push(ls[i - 1]));
            }
        }
        proof {
            assert(ls.take(i as int) =~= ls);
        }
        let check = regex_captures(
            ".{0,12}\\s*([+-]?[0-9]*[.]?[0-9]+)\\s*([+-]?[0-9]*[.]?[0-9]+)\\s*([+-]?[0-9]*[.]?[0-9]+)\\s*([+-]?[0-9]*[.]?[0-9]+)\\s*([+-]?[0-9]*[.]?[0-9]+)\\s*([+-]?[0-9]*[.]?[0-9]+)\\s*([+-]?[0-9]*[.]?[0-9]+)",
            "",
        );
        proof {
            reveal_strlit("");
            assert(""@ =~= Seq::<char>::empty());
        }
        if let Err(e) = check {
            return Err(parse_failure_with("Failed to create point regex: ", e.as_str()));
        }
        let position = metadata.line_count;
        Ok(ForecastSpectralWaveRecordIterator { lines: all, position, metadata, reference_date: None })
    }
}

pub(crate) fn date_part(line: &str, from: usize, to: usize, min: i64, max: i64, what: &str) -> (r: Result<
    i64,
    DataRecordParsingError,
>)
    requires
        date_field(encode_utf8(line@), from as int, to as int, min as int, max as int, what@)
            != Err::<int, SpectraStop>(SpectraStop::Panic),
        from <= to,
        min <= 0 <= max,
    ensures
        match (r, date_field(encode_utf8(line@), from as int, to as int, min as int, max as int, what@)) {
            (Ok(v), Ok(w)) => v == w,
            (Err(e), Err(stop)) => spectra_stop_matches(e, stop),
            _ => false,
        },
        r matches Ok(v) ==> min <= v <= max,
{
    let bytes = line.as_bytes();
    let part = bytes_as_chars(bytes, from, to);
    proof {
        assert(part@.subrange(0, part.len() as int) =~= part@);
    }
    match parse_int(&part, 0, part.len(), min, max) {
        Ok(v) => Ok(v),
        Err(k) => {
            let mut t = String::new();
            push_str(&mut t, "Failed to parse ");
            push_str(&mut t, what);
            push_str(&mut t, ": ");
            push_str(&mut t, k.message());
            proof {
                assert(t@ =~= "Failed to parse "@ + what@ + ": "@ + k.spec_message());
            }
            Err(DataRecordParsingError::ParseFailure(t))
        },
    }
}

/// A successful read of the point values `i..=7` holds `8 - i` of them.
proof fn lemma_point_values_len(g: Seq<Option<Seq<char>>>, i: int)
    requires
        1 <= i <= 8,
    ensures
        point_values(g, i) matches Ok(v) ==> v.len() == 8 - i,
    decreases 8 - i,
{
    if i <= 7 {
        lemma_point_values_len(g, i + 1);
    }
}

/// The date line of a record.
fn read_date(line: &str) -> (r: Result<UtcDateTime, DataRecordParsingError>)
    requires
        record_date(line@) != Err::<UtcDateTime, SpectraStop>(SpectraStop::Panic),
    ensures
        match (r, record_date(line@)) {
            (Ok(d), Ok(e)) => d == e,
            (Err(e), Err(stop)) => spectra_stop_matches(e, stop),
            _ => false,
        },
{
    let year = match date_part(line, 0, 4, i32::MIN as i64, i32::MAX as i64, "year") {
        Ok(v) => v as i32,
        Err(e) => {
            return Err(e);
        },
    };
    let month = match date_part(line, 4, 6, 0, u32::MAX as i64, "month") {
        Ok(v) => v as u32,
        Err(e) => {
            return Err(e);
        },
    };
    let day = match date_part(line, 6, 8, 0, u32::MAX as i64, "day") {
        Ok(v) => v as u32,
        Err(e) => {
            return Err(e);
        },
    };
    let hour = match date_part(line, 9, 11, 0, u32::MAX as i64, "hour") {
        Ok(v) => v as u32,
        Err(e) => {
            return Err(e);
        },
    };
    let minute = match date_part(line, 11, 13, 0, u32::MAX as i64, "minute") {
        Ok(v) => v as u32,
        Err(e) => {
            return Err(e);
        },
    };
    match utc_datetime(year, month, day, hour, minute, 0) {
        Some(d) => Ok(d),
        None => Err(DataRecordParsingError::InvalidData),
    }
}

fn point_name(i: usize) -> (name: &'static str)
    ensures
        name@ == point_value_name(i as int),
{
    if i == 1 {
        "latitude"
    } else if i == 2 {
        "longitude"
    } else if i == 3 {
        "depth"
    } else if i == 4 {
        "wind speed"
    } else if i == 5 {
        "wind direction"
    } else {
        "current speed"
    }
}

/// The seven point values of a match of `point_pattern`.
pub fn read_point_values(g: &Vec<Option<String>>) -> (r: Result<Vec<String>, DataRecordParsingError>)
    ensures
        match (r, point_values(opt_views(g@), 1)) {
            (Ok(v), Ok(w)) => string_views(v@) == w && v.len() == 7,
            (Err(e), Err(stop)) => spectra_stop_matches(e, stop),
            _ => false,
        },
{
    let ghost gv = opt_views(g@);
    proof {
        lemma_point_values_len(gv, 1);
    }
    let mut values: Vec<String> = Vec::new();
    let mut i: usize = 1;
    proof {
        assert(string_views(values@) =~= Seq::<Seq<char>>::empty());
        match point_values(gv, 1) {
            Ok(rest) => {
                assert(Seq::<Seq<char>>::empty() + rest =~= rest);
            },
            Err(_) => {},
        }
    }
    while i <= 7
        invariant
            1 <= i <= 8,
            gv == opt_views(g@),
            match point_values(gv, i as int) {
                Err(e) => point_values(gv, 1) == Err::<Seq<Seq<char>>, SpectraStop>(e),
                Ok(rest) => point_values(gv, 1) == Ok::<Seq<Seq<char>>, SpectraStop>(
                    string_views(values@) + rest,
                ),
            },
        decreases 8 - i,
    {
        if i >= g.len() || g[i].is_none() {
            proof {
                assert(!group_present(gv, i as int));
            }
            let mut t = String::new();
            push_str(&mut t, "Failed to parse ");
            push_str(&mut t, point_name(i));
            return Err(DataRecordParsingError::ParseFailure(t));
        }
        let text = match &g[i] {
            Some(t) => t,
            None => {
                return Err(DataRecordParsingError::InvalidData);
            },
        };
        proof {
            assert(group_present(gv, i as int));
            assert(group(gv, i as int) == text@);
        }
        let chars = chars_of(text.as_str());
        proof {
            assert(chars@.subrange(0, chars.len() as int) =~= chars@);
        }
        if let Err(k) = check_float(&chars, 0, chars.len()) {
            return Err(DataRecordParsingError::from_float_error(k));
        }
        let ghost before = string_views(values@);
        values.push(substring(&chars, 0, chars.len()));
        proof {
            assert(string_views(values@) =~= before.push(text@));
            match point_values(gv, i + 1) {
                Ok(rest) => {
                    assert(before + (seq![text@] + rest) =~= before.push(text@) + rest);
                },
                Err(_) => {},
            }
        }
        i += 1;
    }
    proof {
        assert(point_values(gv, 8) == Ok::<Seq<Seq<char>>, SpectraStop>(Seq::empty()));
        assert(string_views(values@) + Seq::<Seq<char>>::empty() =~= string_views(values@));
    }
    Ok(values)
}

/// The floats of a line, appended to `acc`.
pub(crate) fn push_floats(line: &String, acc: &mut Vec<String>)
    ensures
        string_views(final(acc)@) == string_views(old(acc)@) + floats_among(split_ws(line@)),
{
    let chars = chars_of(line.as_str());
    let words = words_of(&chars, 0, chars.len());
    proof {
        assert(chars@.subrange(0, chars.len() as int) =~= chars@);
    }
    let ghost tv = string_views(words@);
    let ghost start = string_views(acc@);
    let mut i: usize = 0;
    proof {
        assert(tv.take(0) =~= Seq::<Seq<char>>::empty());
        assert(start + Seq::<Seq<char>>::empty() =~= start);
    }
    while i < words.len()
        invariant
            i <= words.len(),
            tv == string_views(words@),
            tv == split_ws(line@),
            string_views(acc@) == start + floats_among(tv.take(i as int)),
            start == string_views(old(acc)@),
        decreases words.len() - i,
    {
        let w = chars_of(words[i].as_str());
        proof {
            assert(w@.subrange(0, w.len() as int) =~= w@);
            assert(tv.take(i + 1).drop_last() =~= tv.take(i as int));
            assert(tv.take(i + 1).last() == w@);
        }
        if check_float(&w, 0, w.len()).is_ok() {
            let ghost before = string_views(acc@);
            acc.push(substring(&w, 0, w.len()));
            proof {
                assert(string_views(acc@) =~= before.push(w@));
                assert(start + floats_among(tv.take(i as int)).push(w@) =~= (start + floats_among(
                    tv.take(i as int),
                )).push(w@));
            }
        }
        i += 1;
    }
    proof {
        assert(tv.take(i as int) =~= tv);
    }
}

pub(crate) fn measured(text: &String, name: &str, unit: Unit) -> (d: DimensionalData<String>)
    ensures
        holds(d, text@, name@, unit),
{
    let mut n = String::new();
    push_str(&mut n, name);
    DimensionalData { value: Some(copy_string(text)), variable_name: n, unit }
}

impl ForecastSpectralWaveRecordIterator {
    /// Reads the next record; see `spec_next_record`. Every record read
    /// carries the date of the first record read as its reference date,
    /// and once no line is left the end of the file is reported.
    pub fn parse_next(&mut self) -> (r: Result<ForecastSpectralWaveDataRecord, DataRecordParsingError>)
        requires
            old(self).wf(),
            old(self).energy_count() <= usize::MAX,
            old(self).at() < old(self).text().len() ==> record_date(old(self).text()[old(self).at()])
                != Err::<UtcDateTime, SpectraStop>(SpectraStop::Panic),
        ensures
            final(self).wf(),
            final(self).text() == old(self).text(),
            final(self).grid() == old(self).grid(),
            final(self).energy_count() == old(self).energy_count(),
            ({
                let (res, next, first) = spec_next_record(
                    old(self).text(),
                    old(self).at(),
                    old(self).first_date(),
                    old(self).energy_count(),
                );
                &&& final(self).at() == next
                &&& final(self).first_date() == first
                &&& match (r, res) {
                    (Ok(rec), Ok(t)) => record_is(rec, t) && on_grid(rec, old(self).grid().0, old(self).grid().1),
                    (Err(e), Err(stop)) => spectra_stop_matches(e, stop),
                    _ => false,
                }
            }),
            old(self).first_date() matches Some(d) ==> final(self).first_date() == Some(d),
            r matches Ok(rec) ==> {
                &&& final(self).first_date() == Some(rec.reference_date)
                &&& (old(self).first_date() matches Some(d) ==> rec.reference_date == d)
                &&& (old(self).first_date() is None ==> rec.reference_date == rec.date)
                &&& rec.energy@.len() >= old(self).energy_count()
            },
            old(self).at() >= old(self).text().len() ==> (r matches Err(DataRecordParsingError::EOF))
                && final(self).at() == old(self).at(),
    {
        proof {
            lemma_next_record_reference(self.text(), self.at(), self.first_date(), self.energy_count());
        }
        let ghost ls = self.text();
        let ghost count = self.energy_count();
        if self.position >= self.lines.len() {
            return Err(DataRecordParsingError::EOF);
        }
        let line = copy_string(&self.lines[self.position]);
        proof {
            assert(line@ == ls[self.position as int]);
        }
        self.position += 1;
        // First line is the date
        let date = match read_date(line.as_str()) {
            Ok(d) => d,
            Err(e) => {
                return Err(e);
            },
        };
        if self.reference_date.is_none() {
            self.reference_date = Some(date);
        }
        let first = match self.reference_date {
            Some(d) => d,
            None => date,
        };
        // Then the point data
        if self.position >= self.lines.len() {
            return Err(DataRecordParsingError::EOF);
        }
        let point_line = copy_string(&self.lines[self.position]);
        proof {
            assert(point_line@ == ls[self.position as int]);
        }
        self.position += 1;
        let caps = match regex_captures(
            ".{0,12}\\s*([+-]?[0-9]*[.]?[0-9]+)\\s*([+-]?[0-9]*[.]?[0-9]+)\\s*([+-]?[0-9]*[.]?[0-9]+)\\s*([+-]?[0-9]*[.]?[0-9]+)\\s*([+-]?[0-9]*[.]?[0-9]+)\\s*([+-]?[0-9]*[.]?[0-9]+)\\s*([+-]?[0-9]*[.]?[0-9]+)",
            point_line.as_str(),
        ) {
            Ok(c) => c,
            Err(m) => {
                return Err(parse_failure(m.as_str()));
            },
        };
        let g = match caps {
            Some(g) => g,
            None => {
                return Err(parse_failure("Invalid data for point data"));
            },
        };
        let point = match read_point_values(&g) {
            Ok(v) => v,
            Err(e) => {
                return Err(e);
            },
        };
        // Then the frequency * direction data
        let count = self.metadata.frequency.len() * self.metadata.direction.len();
        let ghost p0 = self.position as int;
        let ghost g0 = self.grid();
        let ghost f0 = self.reference_date;
        let ghost pv = string_views(point@);
        let ghost outcome = spec_next_record(
            old(self).text(),
            old(self).at(),
            old(self).first_date(),
            old(self).energy_count(),
        );
        proof {
            assert(outcome == match energy_values(ls, p0, count as int, Seq::empty()) {
                None => (Err(SpectraStop::Eof), ls.len() as int, f0),
                Some((e, next)) => (Ok((date, first, pv, e)), next, f0),
            });
        }
        let mut energy: Vec<String> = Vec::new();
        proof {
            assert(string_views(energy@) =~= Seq::<Seq<char>>::empty());
        }
        while energy.len() < count
            invariant
                ls == string_views(self.lines@),
                ls == old(self).text(),
                self.wf(),
                self.grid() == g0,
                g0 == old(self).grid(),
                self.energy_count() == old(self).energy_count(),
                self.reference_date == f0,
                outcome == match energy_values(ls, p0, count as int, Seq::empty()) {
                    None => (Err(SpectraStop::Eof), ls.len() as int, f0),
                    Some((e, next)) => (Ok((date, first, pv, e)), next, f0),
                },
                outcome == spec_next_record(
                    old(self).text(),
                    old(self).at(),
                    old(self).first_date(),
                    old(self).energy_count(),
                ),
                p0 <= self.position <= ls.len() || (self.position == p0 && p0 >= ls.len()),
                count == self.energy_count(),
                energy_values(ls, p0, count as int, Seq::empty()) == energy_values(
                    ls,
                    self.position as int,
                    count as int,
                    string_views(energy@),
                ),
            decreases ls.len() - self.position,
        {
            if self.position >= self.lines.len() {
                self.position = self.lines.len();
                return Err(DataRecordParsingError::EOF);
            }
            push_floats(&self.lines[self.position], &mut energy);
            self.position += 1;
        }
        Ok(
            ForecastSpectralWaveDataRecord {
                date,
                reference_date: first,
                latitude: copy_string(&point[0]),
                longitude: copy_string(&point[1]),
                depth: measured(&point[2], "depth", Unit::Meters),
                wind_speed: measured(&point[3], "wind speed", Unit::MetersPerSecond),
                wind_direction: measured(&point[4], "wind direction", Unit::Degrees),
                current_speed: measured(&point[5], "current speed", Unit::MetersPerSecond),
                current_direction: measured(&point[6], "current direction", Unit::Degrees),
                energy,
                frequency: copy_texts(&self.metadata.frequency),
                direction: copy_texts(&self.metadata.direction),
            },
        )
    }
}


/// Reading floats from line `idx` on ends within the text.
proof fn lemma_read_floats_bounds(ls: Seq<Seq<char>>, idx: int, count: int, acc: Seq<Seq<char>>)
    requires
        0 <= idx <= ls.len(),
    ensures
        read_floats(ls, idx, count, acc) matches Some((_, j)) ==> idx <= j <= ls.len(),
    decreases ls.len() - idx,
{
    if acc.len() < count && idx < ls.len() {
        lemma_read_floats_bounds(ls, idx + 1, count, take_floats(split_ws(ls[idx]), count, acc));
    }
}

/// The header of a spectra file ends within its lines.
pub(crate) proof fn lemma_header_within(s: Seq<char>)
    ensures
        spec_spectra_metadata(s) matches Ok((_, _, _, j)) ==> 0 <= j <= lines(s).len(),
{
    let ls = lines(s);
    if ls.len() > 0 {
        lemma_read_floats_bounds(ls, 1, 0, Seq::empty());
        match regex_search(header_pattern(), ls[0]) {
            Ok(caps) => match spec_counts(caps) {
                Ok((fc, dc, pc)) => {
                    lemma_read_floats_bounds(ls, 1, fc, Seq::empty());
                    match read_floats(ls, 1, fc, Seq::empty()) {
                        Some((_, i)) => {
                            lemma_read_floats_bounds(ls, i, dc, Seq::empty());
                        },
                        None => {},
                    }
                },
                Err(_) => {},
            },
            Err(_) => {},
        }
    }
}

/// Reading the energy values from line `i` on ends within the text.
pub(crate) proof fn lemma_energy_values_bounds(ls: Seq<Seq<char>>, i: int, count: int, acc: Seq<Seq<char>>)
    requires
        0 <= i <= ls.len(),
    ensures
        energy_values(ls, i, count, acc) matches Some((_, j)) ==> i <= j <= ls.len(),
    decreases ls.len() - i,
{
    if acc.len() < count && i < ls.len() {
        lemma_energy_values_bounds(ls, i + 1, count, acc + floats_among(split_ws(ls[i])));
    }
}

/// Reading a record from within the text moves on by at least one line
/// and stays within the text.
proof fn lemma_next_record_advances(
    ls: Seq<Seq<char>>,
    pos: int,
    reference: Option<UtcDateTime>,
    count: int,
)
    requires
        0 <= pos < ls.len(),
    ensures
        pos < spec_next_record(ls, pos, reference, count).1 <= ls.len(),
{
    if pos + 2 <= ls.len() {
        lemma_energy_values_bounds(ls, pos + 2, count, Seq::empty());
    }
}

/// Whether reading the date line `line` stays within its text and gives
/// a valid date, that is whether `record_date` does not panic.
fn date_line_readable(line: &str) -> (b: bool)
    ensures
        b == (record_date(line@) != Err::<UtcDateTime, SpectraStop>(SpectraStop::Panic)),
{
    let n = line.as_bytes().len();
    if n < 4 || !line.is_char_boundary(0) || !line.is_char_boundary(4) {
        return false;
    }
    let year = match date_part(line, 0, 4, i32::MIN as i64, i32::MAX as i64, "year") {
        Ok(v) => v as i32,
        Err(_) => {
            return true;
        },
    };
    if n < 6 || !line.is_char_boundary(6) {
        return false;
    }
    let month = match date_part(line, 4, 6, 0, u32::MAX as i64, "month") {
        Ok(v) => v as u32,
        Err(_) => {
            return true;
        },
    };
    if n < 8 || !line.is_char_boundary(8) {
        return false;
    }
    let day = match date_part(line, 6, 8, 0, u32::MAX as i64, "day") {
        Ok(v) => v as u32,
        Err(_) => {
            return true;
        },
    };
    if n < 11 || !line.is_char_boundary(9) || !line.is_char_boundary(11) {
        return false;
    }
    let hour = match date_part(line, 9, 11, 0, u32::MAX as i64, "hour") {
        Ok(v) => v as u32,
        Err(_) => {
            return true;
        },
    };
    if n < 13 || !line.is_char_boundary(13) {
        return false;
    }
    let minute = match date_part(line, 11, 13, 0, u32::MAX as i64, "minute") {
        Ok(v) => v as u32,
        Err(_) => {
            return true;
        },
    };
    utc_datetime(year, month, day, hour, minute, 0).is_some()
}

/// `recs` are the records `ts` as read, one for one.
pub open spec fn records_are(recs: Seq<ForecastSpectralWaveDataRecord>, ts: Seq<SpectraRecordText>) -> bool {
    &&& recs.len() == ts.len()
    &&& forall|i: int| 0 <= i < recs.len() ==> record_is(#[trigger] recs[i], ts[i])
}

impl ForecastSpectralWaveRecordIterator {
    /// The next record, an error, or `None` once the lines run out; see
    /// `spec_next_record`.
    pub fn next(&mut self) -> (r: Option<Result<ForecastSpectralWaveDataRecord, DataRecordParsingError>>)
        requires
            old(self).wf(),
            old(self).energy_count() <= usize::MAX,
            old(self).at() < old(self).text().len() ==> record_date(old(self).text()[old(self).at()])
                != Err::<UtcDateTime, SpectraStop>(SpectraStop::Panic),
        ensures
            final(self).wf(),
            final(self).text() == old(self).text(),
            final(self).grid() == old(self).grid(),
            final(self).energy_count() == old(self).energy_count(),
            ({
                let (res, next, first) = spec_next_record(
                    old(self).text(),
                    old(self).at(),
                    old(self).first_date(),
                    old(self).energy_count(),
                );
                &&& final(self).at() == next
                &&& final(self).first_date() == first
                &&& match (r, res) {
                    (None, Err(SpectraStop::Eof)) => true,
                    (Some(Ok(rec)), Ok(t)) => record_is(rec, t) && on_grid(rec, old(self).grid().0, old(self).grid().1),
                    (Some(Err(e)), Err(stop)) => stop !is Eof && spectra_stop_matches(e, stop),
                    _ => false,
                }
            }),
            old(self).first_date() matches Some(d) ==> final(self).first_date() == Some(d),
            r matches Some(Ok(rec)) ==> {
                &&& final(self).first_date() == Some(rec.reference_date)
                &&& (old(self).first_date() matches Some(d) ==> rec.reference_date == d)
                &&& (old(self).first_date() is None ==> rec.reference_date == rec.date)
                &&& rec.energy@.len() >= old(self).energy_count()
            },
            old(self).at() >= old(self).text().len() ==> r is None && final(self).at() == old(self).at(),
    {
        match self.parse_next() {
            Ok(v) => Some(Ok(v)),
            Err(e) => match e {
                DataRecordParsingError::EOF => None,
                _ => Some(Err(e)),
            },
        }
    }

    /// Reads the remaining records, keeping those that parse, up to the
    /// end of the lines; `None` when reading a date line would panic.
    fn read_remaining(&mut self) -> (r: Option<Vec<ForecastSpectralWaveDataRecord>>)
        requires
            old(self).wf(),
            old(self).energy_count() <= usize::MAX,
            old(self).at() <= old(self).text().len(),
        ensures
            match (r, spectra_records(
                old(self).text(),
                old(self).at(),
                old(self).first_date(),
                old(self).energy_count(),
            )) {
                (None, None) => true,
                (Some(v), Some(ts)) => records_are(v@, ts) && forall|i: int|
                    0 <= i < v@.len() ==> on_grid(#[trigger] v@[i], old(self).grid().0, old(self).grid().1),
                _ => false,
            },
    {
        let ghost ls = self.text();
        let ghost count = self.energy_count();
        let ghost whole = spectra_records(ls, self.at(), self.first_date(), count);
        let ghost mut done: Seq<SpectraRecordText> = Seq::empty();
        let mut out: Vec<ForecastSpectralWaveDataRecord> = Vec::new();
        proof {
            match whole {
                Some(w) => {
                    assert(done + w =~= w);
                },
                None => {},
            }
        }
        loop
            invariant_except_break
                match spectra_records(ls, self.at(), self.first_date(), count) {
                    None => whole is None,
                    Some(rest) => whole == Some(done + rest),
                },
            invariant
                self.wf(),
                self.text() == ls,
                self.energy_count() == count,
                count <= usize::MAX,
                self.at() <= ls.len(),
                self.lines.len() == ls.len(),
                records_are(out@, done),
                self.grid() == old(self).grid(),
                forall|i: int| 0 <= i < out@.len() ==> on_grid(#[trigger] out@[i], old(self).grid().0, old(self).grid().1),
                ls == old(self).text(),
                whole == spectra_records(
                    old(self).text(),
                    old(self).at(),
                    old(self).first_date(),
                    old(self).energy_count(),
                ),
            ensures
                whole == Some(done),
            decreases ls.len() - self.at(),
        {
            if self.position < self.lines.len() {
                let readable = date_line_readable(self.lines[self.position].as_str());
                proof {
                    assert(self.lines@[self.at()]@ == ls[self.at()]);
                }
                if !readable {
                    return None;
                }
            }
            let ghost pos = self.at();
            let ghost first = self.first_date();
            let ghost step = spec_next_record(ls, pos, first, count);
            proof {
                if pos < ls.len() {
                    lemma_next_record_advances(ls, pos, first, count);
                }
            }
            match self.next() {
                None => {
                    proof {
                        assert(done + Seq::<SpectraRecordText>::empty() =~= done);
                    }
                    break;
                },
                Some(Ok(rec)) => {
                    proof {
                        let t = step.0->Ok_0;
                        match spectra_records(ls, self.at(), self.first_date(), count) {
                            Some(rest) => {
                                assert(done + (seq![t] + rest) =~= done.push(t) + rest);
                            },
                            None => {},
                        }
                        done = done.push(t);
                    }
                    out.push(rec);
                },
                Some(Err(_)) => {},
            }
        }
        Some(out)
    }
}

impl<'a> ForecastSpectralWaveDataRecordCollection<'a> {
    /// The grid of the file and its records that parse, read up to the
    /// end of the lines.
    pub fn records(&self) -> (r: Result<
        (ForecastSpectralWaveDataRecordMetadata, Vec<ForecastSpectralWaveDataRecord>),
        DataRecordParsingError,
    >)
        requires
            spec_spectra_metadata(self.text()) matches Ok((freq, dir, points, count)) ==> {
                &&& freq.len() * dir.len() <= usize::MAX
                &&& spectra_records(lines(self.text()), count, None, (freq.len() * dir.len()) as int) is Some
            },
        ensures
            match (r, spec_spectra_metadata(self.text())) {
                (Err(e), Err(msg)) => e matches DataRecordParsingError::ParseFailure(t) && t@
                    == msg,
                (Err(e), Ok(_)) => regex_search(point_pattern(), Seq::empty()) matches Err(m) && e matches DataRecordParsingError::ParseFailure(t)
                    && t@ == "Failed to create point regex: "@ + m,
                (Ok((meta, recs)), Ok((freq, dir, points, count))) => {
                    &&& string_views(meta.frequency@) == freq
                    &&& string_views(meta.direction@) == dir
                    &&& meta.point_count == points
                    &&& meta.line_count == count
                    &&& spectra_records(lines(self.text()), count, None, (freq.len() * dir.len()) as int)
                        matches Some(ts) && records_are(recs@, ts)
                    &&& forall|i: int| 0 <= i < recs@.len() ==> on_grid(#[trigger] recs@[i], freq, dir)
                },
                _ => false,
            },
    {
        match self.try_records() {
            Some(r) => r,
            None => Err(DataRecordParsingError::InvalidData),
        }
    }

    /// As `records`, but `None` where reading would panic: where the
    /// number of energy values per record does not fit in `usize`, or a
    /// date line is cut outside its text or gives no valid date.
    pub fn try_records(&self) -> (r: Option<
        Result<
            (ForecastSpectralWaveDataRecordMetadata, Vec<ForecastSpectralWaveDataRecord>),
            DataRecordParsingError,
        >,
    >)
        ensures
            match (r, spec_spectra_metadata(self.text())) {
                (None, Ok((freq, dir, points, count))) => freq.len() * dir.len() > usize::MAX
                    || spectra_records(lines(self.text()), count, None, (freq.len() * dir.len()) as int) is None,
                (None, Err(_)) => false,
                (Some(Err(e)), Err(msg)) => e matches DataRecordParsingError::ParseFailure(t) && t@
                    == msg,
                (Some(Err(e)), Ok(_)) => regex_search(point_pattern(), Seq::empty()) matches Err(m) && e matches DataRecordParsingError::ParseFailure(t)
                    && t@ == "Failed to create point regex: "@ + m,
                (Some(Ok((meta, recs))), Ok((freq, dir, points, count))) => {
                    &&& string_views(meta.frequency@) == freq
                    &&& string_views(meta.direction@) == dir
                    &&& meta.point_count == points
                    &&& meta.line_count == count
                    &&& freq.len() * dir.len() <= usize::MAX
                    &&& spectra_records(lines(self.text()), count, None, (freq.len() * dir.len()) as int)
                        matches Some(ts) && records_are(recs@, ts)
                    &&& forall|i: int| 0 <= i < recs@.len() ==> on_grid(#[trigger] recs@[i], freq, dir)
                },
                _ => false,
            },
    {
        let mut it = match ForecastSpectralWaveRecordIterator::from_data(self.data) {
            Ok(it) => it,
            Err(e) => {
                return Some(Err(e));
            },
        };
        if it.metadata.frequency.len().checked_mul(it.metadata.direction.len()).is_none() {
            return None;
        }
        let metadata = it.metadata.copy();
        proof {
            lemma_header_within(self.text());
        }
        match it.read_remaining() {
            Some(recs) => Some(Ok((metadata, recs))),
            None => None,
        }
    }
}

/// The energy values read for a record number at least `count`.
proof fn lemma_energy_values_count(ls: Seq<Seq<char>>, i: int, count: int, acc: Seq<Seq<char>>)
    ensures
        energy_values(ls, i, count, acc) matches Some((e, _)) ==> e.len() >= count,
    decreases ls.len() - i,
{
    if acc.len() < count && 0 <= i < ls.len() {
        lemma_energy_values_count(ls, i + 1, count, acc + floats_among(split_ws(ls[i])));
    }
}

/// Every record read from a spectra file carries the same reference date:
/// the date of the first record read, or `reference` when reading starts
/// with one; and holds at least `count` energy values.
pub proof fn lemma_spectra_records_shared_reference(
    ls: Seq<Seq<char>>,
    pos: int,
    reference: Option<UtcDateTime>,
    count: int,
)
    ensures
        spectra_records(ls, pos, reference, count) matches Some(ts) ==> forall|i: int|
            0 <= i < ts.len() ==> {
                &&& (#[trigger] ts[i]).1 == ts[0].1
                &&& (reference matches Some(r) ==> ts[i].1 == r)
                &&& ts[i].3.len() >= count
            },
    decreases ls.len() - pos,
{
    let (r, next, first) = spec_next_record(ls, pos, reference, count);
    if 0 <= pos < ls.len() {
        lemma_next_record_advances(ls, pos, reference, count);
        lemma_spectra_records_shared_reference(ls, next, first, count);
        if pos + 2 <= ls.len() {
            lemma_energy_values_count(ls, pos + 2, count, Seq::empty());
        }
        match r {
            Ok(t) => {
                assert(first == Some(t.1));
                match spectra_records(ls, next, first, count) {
                    Some(rest) => {
                        let ts = seq![t] + rest;
                        assert forall|i: int| 0 <= i < ts.len() implies (#[trigger] ts[i]).1 == t.1
                            && ts[i].3.len() >= count by {
                            if i > 0 {
                                assert(ts[i] == rest[i - 1]);
                            }
                        }
                    },
                    None => {},
                }
            },
            _ => {},
        }
    }
}

/// Reading a record once a first date was read: that date stays the first
/// date, and a record read carries it as its reference date. Before any
/// date was read, a record read is its own reference. Either way a record
/// holds at least `count` energy values.
pub proof fn lemma_next_record_reference(
    ls: Seq<Seq<char>>,
    pos: int,
    reference: Option<UtcDateTime>,
    count: int,
)
    ensures
        ({
            let (r, next, first) = spec_next_record(ls, pos, reference, count);
            &&& reference matches Some(d) ==> first == Some(d)
            &&& r matches Ok(t) ==> {
                &&& first == Some(t.1)
                &&& (reference matches Some(d) ==> t.1 == d)
                &&& (reference is None ==> t.1 == t.0)
                &&& t.3.len() >= count
            }
        }),
{
    if 0 <= pos && pos + 2 <= ls.len() {
        lemma_energy_values_count(ls, pos + 2, count, Seq::empty());
    }
}

/// Two records read one after the other from the start of the records:
/// the first is its own reference, the second carries the date of the
/// first as its reference, and each holds at least `count` energy values.
pub proof fn lemma_two_reads_share_first_date(ls: Seq<Seq<char>>, pos: int, count: int)
    ensures
        ({
            let (r1, next1, first1) = spec_next_record(ls, pos, None, count);
            let (r2, next2, first2) = spec_next_record(ls, next1, first1, count);
            &&& r1 matches Ok(t1) ==> t1.1 == t1.0 && t1.3.len() >= count
            &&& r1 matches Ok(t1) ==> (r2 matches Ok(t2) ==> t2.1 == t1.0 && t2.3.len() >= count)
            &&& r1 is Ok ==> first2 == first1
        }),
{
    let (r1, next1, first1) = spec_next_record(ls, pos, None, count);
    lemma_next_record_reference(ls, pos, None, count);
    lemma_next_record_reference(ls, next1, first1, count);
}

/// Once no line is left, reading gives the end of the file and moves
/// nothing.
pub proof fn lemma_read_past_last_line(
    ls: Seq<Seq<char>>,
    pos: int,
    reference: Option<UtcDateTime>,
    count: int,
)
    requires
        pos >= ls.len(),
    ensures
        spec_next_record(ls, pos, reference, count) == (
            Err::<SpectraRecordText, SpectraStop>(SpectraStop::Eof),
            pos,
            reference,
        ),
{
}

impl ForecastSpectralWaveRecordIterator {
    /// The lines, the next line to read and the grid.
    pub(crate) fn into_parts(self) -> (r: (Vec<String>, usize, ForecastSpectralWaveDataRecordMetadata))
        ensures
            string_views(r.0@) == self.text(),
            r.1 == self.at(),
            (
                string_views(r.2.frequency@),
                string_views(r.2.direction@),
                r.2.point_count as int,
                r.2.line_count as int,
            ) == self.grid(),
            r.2.frequency.len() * r.2.direction.len() == self.energy_count(),
            self.wf() == (regex_search(point_pattern(), Seq::empty()) is Ok),
    {
        (self.lines, self.position, self.metadata)
    }
}

} // verus!
