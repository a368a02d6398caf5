//! SWAN standard spectral files: a header that gives the locations, the
//! frequency and direction grid and the exception value, then for each
//! output time (when the file is time dependent) one spectrum block per
//! location: `NODATA`, `ZERO`, or `FACTOR` with a scale factor and one row
//! of scaled densities per frequency.
//!
//! Numbers are held as the float text they were read as; the scaling of
//! the densities is left to the reader of the blocks.

use vstd::prelude::*;
use vstd::utf8::{encode_utf8, is_char_boundary};

use crate::data::gefs_timeseries_wave_data_record::{i32_result, u32_result};
use crate::data::parseable_data_record::{parse_failure, parse_failure_with, DataRecordParsingError};
use crate::text::{
    bytes_as_chars, chars_of, check_float, find_char, first_word, first_word_bounds, float_result,
    has_substring, int_result, latin1, line_spans, lines, parse_int, parse_uint, push_decimal, push_str, split_ws,
    string_views, substring, to_ascii_lower, ascii_lower, to_uppercase, upper_text, trim,
    trim_bounds, decimal, words_of, FloatErrorKind, IntErrorKind,
};
use crate::time::{utc_datetime, valid_civil, UtcDateTime};
use crate::units::DirectionConvention;

verus! {

/// Why reading a SWAN file stops: the lines ran out, a failure with a
/// message, or text that makes string slicing panic.
pub enum SwanStop {
    Eof,
    Failure(Seq<char>),
    Panic,
}

/// The error a stop is reported as.
pub open spec fn stop_matches(e: DataRecordParsingError, stop: SwanStop) -> bool {
    match stop {
        SwanStop::Eof => e matches DataRecordParsingError::EOF,
        SwanStop::Failure(m) => e matches DataRecordParsingError::ParseFailure(t) && t@ == m,
        SwanStop::Panic => false,
    }
}

/// The meaningful lines of `ls`, trimmed: not blank, not `$` comments.
pub open spec fn meaningful_lines(ls: Seq<Seq<char>>) -> Seq<Seq<char>>
    decreases ls.len(),
{
    if ls.len() == 0 {
        Seq::empty()
    } else {
        let rest = meaningful_lines(ls.drop_last());
        let t = trim(ls.last());
        if t.len() > 0 && t[0] != '$' {
            rest.push(t)
        } else {
            rest
        }
    }
}

/// Line cursor over meaningful content, skipping blanks and `$` comments.
struct Cursor {
    lines: Vec<String>,
    idx: usize,
}

impl Cursor {
    spec fn text(&self) -> Seq<Seq<char>> {
        string_views(self.lines@)
    }

    spec fn at(&self) -> int {
        self.idx as int
    }

    fn new(data: &str) -> (c: Cursor)
        ensures
            c.text() == meaningful_lines(lines(data@)),
            c.at() == 0,
    {
        let chars = chars_of(data);
        let spans = line_spans(&chars);
        let ghost ls = lines(chars@);
        let mut kept: Vec<String> = Vec::new();
        let mut i: usize = 0;
        while i < spans.len()
            invariant
                i <= spans.len() == ls.len(),
                ls == lines(chars@),
                forall|k: int|
                    0 <= k < spans.len() ==> (#[trigger] spans@[k]).0 <= spans@[k].1 <= chars.len()
                        && chars@.subrange(spans@[k].0 as int, spans@[k].1 as int) == ls[k],
                string_views(kept@) == meaningful_lines(ls.take(i as int)),
            decreases spans.len() - i,
        {
            let (a, b) = spans[i];
            let (ta, tb) = trim_bounds(&chars, a, b);
            proof {
                assert(ls.take(i + 1).drop_last() =~= ls.take(i as int));
                assert(ls.take(i + 1).last() == ls[i as int]);
            }
            if ta < tb && chars[ta] != '$' {
                let ghost before = string_views(kept@);
                kept.push(substring(&chars, ta, tb));
                proof {
                    assert(chars@.subrange(ta as int, tb as int)[0] == chars@[ta as int]);
                    assert(string_views(kept@) =~= before.push(chars@.subrange(ta as int, tb as int)));
                }
            } else {
                proof {
                    if ta < tb {
                        assert(chars@.subrange(ta as int, tb as int)[0] == chars@[ta as int]);
                    }
                }
            }
            i += 1;
        }
        proof {
            assert(ls.take(i as int) =~= ls);
        }
        Cursor { lines: kept, idx: 0 }
    }

    fn next(&mut self) -> (r: Result<String, DataRecordParsingError>)
        ensures
            final(self).text() == old(self).text(),
            old(self).at() < old(self).text().len() ==> (r matches Ok(l) && l@ == old(
                self,
            ).text()[old(self).at()] && final(self).at() == old(self).at() + 1),
            old(self).at() >= old(self).text().len() ==> (r matches Err(
                DataRecordParsingError::EOF,
            ) && final(self).at() == old(self).at()),
    {
        if self.idx >= self.lines.len() {
            return Err(DataRecordParsingError::EOF);
        }
        let mut l = String::new();
        push_str(&mut l, self.lines[self.idx].as_str());
        proof {
            assert(self.lines@[self.idx as int]@ == self.text()[self.idx as int]);
        }
        self.idx += 1;
        Ok(l)
    }

    fn peek(&self) -> (r: Option<String>)
        ensures
            self.at() < self.text().len() ==> (r matches Some(l) && l@ == self.text()[self.at()]),
            self.at() >= self.text().len() ==> r is None,
    {
        if self.idx >= self.lines.len() {
            return None;
        }
        let mut l = String::new();
        push_str(&mut l, self.lines[self.idx].as_str());
        proof {
            assert(self.lines@[self.idx as int]@ == self.text()[self.idx as int]);
        }
        Some(l)
    }
}

/// First whitespace token of a line.
fn head(line: &str) -> (h: String)
    ensures
        h@ == first_word(line@),
{
    let chars = chars_of(line);
    let (a, b) = first_word_bounds(&chars, 0, chars.len());
    proof {
        assert(chars@.subrange(0, chars.len() as int) =~= chars@);
    }
    substring(&chars, a, b)
}

/// The count at the head of a line, as `usize`.
pub open spec fn spec_parse_count(line: Seq<char>) -> Result<int, SwanStop> {
    match int_result(first_word(line), 0, usize::MAX as int) {
        Err(k) => Err(SwanStop::Failure("Int: "@ + k.spec_message())),
        Ok(n) => Ok(n),
    }
}

fn parse_count(line: &str) -> (r: Result<usize, DataRecordParsingError>)
    ensures
        match (r, spec_parse_count(line@)) {
            (Ok(v), Ok(w)) => v == w,
            (Err(e), Err(stop)) => stop_matches(e, stop),
            _ => false,
        },
{
    let h = chars_of(head(line).as_str());
    proof {
        assert(h@.subrange(0, h.len() as int) =~= h@);
    }
    match parse_uint(&h, 0, h.len(), usize::MAX as u64) {
        Ok(v) => Ok(v as usize),
        Err(k) => Err(DataRecordParsingError::from_int_error(k)),
    }
}

/// A float token, held as its text.
pub open spec fn spec_parse_f64(token: Seq<char>) -> Result<Seq<char>, SwanStop> {
    match float_result(token) {
        Err(k) => Err(SwanStop::Failure("Float: "@ + k.spec_message())),
        Ok(_) => Ok(token),
    }
}

fn parse_f64(token: &str) -> (r: Result<String, DataRecordParsingError>)
    ensures
        match (r, spec_parse_f64(token@)) {
            (Ok(v), Ok(w)) => v@ == w,
            (Err(e), Err(stop)) => stop_matches(e, stop),
            _ => false,
        },
{
    let chars = chars_of(token);
    proof {
        assert(chars@.subrange(0, chars.len() as int) =~= chars@);
    }
    match check_float(&chars, 0, chars.len()) {
        Ok(()) => Ok(substring(&chars, 0, chars.len())),
        Err(k) => Err(DataRecordParsingError::from_float_error(k)),
    }
}

/// The stop that an integer parse error gives.
pub open spec fn int_stop(k: IntErrorKind) -> SwanStop {
    SwanStop::Failure("Int: "@ + k.spec_message())
}

/// The fields of a `yyyymmdd.hhmmss` date, from the bytes `d` before the
/// dot and `t` after it, each cut at fixed byte offsets (which panics when
/// an offset falls inside a character), in the order they are read.
pub open spec fn spec_date_fields(d: Seq<u8>, t: Seq<u8>, invalid: SwanStop) -> Result<
    UtcDateTime,
    SwanStop,
> {
    if !is_char_boundary(d, 4) {
        Err(SwanStop::Panic)
    } else {
        match i32_result(latin1(d.subrange(0, 4))) {
            Err(k) => Err(int_stop(k)),
            Ok(y) => if !is_char_boundary(d, 6) {
                Err(SwanStop::Panic)
            } else {
                match u32_result(latin1(d.subrange(4, 6))) {
                    Err(k) => Err(int_stop(k)),
                    Ok(mo) => if !is_char_boundary(d, 8) {
                        Err(SwanStop::Panic)
                    } else {
                        match u32_result(latin1(d.subrange(6, 8))) {
                            Err(k) => Err(int_stop(k)),
                            Ok(dd) => if !is_char_boundary(t, 2) {
                                Err(SwanStop::Panic)
                            } else {
                                match u32_result(latin1(t.subrange(0, 2))) {
                                    Err(k) => Err(int_stop(k)),
                                    Ok(h) => if !is_char_boundary(t, 4) {
                                        Err(SwanStop::Panic)
                                    } else {
                                        match u32_result(latin1(t.subrange(2, 4))) {
                                            Err(k) => Err(int_stop(k)),
                                            Ok(mi) => if !is_char_boundary(t, 6) {
                                                Err(SwanStop::Panic)
                                            } else {
                                                match u32_result(latin1(t.subrange(4, 6))) {
                                                    Err(k) => Err(int_stop(k)),
                                                    Ok(sec) => if valid_civil(y, mo, dd, h, mi, sec) {
                                                        Ok(
                                                            UtcDateTime {
                                                                year: y as i32,
                                                                month: mo as u32,
                                                                day: dd as u32,
                                                                hour: h as u32,
                                                                minute: mi as u32,
                                                                second: sec as u32,
                                                            },
                                                        )
                                                    } else {
                                                        Err(invalid)
                                                    },
                                                }
                                            },
                                        }
                                    },
                                }
                            },
                        }
                    },
                }
            },
        }
    }
}

/// A `yyyymmdd.hhmmss` SWAN time stamp.
pub open spec fn spec_swan_date(token: Seq<char>) -> Result<UtcDateTime, SwanStop> {
    let invalid = SwanStop::Failure("Invalid SWAN date: "@ + token);
    let k = find_char(token, '.');
    if k >= token.len() {
        Err(invalid)
    } else {
        let d = encode_utf8(token.take(k));
        let t = encode_utf8(token.skip(k + 1));
        if d.len() < 8 || t.len() < 6 {
            Err(invalid)
        } else {
            spec_date_fields(d, t, invalid)
        }
    }
}

fn invalid_date(token: &str) -> (e: DataRecordParsingError)
    ensures
        stop_matches(e, SwanStop::Failure("Invalid SWAN date: "@ + token@)),
{
    parse_failure_with("Invalid SWAN date: ", token)
}

fn date_part(text: &str, from: usize, to: usize, min: i64, max: i64) -> (r: Result<
    i64,
    DataRecordParsingError,
>)
    requires
        from <= to <= encode_utf8(text@).len(),
        min <= 0 <= max,
    ensures
        match (r, int_result(latin1(encode_utf8(text@).subrange(from as int, to as int)), min as int, max as int)) {
            (Ok(v), Ok(w)) => v == w,
            (Err(e), Err(k)) => stop_matches(e, int_stop(k)),
            _ => false,
        },
        r matches Ok(v) ==> min <= v <= max,
{
    let bytes = text.as_bytes();
    let part = bytes_as_chars(bytes, from, to);
    proof {
        assert(part@.subrange(0, part.len() as int) =~= part@);
    }
    match parse_int(&part, 0, part.len(), min, max) {
        Ok(v) => Ok(v),
        Err(k) => Err(DataRecordParsingError::from_int_error(k)),
    }
}

/// Parse a `yyyymmdd.hhmmss` SWAN timestamp.
/// `Err(None)` where cutting the time stamp panics.
fn parse_swan_date(token: &str) -> (r: Result<UtcDateTime, Option<DataRecordParsingError>>)
    ensures
        match (r, spec_swan_date(token@)) {
            (Ok(d), Ok(w)) => d == w,
            (Err(Some(e)), Err(stop)) => stop_matches(e, stop),
            (Err(None), Err(SwanStop::Panic)) => true,
            _ => false,
        },
{
    let chars = chars_of(token);
    let n = chars.len();
    let mut k: usize = 0;
    while k < n && chars[k] != '.'
        invariant
            k <= n == chars.len(),
            forall|j: int| 0 <= j < k ==> #[trigger] chars@[j] != '.',
        decreases n - k,
    {
        k += 1;
    }
    proof {
        crate::text::lemma_find_char_at(chars@, '.', k as int);
    }
    if k == n {
        return Err(Some(invalid_date(token)));
    }
    let d = substring(&chars, 0, k);
    let t = substring(&chars, k + 1, n);
    proof {
        assert(d@ =~= token@.take(k as int));
        assert(t@ =~= token@.skip(k + 1));
    }
    let ds = d.as_str();
    let ts = t.as_str();
    let dlen = ds.as_bytes().len();
    let tlen = ts.as_bytes().len();
    proof {
        assert(ds@ == token@.take(k as int));
        assert(ts@ == token@.skip(k + 1));
        assert(dlen == encode_utf8(token@.take(k as int)).len());
        assert(tlen == encode_utf8(token@.skip(k + 1)).len());
    }
    if dlen < 8 || tlen < 6 {
        return Err(Some(invalid_date(token)));
    }
    let ghost invalid = SwanStop::Failure("Invalid SWAN date: "@ + token@);
    if !ds.is_char_boundary(4) {
        return Err(None);
    }
    let year = match date_part(ds, 0, 4, i32::MIN as i64, i32::MAX as i64) {
        Ok(v) => v as i32,
        Err(e) => {
            return Err(Some(e));
        },
    };
    if !ds.is_char_boundary(6) {
        return Err(None);
    }
    let month = match date_part(ds, 4, 6, 0, u32::MAX as i64) {
        Ok(v) => v as u32,
        Err(e) => {
            return Err(Some(e));
        },
    };
    if !ds.is_char_boundary(8) {
        return Err(None);
    }
    let day = match date_part(ds, 6, 8, 0, u32::MAX as i64) {
        Ok(v) => v as u32,
        Err(e) => {
            return Err(Some(e));
        },
    };
    if !ts.is_char_boundary(2) {
        return Err(None);
    }
    let hour = match date_part(ts, 0, 2, 0, u32::MAX as i64) {
        Ok(v) => v as u32,
        Err(e) => {
            return Err(Some(e));
        },
    };
    if !ts.is_char_boundary(4) {
        return Err(None);
    }
    let minute = match date_part(ts, 2, 4, 0, u32::MAX as i64) {
        Ok(v) => v as u32,
        Err(e) => {
            return Err(Some(e));
        },
    };
    if !ts.is_char_boundary(6) {
        return Err(None);
    }
    let second = match date_part(ts, 4, 6, 0, u32::MAX as i64) {
        Ok(v) => v as u32,
        Err(e) => {
            return Err(Some(e));
        },
    };
    match utc_datetime(year, month, day, hour, minute, second) {
        Some(dt) => Ok(dt),
        None => Err(Some(invalid_date(token))),
    }
}

/// A step that reads the line at `i`: the line and the next index.
pub open spec fn sw_next(ls: Seq<Seq<char>>, i: int) -> Result<(Seq<char>, int), SwanStop> {
    if 0 <= i < ls.len() {
        Ok((ls[i], i + 1))
    } else {
        Err(SwanStop::Eof)
    }
}

/// A line with a count at its head.
pub open spec fn sw_count(ls: Seq<Seq<char>>, i: int) -> Result<(int, int), SwanStop> {
    match sw_next(ls, i) {
        Err(e) => Err(e),
        Ok((l, j)) => match spec_parse_count(l) {
            Err(e) => Err(e),
            Ok(n) => Ok((n, j)),
        },
    }
}

/// `n` float values, one at the head of each line.
pub open spec fn sw_values(ls: Seq<Seq<char>>, i: int, n: nat) -> Result<
    (Seq<Seq<char>>, int),
    SwanStop,
>
    decreases n,
{
    if n == 0 {
        Ok((Seq::empty(), i))
    } else {
        match sw_values(ls, i, (n - 1) as nat) {
            Err(e) => Err(e),
            Ok((vs, j)) => match sw_next(ls, j) {
                Err(e) => Err(e),
                Ok((l, k)) => match spec_parse_f64(first_word(l)) {
                    Err(e) => Err(e),
                    Ok(v) => Ok((vs.push(v), k)),
                },
            },
        }
    }
}

/// Token `k` of `tokens`, or the empty text.
pub open spec fn token_or_empty(tokens: Seq<Seq<char>>, k: int) -> Seq<char> {
    if 0 <= k < tokens.len() {
        tokens[k]
    } else {
        Seq::empty()
    }
}

/// `n` locations, `x y` (longitude then latitude) on each line.
pub open spec fn sw_locations(ls: Seq<Seq<char>>, i: int, n: nat) -> Result<
    (Seq<(Seq<char>, Seq<char>)>, int),
    SwanStop,
>
    decreases n,
{
    if n == 0 {
        Ok((Seq::empty(), i))
    } else {
        match sw_locations(ls, i, (n - 1) as nat) {
            Err(e) => Err(e),
            Ok((vs, j)) => match sw_next(ls, j) {
                Err(e) => Err(e),
                Ok((l, k)) => {
                    let tokens = split_ws(l);
                    match spec_parse_f64(token_or_empty(tokens, 0)) {
                        Err(e) => Err(e),
                        Ok(x) => match spec_parse_f64(token_or_empty(tokens, 1)) {
                            Err(e) => Err(e),
                            Ok(y) => Ok((vs.push((x, y)), k)),
                        },
                    }
                },
            },
        }
    }
}

/// The header of a SWAN file: time dependent, locations, frequencies,
/// directions in degrees, cartesian directions, exception value.
pub type SwanHeaderText = (
    bool,
    Seq<(Seq<char>, Seq<char>)>,
    Seq<Seq<char>>,
    Seq<Seq<char>>,
    bool,
    Seq<char>,
);

/// The grid part of the header from the frequency keyword on.
pub open spec fn sw_grid(ls: Seq<Seq<char>>, i: int) -> Result<
    (Seq<Seq<char>>, Seq<Seq<char>>, bool, Seq<char>, int),
    SwanStop,
> {
    match sw_next(ls, i) {
        Err(e) => Err(e),
        Ok((_, i1)) => match sw_count(ls, i1) {
            Err(e) => Err(e),
            Ok((nfreq, i2)) => match sw_values(ls, i2, nfreq as nat) {
                Err(e) => Err(e),
                Ok((freq, i3)) => match sw_next(ls, i3) {
                    Err(e) => Err(e),
                    Ok((dir_kw, i4)) => match sw_count(ls, i4) {
                        Err(e) => Err(e),
                        Ok((ndir, i5)) => match sw_values(ls, i5, ndir as nat) {
                            Err(e) => Err(e),
                            Ok((dir, i6)) => match sw_next(ls, i6) {
                                Err(e) => Err(e),
                                Ok((_, i7)) => match sw_count(ls, i7) {
                                    Err(e) => Err(e),
                                    Ok((nquant, i8)) => if nquant != 1 {
                                        Err(
                                            SwanStop::Failure(
                                                "Expected single quantity 2D spectra, found "@
                                                    + decimal(nquant as nat),
                                            ),
                                        )
                                    } else {
                                        match sw_next(ls, i8) {
                                            Err(e) => Err(e),
                                            Ok((_, i9)) => match sw_next(ls, i9) {
                                                Err(e) => Err(e),
                                                Ok((_, i10)) => match sw_next(ls, i10) {
                                                    Err(e) => Err(e),
                                                    Ok((l, i11)) => match spec_parse_f64(
                                                        first_word(l),
                                                    ) {
                                                        Err(e) => Err(e),
                                                        Ok(exc) => Ok(
                                                            (
                                                                freq,
                                                                dir,
                                                                ascii_lower(first_word(dir_kw))
                                                                    == "cdir"@,
                                                                exc,
                                                                i11,
                                                            ),
                                                        ),
                                                    },
                                                },
                                            },
                                        }
                                    },
                                },
                            },
                        },
                    },
                },
            },
        },
    }
}

/// The header, and the index of the first line after it.
pub open spec fn sw_header(ls: Seq<Seq<char>>) -> Result<(SwanHeaderText, int), SwanStop> {
    match sw_next(ls, 0) {
        Err(e) => Err(e),
        Ok((first, i1)) => if !has_substring(first, "SWAN"@) {
            Err(SwanStop::Failure("Missing SWAN header"@))
        } else {
            let peeked = if i1 < ls.len() {
                ls[i1]
            } else {
                Seq::empty()
            };
            let td = first_word(peeked) == "TIME"@;
            let after_time = if td {
                match sw_next(ls, i1) {
                    Err(e) => Err(e),
                    Ok((_, i2)) => match sw_next(ls, i2) {
                        Err(e) => Err(e),
                        Ok((_, i3)) => Ok(i3),
                    },
                }
            } else {
                Ok(i1)
            };
            match after_time {
                Err(e) => Err(e),
                Ok(i3) => match sw_next(ls, i3) {
                    Err(e) => Err(e),
                    Ok((_, i4)) => match sw_count(ls, i4) {
                        Err(e) => Err(e),
                        Ok((nloc, i5)) => match sw_locations(ls, i5, nloc as nat) {
                            Err(e) => Err(e),
                            Ok((locs, i6)) => match sw_grid(ls, i6) {
                                Err(e) => Err(e),
                                Ok((freq, dir, cartesian, exc, i7)) => Ok(
                                    ((td, locs, freq, dir, cartesian, exc), i7),
                                ),
                            },
                        },
                    },
                },
            }
        },
    }
}

/// A spectrum block: whether it is `FACTOR` scaled, the factor, and the
/// rows of scaled densities (a `ZERO` block has none).
pub type BlockText = (bool, Seq<char>, Seq<Seq<Seq<char>>>);

/// The stop of the first of `tokens` that is not a float.
pub open spec fn float_stop(tokens: Seq<Seq<char>>) -> Option<SwanStop>
    decreases tokens.len(),
{
    if tokens.len() == 0 {
        None
    } else {
        match spec_parse_f64(tokens[0]) {
            Err(e) => Some(e),
            Ok(_) => float_stop(tokens.drop_first()),
        }
    }
}

/// `n` rows of densities, each with at least `nd` values.
pub open spec fn sw_rows(ls: Seq<Seq<char>>, i: int, n: nat, nd: int) -> Result<
    (Seq<Seq<Seq<char>>>, int),
    SwanStop,
>
    decreases n,
{
    if n == 0 {
        Ok((Seq::empty(), i))
    } else {
        match sw_rows(ls, i, (n - 1) as nat, nd) {
            Err(e) => Err(e),
            Ok((rows, j)) => match sw_next(ls, j) {
                Err(e) => Err(e),
                Ok((l, k)) => match float_stop(split_ws(l)) {
                    Some(e) => Err(e),
                    None => if split_ws(l).len() < nd {
                        Err(SwanStop::Failure("SWAN density row shorter than direction count"@))
                    } else {
                        Ok((rows.push(split_ws(l)), k))
                    },
                },
            },
        }
    }
}

/// One spectrum block: none for `NODATA`.
pub open spec fn sw_spectrum(ls: Seq<Seq<char>>, i: int, nk: nat, nd: int) -> Result<
    (Option<BlockText>, int),
    SwanStop,
> {
    match sw_next(ls, i) {
        Err(e) => Err(e),
        Ok((l, j)) => {
            let kw = upper_text(first_word(l));
            if kw == "NODATA"@ {
                Ok((None, j))
            } else if kw == "ZERO"@ {
                Ok((Some((false, Seq::empty(), Seq::empty())), j))
            } else if kw == "FACTOR"@ {
                match sw_next(ls, j) {
                    Err(e) => Err(e),
                    Ok((fl, j2)) => match spec_parse_f64(first_word(fl)) {
                        Err(e) => Err(e),
                        Ok(f) => match sw_rows(ls, j2, nk, nd) {
                            Err(e) => Err(e),
                            Ok((rows, j3)) => Ok((Some((true, f, rows)), j3)),
                        },
                    },
                }
            } else {
                Err(SwanStop::Failure("Unexpected SWAN spectrum keyword: "@ + kw))
            }
        },
    }
}

/// A record: its time, the index of its location, and its block.
pub type RecordText = (Option<UtcDateTime>, int, BlockText);

/// The blocks of locations `k..nloc` for one time, stopping early when
/// the lines run out.
pub open spec fn sw_blocks(
    ls: Seq<Seq<char>>,
    i: int,
    nloc: int,
    k: int,
    date: Option<UtcDateTime>,
    nk: nat,
    nd: int,
    acc: Seq<RecordText>,
) -> Result<(Seq<RecordText>, int), SwanStop>
    decreases nloc - k,
{
    if k >= nloc || i >= ls.len() {
        Ok((acc, i))
    } else {
        match sw_spectrum(ls, i, nk, nd) {
            Err(e) => Err(e),
            Ok((blk, j)) => sw_blocks(
                ls,
                j,
                nloc,
                k + 1,
                date,
                nk,
                nd,
                match blk {
                    Some(b) => acc.push((date, k, b)),
                    None => acc,
                },
            ),
        }
    }
}

/// The records from line `i` on: for a time dependent file, a time stamp
/// line then the blocks of each location, until the lines run out; else
/// the blocks of each location once. (Each round reads a line, so `j > i`
/// always holds.)
pub open spec fn sw_records(
    ls: Seq<Seq<char>>,
    i: int,
    td: bool,
    nloc: int,
    nk: nat,
    nd: int,
    acc: Seq<RecordText>,
) -> Result<Seq<RecordText>, SwanStop>
    decreases ls.len() - i,
{
    if !td {
        match sw_blocks(ls, i, nloc, 0, None, nk, nd, acc) {
            Err(e) => Err(e),
            Ok((recs, _)) => Ok(recs),
        }
    } else if i < 0 || i >= ls.len() {
        Ok(acc)
    } else {
        match spec_swan_date(first_word(ls[i])) {
            Err(e) => Err(e),
            Ok(d) => match sw_blocks(ls, i + 1, nloc, 0, Some(d), nk, nd, acc) {
                Err(e) => Err(e),
                Ok((recs, j)) => if j >= ls.len() || j <= i {
                    Ok(recs)
                } else {
                    sw_records(ls, j, td, nloc, nk, nd, recs)
                },
            },
        }
    }
}

/// A SWAN spectral file: its header and its records, or why reading it
/// stops.
pub open spec fn spec_from_swan(data: Seq<char>) -> Result<(SwanHeaderText, Seq<RecordText>), SwanStop> {
    let ls = meaningful_lines(lines(data));
    match sw_header(ls) {
        Err(e) => Err(e),
        Ok((h, i)) => match sw_records(ls, i, h.0, h.1.len() as int, h.2.len(), h.3.len() as int, Seq::empty()) {
            Err(e) => Err(e),
            Ok(recs) => Ok((h, recs)),
        },
    }
}

/// The grid and header of a SWAN spectral file. Numbers are held as the
/// float text they were read as; directions are in degrees.
#[derive(Clone, Debug)]
pub struct SwanSpectraHeader {
    pub time_dependent: bool,
    /// `(x, y)`: longitude then latitude.
    pub locations: Vec<(String, String)>,
    /// Frequency bins in Hz
    pub frequency: Vec<String>,
    /// Direction bins in degrees
    pub direction: Vec<String>,
    pub dir_convention: DirectionConvention,
    pub exception: String,
}

/// A spectrum given in a file: all zero, or densities per degree that are
/// `factor` times the values of `rows` (one row per frequency, one value
/// per direction).
#[derive(Clone, Debug)]
pub enum SpectrumBlock {
    Zero,
    Factor { factor: String, rows: Vec<Vec<String>> },
}

/// A single SWAN spectrum: one location (by its index in the header), one
/// (optional) time.
#[derive(Clone, Debug)]
pub struct SwanSpectraDataRecord {
    pub date: Option<UtcDateTime>,
    pub location: usize,
    pub block: SpectrumBlock,
}

pub open spec fn location_views(v: Seq<(String, String)>) -> Seq<(Seq<char>, Seq<char>)> {
    v.map_values(|p: (String, String)| (p.0@, p.1@))
}

pub open spec fn row_views(v: Seq<Vec<String>>) -> Seq<Seq<Seq<char>>> {
    v.map_values(|r: Vec<String>| string_views(r@))
}

pub open spec fn header_view(h: SwanSpectraHeader) -> SwanHeaderText {
    (
        h.time_dependent,
        location_views(h.locations@),
        string_views(h.frequency@),
        string_views(h.direction@),
        h.dir_convention == DirectionConvention::Met,
        h.exception@,
    )
}

/// `h` is the header `hw` as read: its view, and the direction convention
/// that its directions are given in, the meteorological one for cartesian
/// directions and the coming-from one for nautical directions.
pub open spec fn header_is(h: SwanSpectraHeader, hw: SwanHeaderText) -> bool {
    &&& header_view(h) == hw
    &&& h.dir_convention == if hw.4 {
        DirectionConvention::Met
    } else {
        DirectionConvention::From
    }
}

pub open spec fn block_view(b: SpectrumBlock) -> BlockText {
    match b {
        SpectrumBlock::Zero => (false, Seq::empty(), Seq::empty()),
        SpectrumBlock::Factor { factor, rows } => (true, factor@, row_views(rows@)),
    }
}

pub open spec fn record_view(r: SwanSpectraDataRecord) -> RecordText {
    (r.date, r.location as int, block_view(r.block))
}

pub open spec fn record_views(v: Seq<SwanSpectraDataRecord>) -> Seq<RecordText> {
    v.map_values(|r: SwanSpectraDataRecord| record_view(r))
}

proof fn lemma_values_stop(ls: Seq<Seq<char>>, i: int, k: nat, n: nat)
    requires
        k <= n,
        sw_values(ls, i, k) is Err,
    ensures
        sw_values(ls, i, n) == sw_values(ls, i, k),
    decreases n - k,
{
    if k < n {
        lemma_values_stop(ls, i, k, (n - 1) as nat);
    }
}

proof fn lemma_locations_stop(ls: Seq<Seq<char>>, i: int, k: nat, n: nat)
    requires
        k <= n,
        sw_locations(ls, i, k) is Err,
    ensures
        sw_locations(ls, i, n) == sw_locations(ls, i, k),
    decreases n - k,
{
    if k < n {
        lemma_locations_stop(ls, i, k, (n - 1) as nat);
    }
}

proof fn lemma_rows_stop(ls: Seq<Seq<char>>, i: int, k: nat, n: nat, nd: int)
    requires
        k <= n,
        sw_rows(ls, i, k, nd) is Err,
    ensures
        sw_rows(ls, i, n, nd) == sw_rows(ls, i, k, nd),
    decreases n - k,
{
    if k < n {
        lemma_rows_stop(ls, i, k, (n - 1) as nat, nd);
    }
}

fn read_count(cur: &mut Cursor) -> (r: Result<usize, DataRecordParsingError>)
    ensures
        final(cur).text() == old(cur).text(),
        final(cur).at() >= old(cur).at(),
        match (r, sw_count(old(cur).text(), old(cur).at())) {
            (Ok(v), Ok((w, j))) => v == w && final(cur).at() == j,
            (Err(e), Err(stop)) => stop_matches(e, stop),
            _ => false,
        },
{
    let line = match cur.next() {
        Ok(l) => l,
        Err(e) => {
            return Err(e);
        },
    };
    parse_count(line.as_str())
}

/// Read `n` values, one per line (first token of each).
fn read_values(cur: &mut Cursor, n: usize) -> (r: Result<Vec<String>, DataRecordParsingError>)
    ensures
        final(cur).text() == old(cur).text(),
        final(cur).at() >= old(cur).at(),
        match (r, sw_values(old(cur).text(), old(cur).at(), n as nat)) {
            (Ok(v), Ok((w, j))) => string_views(v@) == w && final(cur).at() == j,
            (Err(e), Err(stop)) => stop_matches(e, stop),
            _ => false,
        },
{
    let ghost ls = cur.text();
    let ghost i0 = cur.at();
    let mut values: Vec<String> = Vec::new();
    proof {
        assert(string_views(values@) =~= Seq::<Seq<char>>::empty());
    }
    while values.len() < n
        invariant
            values.len() <= n,
            cur.text() == ls,
            cur.at() >= i0,
            ls == old(cur).text(),
            i0 == old(cur).at(),
            sw_values(ls, i0, values.len() as nat) == Ok::<(Seq<Seq<char>>, int), SwanStop>(
                (string_views(values@), cur.at()),
            ),
        decreases n - values.len(),
    {
        let ghost k = values.len();
        let line = match cur.next() {
            Ok(l) => l,
            Err(e) => {
                proof {
                    lemma_values_stop(ls, i0, (k + 1) as nat, n as nat);
                }
                return Err(e);
            },
        };
        let h = head(line.as_str());
        let v = match parse_f64(h.as_str()) {
            Ok(v) => v,
            Err(e) => {
                proof {
                    lemma_values_stop(ls, i0, (k + 1) as nat, n as nat);
                }
                return Err(e);
            },
        };
        let ghost before = string_views(values@);
        values.push(v);
        proof {
            assert(string_views(values@) =~= before.push(v@));
        }
    }
    Ok(values)
}

/// Read `n` locations, `x y` on each line.
fn read_locations(cur: &mut Cursor, n: usize) -> (r: Result<
    Vec<(String, String)>,
    DataRecordParsingError,
>)
    ensures
        final(cur).text() == old(cur).text(),
        final(cur).at() >= old(cur).at(),
        match (r, sw_locations(old(cur).text(), old(cur).at(), n as nat)) {
            (Ok(v), Ok((w, j))) => location_views(v@) == w && final(cur).at() == j,
            (Err(e), Err(stop)) => stop_matches(e, stop),
            _ => false,
        },
{
    let ghost ls = cur.text();
    let ghost i0 = cur.at();
    let mut locations: Vec<(String, String)> = Vec::new();
    proof {
        assert(location_views(locations@) =~= Seq::<(Seq<char>, Seq<char>)>::empty());
    }
    while locations.len() < n
        invariant
            locations.len() <= n,
            cur.text() == ls,
            cur.at() >= i0,
            ls == old(cur).text(),
            i0 == old(cur).at(),
            sw_locations(ls, i0, locations.len() as nat) == Ok::<
                (Seq<(Seq<char>, Seq<char>)>, int),
                SwanStop,
            >((location_views(locations@), cur.at())),
        decreases n - locations.len(),
    {
        let ghost k = locations.len();
        let line = match cur.next() {
            Ok(l) => l,
            Err(e) => {
                proof {
                    lemma_locations_stop(ls, i0, (k + 1) as nat, n as nat);
                }
                return Err(e);
            },
        };
        let chars = chars_of(line.as_str());
        let tokens = words_of(&chars, 0, chars.len());
        proof {
            assert(chars@.subrange(0, chars.len() as int) =~= chars@);
        }
        let empty = String::new();
        let xt = if tokens.len() > 0 {
            &tokens[0]
        } else {
            &empty
        };
        let yt = if tokens.len() > 1 {
            &tokens[1]
        } else {
            &empty
        };
        proof {
            assert(xt@ == token_or_empty(string_views(tokens@), 0));
            assert(yt@ == token_or_empty(string_views(tokens@), 1));
        }
        let x = match parse_f64(xt.as_str()) {
            Ok(v) => v,
            Err(e) => {
                proof {
                    lemma_locations_stop(ls, i0, (k + 1) as nat, n as nat);
                }
                return Err(e);
            },
        };
        let y = match parse_f64(yt.as_str()) {
            Ok(v) => v,
            Err(e) => {
                proof {
                    lemma_locations_stop(ls, i0, (k + 1) as nat, n as nat);
                }
                return Err(e);
            },
        };
        let ghost before = location_views(locations@);
        locations.push((x, y));
        proof {
            assert(location_views(locations@) =~= before.push((x@, y@)));
        }
    }
    Ok(locations)
}

/// Whether `h` is `CDIR`, ignoring ASCII case.
fn is_cdir(h: &str) -> (b: bool)
    ensures
        b == (ascii_lower(h@) == "cdir"@),
{
    let lowered = to_ascii_lower(&chars_of(h));
    let cdir = chars_of("cdir");
    let n = lowered.len();
    proof {
        assert(lowered@.subrange(0, n as int) =~= lowered@);
    }
    crate::text::equals_at(&lowered, 0, n, &cdir)
}

/// The grid part of the header, from the frequency keyword on: see
/// `sw_grid`.
fn read_grid(cur: &mut Cursor) -> (r: Result<
    (Vec<String>, Vec<String>, bool, String),
    DataRecordParsingError,
>)
    ensures
        final(cur).text() == old(cur).text(),
        final(cur).at() >= old(cur).at(),
        match (r, sw_grid(old(cur).text(), old(cur).at())) {
            (Ok((f, d, c, x)), Ok((fw, dw, cw, xw, j))) => string_views(f@) == fw && string_views(
                d@,
            ) == dw && c == cw && x@ == xw && final(cur).at() == j,
            (Err(e), Err(stop)) => stop_matches(e, stop),
            _ => false,
        },
{
    // Frequencies (RFREQ relative / AFREQ absolute)
    if let Err(e) = cur.next() {
        return Err(e);
    }
    let nfreq = match read_count(cur) {
        Ok(n) => n,
        Err(e) => {
            return Err(e);
        },
    };
    let frequency = match read_values(cur, nfreq) {
        Ok(v) => v,
        Err(e) => {
            return Err(e);
        },
    };
    // Directions (NDIR nautical / CDIR cartesian)
    let dir_kw = match cur.next() {
        Ok(l) => l,
        Err(e) => {
            return Err(e);
        },
    };
    let cartesian = is_cdir(head(dir_kw.as_str()).as_str());
    let ndir = match read_count(cur) {
        Ok(n) => n,
        Err(e) => {
            return Err(e);
        },
    };
    let direction = match read_values(cur, ndir) {
        Ok(v) => v,
        Err(e) => {
            return Err(e);
        },
    };
    // Quantities: only single quantity 2D VaDens is supported
    if let Err(e) = cur.next() {
        return Err(e);
    }
    let nquant = match read_count(cur) {
        Ok(n) => n,
        Err(e) => {
            return Err(e);
        },
    };
    if nquant != 1 {
        let mut t = String::new();
        push_str(&mut t, "Expected single quantity 2D spectra, found ");
        push_decimal(&mut t, nquant as u64);
        return Err(DataRecordParsingError::ParseFailure(t));
    }
    // VaDens, then its unit
    if let Err(e) = cur.next() {
        return Err(e);
    }
    if let Err(e) = cur.next() {
        return Err(e);
    }
    let exception_line = match cur.next() {
        Ok(l) => l,
        Err(e) => {
            return Err(e);
        },
    };
    let exception = match parse_f64(head(exception_line.as_str()).as_str()) {
        Ok(v) => v,
        Err(e) => {
            return Err(e);
        },
    };
    Ok((frequency, direction, cartesian, exception))
}

/// The header of a SWAN file: see `sw_header`.
fn read_header(cur: &mut Cursor) -> (r: Result<SwanSpectraHeader, DataRecordParsingError>)
    requires
        old(cur).at() == 0,
    ensures
        final(cur).text() == old(cur).text(),
        match (r, sw_header(old(cur).text())) {
            (Ok(h), Ok((hw, j))) => header_is(h, hw) && final(cur).at() == j,
            (Err(e), Err(stop)) => stop_matches(e, stop),
            _ => false,
        },
{
    let first = match cur.next() {
        Ok(l) => l,
        Err(e) => {
            return Err(e);
        },
    };
    let first_chars = chars_of(first.as_str());
    if !crate::text::contains(&first_chars, &chars_of("SWAN")) {
        return Err(parse_failure("Missing SWAN header"));
    }
    let peeked = match cur.peek() {
        Some(l) => l,
        None => String::new(),
    };
    let peeked_head = chars_of(head(peeked.as_str()).as_str());
    let time = chars_of("TIME");
    let n = peeked_head.len();
    proof {
        assert(peeked_head@.subrange(0, n as int) =~= peeked_head@);
    }
    let mut time_dependent = false;
    if crate::text::equals_at(&peeked_head, 0, n, &time) {
        if let Err(e) = cur.next() {
            return Err(e);
        }
        // time coding option
        if let Err(e) = cur.next() {
            return Err(e);
        }
        time_dependent = true;
    }
    // Locations (x = longitude, y = latitude)
    if let Err(e) = cur.next() {
        return Err(e);
    }
    let nloc = match read_count(cur) {
        Ok(n) => n,
        Err(e) => {
            return Err(e);
        },
    };
    let locations = match read_locations(cur, nloc) {
        Ok(v) => v,
        Err(e) => {
            return Err(e);
        },
    };
    let (frequency, direction, cartesian, exception) = match read_grid(cur) {
        Ok(g) => g,
        Err(e) => {
            return Err(e);
        },
    };
    let dir_convention = if cartesian {
        DirectionConvention::Met
    } else {
        DirectionConvention::From
    };
    Ok(
        SwanSpectraHeader {
            time_dependent,
            locations,
            frequency,
            direction,
            dir_convention,
            exception,
        },
    )
}

/// The tokens of a density row, each a float.
fn float_tokens(line: &str) -> (r: Result<Vec<String>, DataRecordParsingError>)
    ensures
        match (r, float_stop(split_ws(line@))) {
            (Ok(v), None) => string_views(v@) == split_ws(line@),
            (Err(e), Some(stop)) => stop_matches(e, stop),
            _ => false,
        },
{
    let chars = chars_of(line);
    let tokens = words_of(&chars, 0, chars.len());
    proof {
        assert(chars@.subrange(0, chars.len() as int) =~= chars@);
        assert(string_views(tokens@).skip(0) =~= string_views(tokens@));
    }
    let ghost tv = string_views(tokens@);
    let mut i: usize = 0;
    while i < tokens.len()
        invariant
            i <= tokens.len(),
            tv == string_views(tokens@),
            tv == split_ws(line@),
            float_stop(tv) == float_stop(tv.skip(i as int)),
        decreases tokens.len() - i,
    {
        let ghost rest = tv.skip(i as int);
        proof {
            assert(rest[0] == tokens@[i as int]@);
            assert(rest.drop_first() =~= tv.skip(i + 1));
        }
        if let Err(e) = parse_f64(tokens[i].as_str()) {
            return Err(e);
        }
        i += 1;
    }
    proof {
        assert(tv.skip(i as int) =~= Seq::<Seq<char>>::empty());
    }
    Ok(tokens)
}

/// `n` rows of at least `nd` densities: see `sw_rows`.
fn read_rows(cur: &mut Cursor, n: usize, nd: usize) -> (r: Result<
    Vec<Vec<String>>,
    DataRecordParsingError,
>)
    ensures
        final(cur).text() == old(cur).text(),
        final(cur).at() >= old(cur).at(),
        match (r, sw_rows(old(cur).text(), old(cur).at(), n as nat, nd as int)) {
            (Ok(v), Ok((w, j))) => row_views(v@) == w && final(cur).at() == j,
            (Err(e), Err(stop)) => stop_matches(e, stop),
            _ => false,
        },
{
    let ghost ls = cur.text();
    let ghost i0 = cur.at();
    let mut rows: Vec<Vec<String>> = Vec::new();
    proof {
        assert(row_views(rows@) =~= Seq::<Seq<Seq<char>>>::empty());
    }
    while rows.len() < n
        invariant
            rows.len() <= n,
            cur.text() == ls,
            cur.at() >= i0,
            ls == old(cur).text(),
            i0 == old(cur).at(),
            sw_rows(ls, i0, rows.len() as nat, nd as int) == Ok::<
                (Seq<Seq<Seq<char>>>, int),
                SwanStop,
            >((row_views(rows@), cur.at())),
        decreases n - rows.len(),
    {
        let ghost k = rows.len();
        let line = match cur.next() {
            Ok(l) => l,
            Err(e) => {
                proof {
                    lemma_rows_stop(ls, i0, (k + 1) as nat, n as nat, nd as int);
                }
                return Err(e);
            },
        };
        let row = match float_tokens(line.as_str()) {
            Ok(v) => v,
            Err(e) => {
                proof {
                    lemma_rows_stop(ls, i0, (k + 1) as nat, n as nat, nd as int);
                }
                return Err(e);
            },
        };
        if row.len() < nd {
            proof {
                lemma_rows_stop(ls, i0, (k + 1) as nat, n as nat, nd as int);
            }
            return Err(parse_failure("SWAN density row shorter than direction count"));
        }
        let ghost before = row_views(rows@);
        let ghost rv = string_views(row@);
        rows.push(row);
        proof {
            assert(row_views(rows@) =~= before.push(rv));
        }
    }
    Ok(rows)
}

/// Read a single spectrum block (FACTOR / ZERO / NODATA) for one location.
fn read_spectrum(cur: &mut Cursor, nk: usize, nd: usize) -> (r: Result<
    Option<SpectrumBlock>,
    DataRecordParsingError,
>)
    ensures
        final(cur).text() == old(cur).text(),
        final(cur).at() >= old(cur).at(),
        match (r, sw_spectrum(old(cur).text(), old(cur).at(), nk as nat, nd as int)) {
            (Ok(b), Ok((bw, j))) => final(cur).at() == j && match (b, bw) {
                (Some(x), Some(y)) => block_view(x) == y,
                (None, None) => true,
                _ => false,
            },
            (Err(e), Err(stop)) => stop_matches(e, stop),
            _ => false,
        },
{
    let line = match cur.next() {
        Ok(l) => l,
        Err(e) => {
            return Err(e);
        },
    };
    let kw = to_uppercase(head(line.as_str()).as_str());
    let kw_chars = chars_of(kw.as_str());
    let n = kw_chars.len();
    proof {
        assert(kw_chars@.subrange(0, n as int) =~= kw_chars@);
    }
    if crate::text::equals_at(&kw_chars, 0, n, &chars_of("NODATA")) {
        Ok(None)
    } else if crate::text::equals_at(&kw_chars, 0, n, &chars_of("ZERO")) {
        Ok(Some(SpectrumBlock::Zero))
    } else if crate::text::equals_at(&kw_chars, 0, n, &chars_of("FACTOR")) {
        let factor_line = match cur.next() {
            Ok(l) => l,
            Err(e) => {
                return Err(e);
            },
        };
        let factor = match parse_f64(head(factor_line.as_str()).as_str()) {
            Ok(v) => v,
            Err(e) => {
                return Err(e);
            },
        };
        let rows = match read_rows(cur, nk, nd) {
            Ok(v) => v,
            Err(e) => {
                return Err(e);
            },
        };
        Ok(Some(SpectrumBlock::Factor { factor, rows }))
    } else {
        Err(parse_failure_with("Unexpected SWAN spectrum keyword: ", kw.as_str()))
    }
}

/// The blocks of the locations for one time, appended to `records`; see
/// `sw_blocks`.
fn read_blocks(
    cur: &mut Cursor,
    nloc: usize,
    date: Option<UtcDateTime>,
    nk: usize,
    nd: usize,
    records: &mut Vec<SwanSpectraDataRecord>,
) -> (r: Result<(), DataRecordParsingError>)
    ensures
        final(cur).text() == old(cur).text(),
        final(cur).at() >= old(cur).at(),
        match (
            r,
            sw_blocks(
                old(cur).text(),
                old(cur).at(),
                nloc as int,
                0,
                date,
                nk as nat,
                nd as int,
                record_views(old(records)@),
            ),
        ) {
            (Ok(()), Ok((recs, j))) => record_views(final(records)@) == recs && final(cur).at() == j,
            (Err(e), Err(stop)) => stop_matches(e, stop),
            _ => false,
        },
{
    let ghost ls = cur.text();
    let ghost i0 = cur.at();
    let ghost target = sw_blocks(
        ls,
        i0,
        nloc as int,
        0,
        date,
        nk as nat,
        nd as int,
        record_views(records@),
    );
    let mut k: usize = 0;
    while k < nloc && cur.peek().is_some()
        invariant
            k <= nloc,
            cur.text() == ls,
            cur.at() >= i0,
            ls == old(cur).text(),
            i0 == old(cur).at(),
            target == sw_blocks(
                old(cur).text(),
                old(cur).at(),
                nloc as int,
                0,
                date,
                nk as nat,
                nd as int,
                record_views(old(records)@),
            ),
            target == sw_blocks(
                ls,
                cur.at(),
                nloc as int,
                k as int,
                date,
                nk as nat,
                nd as int,
                record_views(records@),
            ),
        decreases nloc - k,
    {
        match read_spectrum(cur, nk, nd) {
            Err(e) => {
                return Err(e);
            },
            Ok(Some(block)) => {
                let ghost before = record_views(records@);
                let ghost bv = block_view(block);
                records.push(SwanSpectraDataRecord { date, location: k, block });
                proof {
                    assert(record_views(records@) =~= before.push((date, k as int, bv)));
                }
            },
            Ok(None) => {},
        }
        k += 1;
    }
    Ok(())
}

impl SwanSpectraDataRecord {
    /// Parse a SWAN standard spectral (2D) file into its header and
    /// records; see `spec_from_swan`. A file whose time stamps make string
    /// slicing panic is left out.
    pub fn from_swan(data: &str) -> (r: Result<
        (SwanSpectraHeader, Vec<SwanSpectraDataRecord>),
        DataRecordParsingError,
    >)
        requires
            spec_from_swan(data@) != Err::<(SwanHeaderText, Seq<RecordText>), SwanStop>(
                SwanStop::Panic,
            ),
        ensures
            match (r, spec_from_swan(data@)) {
                (Ok((h, recs)), Ok((hw, rw))) => header_is(h, hw) && record_views(recs@) == rw,
                (Err(e), Err(stop)) => stop_matches(e, stop),
                _ => false,
            },
    {
        match Self::try_from_swan(data) {
            Some(r) => r,
            None => Err(DataRecordParsingError::InvalidData),
        }
    }

    /// As `from_swan`, but `None` on the files whose time stamps make it
    /// panic.
    pub fn try_from_swan(data: &str) -> (r: Option<
        Result<(SwanSpectraHeader, Vec<SwanSpectraDataRecord>), DataRecordParsingError>,
    >)
        ensures
            match (r, spec_from_swan(data@)) {
                (None, Err(SwanStop::Panic)) => true,
                (Some(Ok((h, recs))), Ok((hw, rw))) => header_is(h, hw) && record_views(recs@)
                    == rw,
                (Some(Err(e)), Err(stop)) => stop_matches(e, stop),
                _ => false,
            },
    {
        let mut cur = Cursor::new(data);
        let ghost ls = cur.text();
        let header = match read_header(&mut cur) {
            Ok(h) => h,
            Err(e) => {
                return Some(Err(e));
            },
        };
        let td = header.time_dependent;
        let nloc = header.locations.len();
        let nk = header.frequency.len();
        let nd = header.direction.len();
        let ghost target = sw_records(
            ls,
            cur.at(),
            td,
            nloc as int,
            nk as nat,
            nd as int,
            Seq::empty(),
        );
        let mut records: Vec<SwanSpectraDataRecord> = Vec::new();
        proof {
            assert(record_views(records@) =~= Seq::<RecordText>::empty());
        }
        loop
            invariant_except_break
                target == sw_records(
                    ls,
                    cur.at(),
                    td,
                    nloc as int,
                    nk as nat,
                    nd as int,
                    record_views(records@),
                ),
            invariant
                cur.text() == ls,
                ls == meaningful_lines(lines(data@)),
                td == header.time_dependent,
                nloc == header.locations.len(),
                nk == header.frequency.len(),
                nd == header.direction.len(),
                sw_header(ls) matches Ok((hw, _)) && header_is(header, hw),
                spec_from_swan(data@) == match target {
                    Err(e) => Err(e),
                    Ok(recs) => Ok((header_view(header), recs)),
                },
            ensures
                target == Ok::<Seq<RecordText>, SwanStop>(record_views(records@)),
            decreases ls.len() - cur.at(),
        {
            let ghost at = cur.at();
            let date = if td {
                match cur.peek() {
                    Some(line) => {
                        let d = match parse_swan_date(head(line.as_str()).as_str()) {
                            Ok(d) => d,
                            Err(Some(e)) => {
                                return Some(Err(e));
                            },
                            Err(None) => {
                                return None;
                            },
                        };
                        if let Err(e) = cur.next() {
                            return Some(Err(e));
                        }
                        Some(d)
                    },
                    None => {
                        break ;
                    },
                }
            } else {
                None
            };
            if let Err(e) = read_blocks(&mut cur, nloc, date, nk, nd, &mut records) {
                return Some(Err(e));
            }
            if !td || cur.peek().is_none() {
                break ;
            }
        }
        Some(Ok((header, records)))
    }
}

} // verus!
