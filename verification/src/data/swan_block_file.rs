//! SWAN `BLOCK ... HEAD` raster output (such as `hsign.blk`).
//!
//! SWAN prints the computational grid in bands of columns: each band opens
//! with a `%    0   1   2 ...` x-index header, followed by one fixed-width
//! row per y index (4-byte cells starting at byte 6, `****` for
//! exception/land cells). A `Unit:` factor in the header scales the cells
//! that follow it.
//!
//! Cells are held as the float text they were read as, with the factor in
//! effect when they were read.

use vstd::prelude::*;
use vstd::utf8::{
    decode_utf8, encode_utf8, encode_utf8_valid_utf8, is_char_boundary, valid_utf8, valid_utf8_split,
};

use crate::text::{
    chars_of, check_float, contains, decimal, first_word, first_word_bounds, float_result,
    int_result, is_digit, is_whitespace, is_ws, line_spans, lines, matches_at, occurs_at,
    parse_uint, push_decimal, push_str, split_ws, string_views, substring, trim, trim_bounds,
    trim_start, words_of, IntErrorKind,
};

verus! {

/// A cell of the grid: its `(x, y)` index, its text, and the `Unit:`
/// factor in effect when it was read (none for a factor of one).
pub type BlockCell = ((usize, usize), String, Option<String>);

#[derive(Clone, Debug)]
pub struct SwanBlockFile {
    /// The populated cells.
    pub values: Vec<BlockCell>,
    /// The last `Unit:` factor of the file, if any.
    pub unit: Option<String>,
}

#[derive(Clone, Debug)]
pub enum SwanBlockError {
    Parse { line: usize, message: String },
    Empty,
}

impl SwanBlockError {
    fn parse(line: usize, message: String) -> (e: Self)
        ensures
            e == (SwanBlockError::Parse { line, message }),
    {
        SwanBlockError::Parse { line, message }
    }

    /// The text that the error displays.
    pub open spec fn spec_message(self) -> Seq<char> {
        match self {
            SwanBlockError::Parse { line, message } => "SWAN block parse error on line "@ + decimal(
                line as nat,
            ) + ": "@ + message@,
            SwanBlockError::Empty => "no grid values found in SWAN block output"@,
        }
    }

    pub fn message(&self) -> (m: String)
        ensures
            m@ == self.spec_message(),
    {
        let mut m = String::new();
        match self {
            SwanBlockError::Parse { line, message } => {
                push_str(&mut m, "SWAN block parse error on line ");
                push_decimal(&mut m, *line as u64);
                push_str(&mut m, ": ");
                push_str(&mut m, message.as_str());
            },
            SwanBlockError::Empty => push_str(&mut m, "no grid values found in SWAN block output"),
        }
        m
    }
}

/// The number of ASCII digits at the start of `s`.
pub open spec fn leading_digits(s: Seq<char>) -> int
    decreases s.len(),
{
    if s.len() > 0 && is_digit(s[0]) {
        1 + leading_digits(s.drop_first())
    } else {
        0
    }
}

proof fn lemma_leading_digits(s: Seq<char>, k: int)
    requires
        0 <= k <= s.len(),
        forall|j: int| 0 <= j < k ==> is_digit(#[trigger] s[j]),
        k == s.len() || !is_digit(s[k]),
    ensures
        leading_digits(s) == k,
    decreases k,
{
    if k > 0 {
        lemma_leading_digits(s.drop_first(), k - 1);
    }
}

/// Optional leading whitespace, then a y-index integer, then a whitespace
/// character (`^\s*\d+\s`).
pub open spec fn is_block_row(line: Seq<char>) -> bool {
    let rest = trim_start(line);
    let d = leading_digits(rest);
    d > 0 && d < rest.len() && is_ws(rest[d])
}

fn is_data_row(line: &str) -> (b: bool)
    ensures
        b == is_block_row(line@),
{
    let chars = chars_of(line);
    let n = chars.len();
    let (a, _e) = trim_bounds(&chars, 0, n);
    let mut s: usize = 0;
    while s < n && is_whitespace(chars[s])
        invariant
            s <= n == chars.len(),
            forall|j: int| 0 <= j < s ==> is_ws(#[trigger] chars@[j]),
        decreases n - s,
    {
        s += 1;
    }
    proof {
        assert(chars@.subrange(0, n as int) =~= chars@);
        crate::text::lemma_trim_start_skip_pub(chars@, s as int);
        assert(chars@.skip(s as int) =~= chars@.subrange(s as int, n as int));
        if s < n {
            assert(trim_start(chars@.subrange(s as int, n as int)) == chars@.subrange(s as int, n as int));
        } else {
            assert(chars@.subrange(s as int, n as int).len() == 0);
        }
    }
    let ghost rest = chars@.subrange(s as int, n as int);
    let mut d = s;
    while d < n && '0' <= chars[d] && chars[d] <= '9'
        invariant
            s <= d <= n == chars.len(),
            forall|j: int| s <= j < d ==> is_digit(#[trigger] chars@[j]),
        decreases n - d,
    {
        d += 1;
    }
    proof {
        assert forall|j: int| 0 <= j < d - s implies is_digit(#[trigger] rest[j]) by {
            assert(rest[j] == chars@[s + j]);
        }
        if d < n {
            assert(rest[d - s] == chars@[d as int]);
        }
        lemma_leading_digits(rest, d - s);
    }
    d > s && d < n && is_whitespace(chars[d])
}

/// The index of the first occurrence of `p` in `s`.
pub open spec fn find_sub(s: Seq<char>, p: Seq<char>) -> Option<int>
    decreases s.len(),
{
    if p.len() == 0 {
        Some(0)
    } else if s.len() < p.len() {
        None
    } else if s.take(p.len() as int) == p {
        Some(0)
    } else {
        match find_sub(s.drop_first(), p) {
            Some(i) => Some(i + 1),
            None => None,
        }
    }
}

/// The second piece of `line` split at `Unit:`: what follows its first
/// `Unit:` up to the next one.
pub open spec fn unit_piece(line: Seq<char>) -> Option<Seq<char>> {
    match find_sub(line, "Unit:"@) {
        None => None,
        Some(k) => {
            let rest = line.skip(k + 5);
            match find_sub(rest, "Unit:"@) {
                None => Some(rest),
                Some(k2) => Some(rest.take(k2)),
            }
        },
    }
}

/// An x-index header line of a band: `%` and three spaces, with a digit.
pub open spec fn is_band_header(line: Seq<char>) -> bool {
    &&& line.len() >= 4
    &&& line.take(4) == "%   "@
    &&& exists|j: int| 0 <= j < line.len() && is_digit(#[trigger] line[j])
}

/// The words of `s` after the first, as `split_whitespace().skip(1)`.
pub open spec fn words_after_first(s: Seq<char>) -> Seq<Seq<char>> {
    if split_ws(s).len() > 0 {
        split_ws(s).skip(1)
    } else {
        Seq::empty()
    }
}

/// Rust's `usize` `from_str` on each of `tokens`, stopping at the first
/// failure.
pub open spec fn parse_indices(tokens: Seq<Seq<char>>) -> Result<Seq<int>, IntErrorKind>
    decreases tokens.len(),
{
    if tokens.len() == 0 {
        Ok(Seq::empty())
    } else {
        match int_result(tokens[0], 0, usize::MAX as int) {
            Err(k) => Err(k),
            Ok(v) => match parse_indices(tokens.drop_first()) {
                Err(k) => Err(k),
                Ok(rest) => Ok(seq![v] + rest),
            },
        }
    }
}

/// A cell as read: index, text and factor in effect.
pub type CellText = ((int, int), Seq<char>, Option<Seq<char>>);

/// The state of a read: the factor in effect, the x indices of the
/// current band, and the cells so far.
pub type BlockState = (Option<Seq<char>>, Seq<int>, Seq<CellText>);

/// `Err(None)` is text that makes byte slicing panic; `Err(Some(..))` a
/// failure with its line number and message.
pub type BlockStop = Option<(int, Seq<char>)>;

/// The cells of a row from band cell `k` on: 4-byte windows of the line's
/// bytes from byte 6, paired with the band's x indices while both last.
pub open spec fn block_cells(
    b: Seq<u8>,
    xs: Seq<int>,
    y: int,
    k: int,
    n: int,
    unit: Option<Seq<char>>,
    vals: Seq<CellText>,
) -> Result<Seq<CellText>, BlockStop>
    decreases xs.len() - k,
{
    let start = 6 + 4 * k;
    if k < 0 || k >= xs.len() || start >= b.len() {
        Ok(vals)
    } else {
        let end = if start + 4 <= b.len() {
            start + 4
        } else {
            b.len() as int
        };
        let w = b.subrange(start, end);
        if !valid_utf8(w) {
            Err(Some((n, "non-ASCII cell"@)))
        } else {
            let cell = decode_utf8(w);
            let t = trim(cell);
            if cell.contains('*') || t.len() == 0 {
                block_cells(b, xs, y, k + 1, n, unit, vals)
            } else {
                match float_result(t) {
                    Err(kd) => Err(Some((n, "invalid cell: "@ + kd.spec_message()))),
                    Ok(_) => block_cells(b, xs, y, k + 1, n, unit, vals.push(((xs[k], y), t, unit))),
                }
            }
        }
    }
}

/// What line number `n` does to the state.
pub open spec fn block_step(line: Seq<char>, n: int, st: BlockState) -> Result<BlockState, BlockStop> {
    match unit_piece(line) {
        Some(rest) => {
            let w = first_word(rest);
            if w.len() == 0 {
                Err(Some((n, "Unit: with no value"@)))
            } else {
                match float_result(w) {
                    Err(k) => Err(Some((n, "invalid Unit: "@ + k.spec_message()))),
                    Ok(_) => Ok((Some(w), st.1, st.2)),
                }
            }
        },
        None => if is_band_header(line) {
            match parse_indices(words_after_first(line)) {
                Err(k) => Err(Some((n, "invalid x index: "@ + k.spec_message()))),
                Ok(xs) => Ok((st.0, xs, st.2)),
            }
        } else if st.1.len() > 0 && is_block_row(line) {
            let b = encode_utf8(line);
            let m = if b.len() < 5 {
                b.len() as int
            } else {
                5
            };
            if !is_char_boundary(b, m) {
                Err(None)
            } else {
                match int_result(trim(decode_utf8(b.subrange(0, m))), 0, usize::MAX as int) {
                    Err(k) => Err(Some((n, "invalid y index: "@ + k.spec_message()))),
                    Ok(y) => match block_cells(b, st.1, y, 0, n, st.0, st.2) {
                        Err(e) => Err(e),
                        Ok(vals) => Ok((st.0, st.1, vals)),
                    },
                }
            }
        } else {
            Ok(st)
        },
    }
}

/// The state after the lines `ls`.
pub open spec fn block_after(ls: Seq<Seq<char>>) -> Result<BlockState, BlockStop>
    decreases ls.len(),
{
    if ls.len() == 0 {
        Ok((None, Seq::empty(), Seq::empty()))
    } else {
        match block_after(ls.drop_last()) {
            Err(e) => Err(e),
            Ok(st) => block_step(ls.last(), ls.len() as int, st),
        }
    }
}

/// A block file: its cells and last factor; `Err(Some(None))` when it has
/// no cells.
pub open spec fn spec_block(data: Seq<char>) -> Result<(Seq<CellText>, Option<Seq<char>>), Option<BlockStop>> {
    match block_after(lines(data)) {
        Err(e) => Err(Some(e)),
        Ok(st) => if st.2.len() == 0 {
            Err(None)
        } else {
            Ok((st.2, st.0))
        },
    }
}

/// `std::str::from_utf8`. Stated: it succeeds exactly on valid UTF-8, and
/// then gives the text those bytes encode (as the std documentation has
/// it).
#[verifier::external_body]
fn utf8_text(b: &[u8]) -> (r: Option<&str>)
    ensures
        r is Some <==> valid_utf8(b@),
        r matches Some(s) ==> s@ == decode_utf8(b@),
{
    match std::str::from_utf8(b) {
        Ok(s) => Some(s),
        Err(_) => None,
    }
}

pub open spec fn shift(o: Option<int>, d: int) -> Option<int> {
    match o {
        Some(k) => Some(k + d),
        None => None,
    }
}

/// The first occurrence of `pat` in `chars[from..to]`, relative to `from`.
fn find_in(chars: &Vec<char>, from: usize, to: usize, pat: &Vec<char>) -> (r: Option<usize>)
    requires
        from <= to <= chars.len(),
        pat.len() > 0,
    ensures
        match r {
            Some(k) => find_sub(chars@.subrange(from as int, to as int), pat@) == Some(k as int),
            None => find_sub(chars@.subrange(from as int, to as int), pat@) is None,
        },
{
    let mut i = from;
    while i < to && pat.len() <= to - i
        invariant
            from <= i <= to <= chars.len(),
            pat.len() > 0,
            find_sub(chars@.subrange(from as int, to as int), pat@) == shift(
                find_sub(chars@.subrange(i as int, to as int), pat@),
                i - from,
            ),
        decreases to - i,
    {
        let ghost sub = chars@.subrange(i as int, to as int);
        proof {
            assert(sub.take(pat.len() as int) =~= chars@.subrange(i as int, i + pat.len()));
            assert(sub.drop_first() =~= chars@.subrange(i + 1, to as int));
        }
        if matches_at(chars, i, pat) {
            return Some(i - from);
        }
        i += 1;
    }
    None
}

proof fn lemma_block_stop(ls: Seq<Seq<char>>, k: int)
    requires
        0 <= k <= ls.len(),
        block_after(ls.take(k)) is Err,
    ensures
        block_after(ls) == block_after(ls.take(k)),
    decreases ls.len() - k,
{
    if k < ls.len() {
        assert(ls.drop_last().take(k) =~= ls.take(k));
        lemma_block_stop(ls.drop_last(), k);
    } else {
        assert(ls.take(k) =~= ls);
    }
}

/// The second piece of `chars` split at `Unit:`, as bounds.
fn find_unit_piece(chars: &Vec<char>) -> (r: Option<(usize, usize)>)
    ensures
        match (r, unit_piece(chars@)) {
            (Some((a, b)), Some(p)) => a <= b <= chars.len() && chars@.subrange(a as int, b as int)
                == p,
            (None, None) => true,
            _ => false,
        },
{
    let pat = chars_of("Unit:");
    let n = chars.len();
    proof {
        reveal_strlit("Unit:");
        assert(chars@.subrange(0, n as int) =~= chars@);
    }
    match find_in(chars, 0, n, &pat) {
        None => None,
        Some(k) => {
            proof {
                lemma_find_sub_bound(chars@, pat@);
            }
            let start = k + 5;
            proof {
                assert(chars@.skip(start as int) =~= chars@.subrange(start as int, n as int));
            }
            match find_in(chars, start, n, &pat) {
                None => Some((start, n)),
                Some(k2) => {
                    proof {
                        lemma_find_sub_bound(chars@.subrange(start as int, n as int), pat@);
                        assert(chars@.subrange(start as int, n as int).take(k2 as int) =~= chars@.subrange(
                            start as int,
                            start + k2,
                        ));
                    }
                    Some((start, start + k2))
                },
            }
        },
    }
}

proof fn lemma_find_sub_bound(s: Seq<char>, p: Seq<char>)
    ensures
        find_sub(s, p) matches Some(k) ==> 0 <= k && k + p.len() <= s.len(),
    decreases s.len(),
{
    if p.len() > 0 && s.len() >= p.len() && s.take(p.len() as int) != p {
        lemma_find_sub_bound(s.drop_first(), p);
    }
}

/// Whether `chars` is a band's x-index header line.
fn band_header(chars: &Vec<char>) -> (b: bool)
    ensures
        b == is_band_header(chars@),
{
    let prefix = chars_of("%   ");
    proof {
        reveal_strlit("%   ");
    }
    if chars.len() < 4 || !matches_at(chars, 0, &prefix) {
        proof {
            if chars.len() >= 4 {
                assert(chars@.subrange(0, 4) =~= chars@.take(4));
            }
        }
        return false;
    }
    proof {
        assert(chars@.subrange(0, 4) =~= chars@.take(4));
    }
    let mut i: usize = 0;
    while i < chars.len()
        invariant
            i <= chars.len(),
            chars.len() >= 4,
            chars@.take(4) == "%   "@,
            forall|j: int| 0 <= j < i ==> !is_digit(#[trigger] chars@[j]),
        decreases chars.len() - i,
    {
        if '0' <= chars[i] && chars[i] <= '9' {
            return true;
        }
        i += 1;
    }
    false
}

/// The x indices of a band header: its words after the first, as `usize`.
fn band_indices(chars: &Vec<char>) -> (r: Result<Vec<usize>, IntErrorKind>)
    ensures
        match (r, parse_indices(words_after_first(chars@))) {
            (Ok(v), Ok(w)) => v@.map_values(|x: usize| x as int) == w,
            (Err(e), Err(f)) => e == f,
            _ => false,
        },
{
    let words = words_of(chars, 0, chars.len());
    proof {
        assert(chars@.subrange(0, chars.len() as int) =~= chars@);
    }
    let ghost tv = string_views(words@);
    let mut out: Vec<usize> = Vec::new();
    if words.len() == 0 {
        proof {
            assert(out@.map_values(|x: usize| x as int) =~= Seq::<int>::empty());
        }
        return Ok(out);
    }
    let mut i: usize = 1;
    proof {
        assert(out@.map_values(|x: usize| x as int) =~= Seq::<int>::empty());
    }
    while i < words.len()
        invariant
            1 <= i <= words.len(),
            tv == string_views(words@),
            tv == split_ws(chars@),
            parse_indices(tv.skip(1)) == match parse_indices(tv.skip(i as int)) {
                Err(k) => Err(k),
                Ok(rest) => Ok(out@.map_values(|x: usize| x as int) + rest),
            },
        decreases words.len() - i,
    {
        let w = chars_of(words[i].as_str());
        proof {
            assert(w@.subrange(0, w.len() as int) =~= w@);
            assert(tv.skip(i as int)[0] == w@);
            assert(tv.skip(i as int).drop_first() =~= tv.skip(i + 1));
        }
        match parse_uint(&w, 0, w.len(), usize::MAX as u64) {
            Err(k) => {
                return Err(k);
            },
            Ok(v) => {
                let ghost before = out@.map_values(|x: usize| x as int);
                out.push(v as usize);
                proof {
                    assert(out@.map_values(|x: usize| x as int) =~= before.push(v as int));
                    match parse_indices(tv.skip(i + 1)) {
                        Err(k) => {},
                        Ok(rest) => {
                            assert(before + (seq![v as int] + rest) =~= before.push(v as int) + rest);
                        },
                    }
                }
            },
        }
        i += 1;
    }
    proof {
        assert(tv.skip(i as int) =~= Seq::<Seq<char>>::empty());
        assert(out@.map_values(|x: usize| x as int) + Seq::<int>::empty() =~= out@.map_values(
            |x: usize| x as int,
        ));
    }
    Ok(out)
}

pub open spec fn opt_text(o: Option<String>) -> Option<Seq<char>> {
    match o {
        Some(t) => Some(t@),
        None => None,
    }
}

pub open spec fn cell_views(v: Seq<BlockCell>) -> Seq<CellText> {
    v.map_values(|c: BlockCell| ((c.0.0 as int, c.0.1 as int), c.1@, opt_text(c.2)))
}

fn copy_text(o: &Option<String>) -> (r: Option<String>)
    ensures
        opt_text(r) == opt_text(*o),
{
    match o {
        Some(t) => {
            let mut c = String::new();
            push_str(&mut c, t.as_str());
            Some(c)
        },
        None => None,
    }
}

/// `b[from..to]` as an owned vector.
fn byte_range(b: &[u8], from: usize, to: usize) -> (out: Vec<u8>)
    requires
        from <= to <= b@.len(),
    ensures
        out@ == b@.subrange(from as int, to as int),
{
    let mut out: Vec<u8> = Vec::new();
    let mut i = from;
    while i < to
        invariant
            from <= i <= to <= b@.len(),
            out@ == b@.subrange(from as int, i as int),
        decreases to - i,
    {
        out.push(b[i]);
        i += 1;
        proof {
            assert(out@ =~= b@.subrange(from as int, i as int));
        }
    }
    out
}

/// The y index and cells of a data row (line number `n`), appended to
/// `vals`; see `block_step`.
fn read_row(
    line: &str,
    n: usize,
    unit: &Option<String>,
    xs: &Vec<usize>,
    vals: &mut Vec<BlockCell>,
) -> (r: Result<(), SwanBlockError>)
    requires
        is_char_boundary(
            encode_utf8(line@),
            if encode_utf8(line@).len() < 5 {
                encode_utf8(line@).len() as int
            } else {
                5
            },
        ),
    ensures
        ({
            let b = encode_utf8(line@);
            let m = if b.len() < 5 {
                b.len() as int
            } else {
                5
            };
            let expected = match int_result(trim(decode_utf8(b.subrange(0, m))), 0, usize::MAX as int) {
                Err(k) => Err(Some((n as int, "invalid y index: "@ + k.spec_message()))),
                Ok(y) => block_cells(
                    b,
                    xs@.map_values(|x: usize| x as int),
                    y,
                    0,
                    n as int,
                    opt_text(*unit),
                    cell_views(old(vals)@),
                ),
            };
            match (r, expected) {
                (Ok(()), Ok(cells)) => cell_views(final(vals)@) == cells,
                (Err(SwanBlockError::Parse { line, message }), Err(Some((ln, m)))) => line == ln
                    && message@ == m,
                _ => false,
            }
        }),
{
    let bytes = line.as_bytes();
    let ghost b = encode_utf8(line@);
    let len = bytes.len();
    let m = if len < 5 {
        len
    } else {
        5
    };
    let ybytes = byte_range(bytes, 0, m);
    proof {
        encode_utf8_valid_utf8(line@);
        valid_utf8_split(b, m as int);
    }
    let ytext = match utf8_text(ybytes.as_slice()) {
        Some(t) => t,
        None => {
            return Err(SwanBlockError::Empty);
        },
    };
    let ychars = chars_of(ytext);
    let (ya, yb) = trim_bounds(&ychars, 0, ychars.len());
    proof {
        assert(ychars@.subrange(0, ychars.len() as int) =~= ychars@);
    }
    proof {
        assert(ybytes@ == b.subrange(0, m as int));
        assert(ychars@ == decode_utf8(b.subrange(0, m as int)));
    }
    let y = match parse_uint(&ychars, ya, yb, usize::MAX as u64) {
        Ok(v) => v as usize,
        Err(k) => {
            let mut msg = String::new();
            push_str(&mut msg, "invalid y index: ");
            push_str(&mut msg, k.message());
            return Err(SwanBlockError::parse(n, msg));
        },
    };
    let ghost xv = xs@.map_values(|x: usize| x as int);
    let ghost target = block_cells(b, xv, y as int, 0, n as int, opt_text(*unit), cell_views(vals@));
    let mut k: usize = 0;
    let mut start: u128 = 6;
    while k < xs.len() && start < len as u128
        invariant
            k <= xs.len(),
            start == 6 + 4 * k,
            m == (if b.len() < 5 {
                b.len() as int
            } else {
                5
            }),
            int_result(trim(decode_utf8(b.subrange(0, m as int))), 0, usize::MAX as int) == Ok::<
                int,
                IntErrorKind,
            >(y as int),
            bytes@ == b,
            b == encode_utf8(line@),
            len == b.len(),
            xv == xs@.map_values(|x: usize| x as int),
            target == block_cells(b, xv, y as int, 0, n as int, opt_text(*unit), cell_views(old(vals)@)),
            target == block_cells(b, xv, y as int, k as int, n as int, opt_text(*unit), cell_views(vals@)),
        decreases xs.len() - k,
    {
        let s = start as usize;
        let e: usize = if start + 4 <= len as u128 {
            (start + 4) as usize
        } else {
            len
        };
        let window = byte_range(bytes, s, e);
        proof {
            assert(window@ == b.subrange(6 + 4 * k, e as int));
        }
        let cell = match utf8_text(window.as_slice()) {
            Some(t) => chars_of(t),
            None => {
                let mut msg = String::new();
                push_str(&mut msg, "non-ASCII cell");
                return Err(SwanBlockError::parse(n, msg));
            },
        };
        let (ca, cb) = trim_bounds(&cell, 0, cell.len());
        proof {
            assert(cell@.subrange(0, cell.len() as int) =~= cell@);
        }
        let star = chars_of("*");
        let has_star = contains(&cell, &star);
        proof {
            reveal_strlit("*");
            assert("*"@ =~= seq!['*']);
            crate::text::lemma_contains_char(cell@, '*');
            assert(cell@ == decode_utf8(b.subrange(6 + 4 * k, e as int)));
        }
        if !has_star && ca < cb {
            match check_float(&cell, ca, cb) {
                Err(kd) => {
                    let mut msg = String::new();
                    push_str(&mut msg, "invalid cell: ");
                    push_str(&mut msg, kd.message());
                    return Err(SwanBlockError::parse(n, msg));
                },
                Ok(()) => {
                    let ghost before = cell_views(vals@);
                    let text = substring(&cell, ca, cb);
                    let u = copy_text(unit);
                    let ghost tv = text@;
                    vals.push(((xs[k], y), text, u));
                    proof {
                        assert(cell_views(vals@) =~= before.push(((xv[k as int], y as int), tv, opt_text(*unit))));
                    }
                },
            }
        }
        k += 1;
        start = start + 4;
    }
    Ok(())
}

impl SwanBlockFile {
    /// Reads a block file; see `spec_block`. A file whose data rows make
    /// byte slicing panic is left out.
    pub fn from_data(data: &str) -> (r: Result<Self, SwanBlockError>)
        requires
            spec_block(data@) != Err::<(Seq<CellText>, Option<Seq<char>>), Option<BlockStop>>(
                Some(None),
            ),
        ensures
            match (r, spec_block(data@)) {
                (Ok(f), Ok((cells, unit))) => cell_views(f.values@) == cells && opt_text(f.unit)
                    == unit,
                (Err(SwanBlockError::Empty), Err(None)) => true,
                (Err(SwanBlockError::Parse { line, message }), Err(Some(Some((n, m))))) => line
                    == n && message@ == m,
                _ => false,
            },
    {
        let chars = chars_of(data);
        let spans = line_spans(&chars);
        let ghost ls = lines(chars@);
        let mut values: Vec<BlockCell> = Vec::new();
        let mut xs: Vec<usize> = Vec::new();
        let mut unit: Option<String> = None;
        let mut i: usize = 0;
        proof {
            assert(ls.take(0) =~= Seq::<Seq<char>>::empty());
            assert(cell_views(values@) =~= Seq::<CellText>::empty());
            assert(xs@.map_values(|x: usize| x as int) =~= Seq::<int>::empty());
        }
        while i < spans.len()
            invariant
                i <= spans.len() == ls.len(),
                ls == lines(chars@),
                chars@ == data@,
                spec_block(data@) != Err::<(Seq<CellText>, Option<Seq<char>>), Option<BlockStop>>(
                    Some(None),
                ),
                forall|k: int|
                    0 <= k < spans.len() ==> (#[trigger] spans@[k]).0 <= spans@[k].1 <= chars.len()
                        && chars@.subrange(spans@[k].0 as int, spans@[k].1 as int) == ls[k],
                block_after(ls.take(i as int)) == Ok::<BlockState, BlockStop>(
                    (opt_text(unit), xs@.map_values(|x: usize| x as int), cell_views(values@)),
                ),
            decreases spans.len() - i,
        {
            let (a, b) = spans[i];
            let line_number = i + 1;
            let ghost state = (opt_text(unit), xs@.map_values(|x: usize| x as int), cell_views(values@));
            proof {
                assert(ls.take(i + 1).drop_last() =~= ls.take(i as int));
                assert(ls.take(i + 1).last() == ls[i as int]);
                assert(block_after(ls.take(i + 1)) == block_step(ls[i as int], i + 1, state));
            }
            let line_chars = crate::text::sub_chars(&chars, a, b);
            let line = substring(&chars, a, b);
            match find_unit_piece(&line_chars) {
                Some((pa, pb)) => {
                    let (wa, wb) = first_word_bounds(&line_chars, pa, pb);
                    if wa == wb {
                        let mut msg = String::new();
                        push_str(&mut msg, "Unit: with no value");
                        proof {
                            lemma_block_stop(ls, i + 1);
                        }
                        return Err(SwanBlockError::parse(line_number, msg));
                    }
                    match check_float(&line_chars, wa, wb) {
                        Err(k) => {
                            let mut msg = String::new();
                            push_str(&mut msg, "invalid Unit: ");
                            push_str(&mut msg, k.message());
                            proof {
                                lemma_block_stop(ls, i + 1);
                            }
                            return Err(SwanBlockError::parse(line_number, msg));
                        },
                        Ok(()) => {
                            unit = Some(substring(&line_chars, wa, wb));
                        },
                    }
                },
                None => {
                    if band_header(&line_chars) {
                        match band_indices(&line_chars) {
                            Err(k) => {
                                let mut msg = String::new();
                                push_str(&mut msg, "invalid x index: ");
                                push_str(&mut msg, k.message());
                                proof {
                                    lemma_block_stop(ls, i + 1);
                                }
                                return Err(SwanBlockError::parse(line_number, msg));
                            },
                            Ok(v) => {
                                xs = v;
                            },
                        }
                    } else if xs.len() > 0 && is_data_row(line.as_str()) {
                        proof {
                            let bb = encode_utf8(ls[i as int]);
                            let mm = if bb.len() < 5 {
                                bb.len() as int
                            } else {
                                5
                            };
                            if !is_char_boundary(bb, mm) {
                                assert(block_after(ls.take(i + 1)) == Err::<BlockState, BlockStop>(None));
                                lemma_block_stop(ls, i + 1);
                            }
                        }
                        let r = read_row(line.as_str(), line_number, &unit, &xs, &mut values);
                        if let Err(e) = r {
                            proof {
                                lemma_block_stop(ls, i + 1);
                            }
                            return Err(e);
                        }
                    }
                },
            }
            i += 1;
        }
        proof {
            assert(ls.take(i as int) =~= ls);
        }
        if values.len() == 0 {
            return Err(SwanBlockError::Empty);
        }
        Ok(SwanBlockFile { values, unit })
    }
}

} // verus!
