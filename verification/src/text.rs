//! Character-level text processing shared by the parsers: whitespace and
//! line splitting with the same rules as Rust's `str` methods, integer
//! parsing and decimal formatting.

use vstd::prelude::*;

verus! {

/// The characters of a string slice, in order.
pub fn chars_of(s: &str) -> (chars: Vec<char>)
    ensures
        chars@ == s@,
{
    let mut chars: Vec<char> = Vec::new();
    for c in it: s.chars()
        invariant
            chars@ == it.seq().take(it.index() as int),
            it.seq() == s@,
    {
        chars.push(c);
    }
    chars
}

/// A copy of `chars[start..end]`.
pub fn sub_chars(chars: &Vec<char>, start: usize, end: usize) -> (out: Vec<char>)
    requires
        start <= end <= chars.len(),
    ensures
        out@ == chars@.subrange(start as int, end as int),
{
    let mut out: Vec<char> = Vec::new();
    let mut i = start;
    while i < end
        invariant
            start <= i <= end <= chars.len(),
            out@ == chars@.subrange(start as int, i as int),
        decreases end - i,
    {
        out.push(chars[i]);
        i += 1;
    }
    out
}

/// Unicode `White_Space`, the set that `char::is_whitespace` tests.
pub open spec fn is_ws(c: char) -> bool {
    ||| ('\u{9}' <= c && c <= '\u{d}')
    ||| c == ' '
    ||| c == '\u{85}'
    ||| c == '\u{a0}'
    ||| c == '\u{1680}'
    ||| ('\u{2000}' <= c && c <= '\u{200a}')
    ||| c == '\u{2028}'
    ||| c == '\u{2029}'
    ||| c == '\u{202f}'
    ||| c == '\u{205f}'
    ||| c == '\u{3000}'
}

pub fn is_whitespace(c: char) -> (b: bool)
    ensures
        b == is_ws(c),
{
    ('\u{9}' <= c && c <= '\u{d}') || c == ' ' || c == '\u{85}' || c == '\u{a0}'
        || c == '\u{1680}' || ('\u{2000}' <= c && c <= '\u{200a}') || c == '\u{2028}'
        || c == '\u{2029}' || c == '\u{202f}' || c == '\u{205f}' || c == '\u{3000}'
}

/// `s` with leading whitespace removed.
pub open spec fn trim_start(s: Seq<char>) -> Seq<char>
    decreases s.len(),
{
    if s.len() > 0 && is_ws(s[0]) {
        trim_start(s.drop_first())
    } else {
        s
    }
}

/// `s` with trailing whitespace removed.
pub open spec fn trim_end(s: Seq<char>) -> Seq<char>
    decreases s.len(),
{
    if s.len() > 0 && is_ws(s.last()) {
        trim_end(s.drop_last())
    } else {
        s
    }
}

/// `s` with leading and trailing whitespace removed, as `str::trim`.
pub open spec fn trim(s: Seq<char>) -> Seq<char> {
    trim_end(trim_start(s))
}

proof fn lemma_trim_start_skip(s: Seq<char>, i: int)
    requires
        0 <= i <= s.len(),
        forall|j: int| 0 <= j < i ==> is_ws(#[trigger] s[j]),
    ensures
        trim_start(s) == trim_start(s.skip(i)),
    decreases i,
{
    if i > 0 {
        assert(s.drop_first().skip(i - 1) =~= s.skip(i));
        lemma_trim_start_skip(s.drop_first(), i - 1);
    } else {
        assert(s.skip(0) =~= s);
    }
}

proof fn lemma_trim_end_take(s: Seq<char>, i: int)
    requires
        0 <= i <= s.len(),
        forall|j: int| i <= j < s.len() ==> is_ws(#[trigger] s[j]),
    ensures
        trim_end(s) == trim_end(s.take(i)),
    decreases s.len() - i,
{
    if i < s.len() {
        assert(s.drop_last().take(i) =~= s.take(i));
        lemma_trim_end_take(s.drop_last(), i);
    } else {
        assert(s.take(i) =~= s);
    }
}

pub proof fn lemma_trim_start_len(s: Seq<char>)
    ensures
        trim_start(s).len() <= s.len(),
        trim_start(s).len() > 0 ==> !is_ws(trim_start(s)[0]),
        trim_start(s) == s.skip(s.len() - trim_start(s).len()),
    decreases s.len(),
{
    if s.len() > 0 && is_ws(s[0]) {
        lemma_trim_start_len(s.drop_first());
        assert(s.drop_first().skip(s.drop_first().len() - trim_start(s).len()) =~= s.skip(
            s.len() - trim_start(s).len(),
        ));
    } else {
        assert(s.skip(0) =~= s);
    }
}

pub proof fn lemma_trim_end_len(s: Seq<char>)
    ensures
        trim_end(s).len() <= s.len(),
        trim_end(s).len() > 0 ==> !is_ws(trim_end(s).last()),
        trim_end(s) == s.take(trim_end(s).len() as int),
    decreases s.len(),
{
    if s.len() > 0 && is_ws(s.last()) {
        lemma_trim_end_len(s.drop_last());
        assert(s.drop_last().take(trim_end(s).len() as int) =~= s.take(trim_end(s).len() as int));
    } else {
        assert(s.take(s.len() as int) =~= s);
    }
}

/// The bounds `(start, end)` of `trim(chars[from..to])` inside `chars`.
pub fn trim_bounds(chars: &Vec<char>, from: usize, to: usize) -> (r: (usize, usize))
    requires
        from <= to <= chars.len(),
    ensures
        from <= r.0 <= r.1 <= to,
        chars@.subrange(r.0 as int, r.1 as int) == trim(chars@.subrange(from as int, to as int)),
{
    let ghost s = chars@.subrange(from as int, to as int);
    let mut a = from;
    while a < to && is_whitespace(chars[a])
        invariant
            from <= a <= to <= chars.len(),
            forall|j: int| from <= j < a ==> is_ws(#[trigger] chars@[j]),
        decreases to - a,
    {
        a += 1;
    }
    proof {
        assert forall|j: int| 0 <= j < a - from implies is_ws(#[trigger] s[j]) by {
            assert(s[j] == chars@[from + j]);
        }
        lemma_trim_start_skip(s, a - from);
        assert(s.skip(a - from) =~= chars@.subrange(a as int, to as int));
        if a < to {
            assert(trim_start(chars@.subrange(a as int, to as int)) =~= chars@.subrange(
                a as int,
                to as int,
            ));
        }
    }
    let mut b = to;
    while b > a && is_whitespace(chars[b - 1])
        invariant
            from <= a <= b <= to <= chars.len(),
            forall|j: int| b <= j < to ==> is_ws(#[trigger] chars@[j]),
        decreases b - a,
    {
        b -= 1;
    }
    proof {
        let t = chars@.subrange(a as int, to as int);
        assert(trim_start(s) == t);
        assert forall|j: int| b - a <= j < t.len() implies is_ws(#[trigger] t[j]) by {
            assert(t[j] == chars@[a + j]);
        }
        lemma_trim_end_take(t, b - a);
        assert(t.take(b - a) =~= chars@.subrange(a as int, b as int));
    }
    (a, b)
}


pub open spec fn is_digit(c: char) -> bool {
    '0' <= c && c <= '9'
}

pub open spec fn digit_val(c: char) -> nat {
    (c as int - '0' as int) as nat
}

/// The value of a run of decimal digits.
pub open spec fn digits_val(s: Seq<char>) -> nat
    decreases s.len(),
{
    if s.len() == 0 {
        0
    } else {
        digits_val(s.drop_last()) * 10 + digit_val(s.last())
    }
}

pub open spec fn all_digits(s: Seq<char>) -> bool {
    forall|i: int| 0 <= i < s.len() ==> is_digit(#[trigger] s[i])
}

/// The value of `s` in the syntax that Rust's unsigned integer `from_str`
/// accepts: an optional `+`, then one or more ASCII digits, nothing else.
pub open spec fn unsigned_value(s: Seq<char>) -> Option<nat> {
    let body = if s.len() > 0 && s[0] == '+' {
        s.drop_first()
    } else {
        s
    };
    if body.len() > 0 && all_digits(body) {
        Some(digits_val(body))
    } else {
        None
    }
}

/// The value of `s` in the syntax that Rust's signed integer `from_str`
/// accepts: an optional `+` or `-`, then one or more ASCII digits.
pub open spec fn signed_value(s: Seq<char>) -> Option<int> {
    if s.len() > 0 && s[0] == '-' {
        let body = s.drop_first();
        if body.len() > 0 && all_digits(body) {
            Some(-(digits_val(body) as int))
        } else {
            None
        }
    } else {
        match unsigned_value(s) {
            Some(v) => Some(v as int),
            None => None,
        }
    }
}

/// What parsing `s` as an unsigned integer type with maximum `max` gives.
pub open spec fn unsigned_parse(s: Seq<char>, max: int) -> Option<nat> {
    match unsigned_value(s) {
        Some(v) => if v <= max {
            Some(v)
        } else {
            None
        },
        None => None,
    }
}

/// What parsing `s` as a signed integer type with range `[min, max]` gives.
pub open spec fn signed_parse(s: Seq<char>, min: int, max: int) -> Option<int> {
    match signed_value(s) {
        Some(v) => if min <= v && v <= max {
            Some(v)
        } else {
            None
        },
        None => None,
    }
}

proof fn lemma_digits_val_prefix(s: Seq<char>, k: int)
    requires
        0 <= k <= s.len(),
        all_digits(s),
    ensures
        digits_val(s.take(k)) <= digits_val(s),
    decreases s.len() - k,
{
    if k < s.len() {
        lemma_digits_val_prefix(s, k + 1);
        assert(s.take(k + 1).drop_last() =~= s.take(k));
    } else {
        assert(s.take(k) =~= s);
    }
}

fn digit_of(c: char) -> (d: u64)
    requires
        is_digit(c),
    ensures
        d == digit_val(c),
        d < 10,
{
    (c as u32 - '0' as u32) as u64
}

/// Parses the digits `chars[start..end]`, none of which may be a sign,
/// as a number no larger than `max`.
fn parse_digits(chars: &Vec<char>, start: usize, end: usize, max: u64) -> (r: Option<u64>)
    requires
        start <= end <= chars.len(),
    ensures
        ({
            let body = chars@.subrange(start as int, end as int);
            r == if body.len() > 0 && all_digits(body) && digits_val(body) <= max {
                Some(digits_val(body) as u64)
            } else {
                None::<u64>
            }
        }),
{
    let ghost body = chars@.subrange(start as int, end as int);
    if start == end {
        return None;
    }
    let mut acc: u64 = 0;
    let mut i = start;
    while i < end
        invariant
            start <= i <= end <= chars.len(),
            body == chars@.subrange(start as int, end as int),
            all_digits(body.take(i - start)),
            acc == digits_val(body.take(i - start)),
            acc <= max,
        decreases end - i,
    {
        let c = chars[i];
        if !('0' <= c && c <= '9') {
            proof {
                assert(body[i - start] == c);
            }
            return None;
        }
        let d = digit_of(c);
        proof {
            assert(body.take(i - start + 1).drop_last() =~= body.take(i - start));
            assert(body.take(i - start + 1).last() == c);
        }
        if d > max || acc > (max - d) / 10 {
            proof {
                assert(digits_val(body.take(i - start + 1)) == acc * 10 + d);
                assert(acc * 10 + d > max) by (nonlinear_arith)
                    requires
                        d > max || acc > (max - d) / 10,
                        d <= 9,
                        acc <= max,
                ;
                if all_digits(body) {
                    lemma_digits_val_prefix(body, i - start + 1);
                }
            }
            return None;
        }
        proof {
            assert(acc * 10 + d <= max) by (nonlinear_arith)
                requires
                    acc <= (max - d) / 10,
                    d <= max,
            ;
        }
        acc = acc * 10 + d;
        i += 1;
    }
    proof {
        assert(body.take(end - start) =~= body);
    }
    Some(acc)
}

/// Parses `chars[start..end]` as Rust's unsigned integer `from_str` does for
/// a type whose maximum is `max`.
pub fn parse_unsigned(chars: &Vec<char>, start: usize, end: usize, max: u64) -> (r: Option<u64>)
    requires
        start <= end <= chars.len(),
    ensures
        r == match unsigned_parse(chars@.subrange(start as int, end as int), max as int) {
            Some(v) => Some(v as u64),
            None => None::<u64>,
        },
{
    let ghost s = chars@.subrange(start as int, end as int);
    if start < end && chars[start] == '+' {
        proof {
            assert(s.drop_first() =~= chars@.subrange(start + 1, end as int));
        }
        parse_digits(chars, start + 1, end, max)
    } else {
        parse_digits(chars, start, end, max)
    }
}

/// Parses `chars[start..end]` as Rust's signed integer `from_str` does for a
/// type with range `[min, max]`, where `min <= 0 <= max`.
pub fn parse_signed(chars: &Vec<char>, start: usize, end: usize, min: i64, max: i64) -> (r: Option<
    i64,
>)
    requires
        start <= end <= chars.len(),
        min <= 0 <= max,
    ensures
        r == match signed_parse(chars@.subrange(start as int, end as int), min as int, max as int) {
            Some(v) => Some(v as i64),
            None => None::<i64>,
        },
{
    let ghost s = chars@.subrange(start as int, end as int);
    if start < end && chars[start] == '-' {
        proof {
            assert(s.drop_first() =~= chars@.subrange(start + 1, end as int));
        }
        let limit: u64 = if min == i64::MIN {
            9223372036854775808u64
        } else {
            (-min) as u64
        };
        match parse_digits(chars, start + 1, end, limit) {
            Some(m) => {
                if m == 9223372036854775808u64 {
                    Some(i64::MIN)
                } else {
                    Some(-(m as i64))
                }
            },
            None => None,
        }
    } else {
        match parse_unsigned(chars, start, end, max as u64) {
            Some(v) => Some(v as i64),
            None => None,
        }
    }
}

/// The character of a decimal digit.
pub open spec fn digit_char(d: nat) -> char {
    ((d + 48) as u32) as char
}

/// The decimal representation of `n`, without leading zeros.
pub open spec fn decimal(n: nat) -> Seq<char>
    decreases n,
{
    if n < 10 {
        seq![digit_char(n)]
    } else {
        decimal(n / 10).push(digit_char(n % 10))
    }
}

/// `n` in decimal, left padded with zeros to at least `width` characters,
/// as `format!("{n:0width$}")`.
pub open spec fn zero_padded(n: nat, width: nat) -> Seq<char> {
    let d = decimal(n);
    if d.len() < width {
        Seq::new((width - d.len()) as nat, |i: int| '0') + d
    } else {
        d
    }
}

/// A signed integer in decimal, as `format!("{n}")`.
pub open spec fn signed_decimal(n: int) -> Seq<char> {
    if n < 0 {
        seq!['-'] + decimal((-n) as nat)
    } else {
        decimal(n as nat)
    }
}

/// `String::push`: appends one character.
#[verifier::external_body]
pub(crate) fn push_char(s: &mut String, c: char)
    ensures
        final(s)@ == old(s)@.push(c),
{
    s.push(c)
}

/// `String::push_str`: appends a string slice.
#[verifier::external_body]
pub(crate) fn push_str(s: &mut String, t: &str)
    ensures
        final(s)@ == old(s)@ + t@,
{
    s.push_str(t)
}

/// A new string with the text of `s`.
pub fn copy_string(s: &String) -> (t: String)
    ensures
        t@ == s@,
{
    let mut t = String::new();
    push_str(&mut t, s.as_str());
    t
}

fn digit_char_of(d: u64) -> (c: char)
    requires
        d < 10,
    ensures
        c == digit_char(d as nat),
{
    ((d as u8) + 48u8) as char
}

/// Appends `n` in decimal.
pub fn push_decimal(s: &mut String, n: u64)
    ensures
        final(s)@ == old(s)@ + decimal(n as nat),
    decreases n,
{
    if n >= 10 {
        push_decimal(s, n / 10);
    }
    let c = digit_char_of(n % 10);
    push_char(s, c);
    proof {
        if n >= 10 {
            assert(decimal(n as nat) == decimal((n / 10) as nat).push(digit_char((n % 10) as nat)));
        }
    }
}

pub proof fn lemma_decimal_len(n: nat)
    ensures
        decimal(n).len() >= 1,
        n < 10 <==> decimal(n).len() == 1,
        n < 100 <==> decimal(n).len() <= 2,
        n < 1000 <==> decimal(n).len() <= 3,
    decreases n,
{
    if n >= 10 {
        lemma_decimal_len(n / 10);
    }
}

/// The number of decimal digits of `n`.
pub fn decimal_len(n: u64) -> (len: usize)
    ensures
        len == decimal(n as nat).len(),
    decreases n,
{
    if n < 10 {
        1
    } else {
        let l = decimal_len(n / 10);
        proof {
            lemma_pow10_20();
            lemma_decimal_len_pow(n as nat, 20);
        }
        l + 1
    }
}

pub open spec fn pow10(k: nat) -> nat
    decreases k,
{
    if k == 0 {
        1
    } else {
        10 * pow10((k - 1) as nat)
    }
}

proof fn lemma_decimal_len_pow(n: nat, k: nat)
    requires
        k >= 1,
        n < pow10(k),
    ensures
        decimal(n).len() <= k,
    decreases k,
{
    if n >= 10 {
        assert(pow10(0) == 1);
        assert(k >= 2);
        assert(n / 10 < pow10((k - 1) as nat));
        lemma_decimal_len_pow(n / 10, (k - 1) as nat);
    }
}

proof fn lemma_pow10_20()
    ensures
        pow10(20) == 100000000000000000000,
{
    reveal_with_fuel(pow10, 21);
}

/// Appends `n` in decimal, left padded with zeros to `width` characters.
pub fn push_zero_padded(s: &mut String, n: u64, width: usize)
    ensures
        final(s)@ == old(s)@ + zero_padded(n as nat, width as nat),
{
    let len = decimal_len(n);
    let ghost start = s@;
    if len < width {
        let mut k: usize = 0;
        while k < width - len
            invariant
                len < width,
                k <= width - len,
                s@ == start + Seq::new(k as nat, |i: int| '0'),
            decreases width - len - k,
        {
            push_char(s, '0');
            k += 1;
            proof {
                assert(s@ =~= start + Seq::new(k as nat, |i: int| '0'));
            }
        }
        push_decimal(s, n);
        proof {
            assert(s@ =~= start + zero_padded(n as nat, width as nat));
        }
    } else {
        push_decimal(s, n);
    }
}

/// Appends `n` in decimal with a leading `-` when negative.
pub fn push_signed_decimal(s: &mut String, n: i64)
    ensures
        final(s)@ == old(s)@ + signed_decimal(n as int),
{
    let ghost start = s@;
    if n < 0 {
        push_char(s, '-');
        let m: u64 = if n == i64::MIN {
            9223372036854775808u64
        } else {
            (-n) as u64
        };
        push_decimal(s, m);
        proof {
            assert(s@ =~= start + signed_decimal(n as int));
        }
    } else {
        push_decimal(s, n as u64);
    }
}


/// The run of non-whitespace characters at the start of `s`.
pub open spec fn leading_word(s: Seq<char>) -> Seq<char>
    decreases s.len(),
{
    if s.len() > 0 && !is_ws(s[0]) {
        seq![s[0]] + leading_word(s.drop_first())
    } else {
        Seq::empty()
    }
}

proof fn lemma_leading_word_take(s: Seq<char>, k: int)
    requires
        0 <= k <= s.len(),
        forall|j: int| 0 <= j < k ==> !is_ws(#[trigger] s[j]),
        k == s.len() || is_ws(s[k]),
    ensures
        leading_word(s) == s.take(k),
    decreases k,
{
    if k > 0 {
        lemma_leading_word_take(s.drop_first(), k - 1);
        assert(seq![s[0]] + s.drop_first().take(k - 1) =~= s.take(k));
    } else {
        assert(s.take(0) =~= Seq::<char>::empty());
    }
}

pub proof fn lemma_leading_word_len(s: Seq<char>)
    ensures
        leading_word(s).len() <= s.len(),
        s.len() > 0 && !is_ws(s[0]) ==> leading_word(s).len() >= 1,
    decreases s.len(),
{
    if s.len() > 0 && !is_ws(s[0]) {
        lemma_leading_word_len(s.drop_first());
    }
}

/// The whitespace separated words of `s`, as `str::split_whitespace`.
pub open spec fn split_ws(s: Seq<char>) -> Seq<Seq<char>>
    decreases s.len(),
{
    let t = trim_start(s);
    if t.len() == 0 {
        Seq::empty()
    } else {
        let w = leading_word(t);
        proof {
            lemma_trim_start_len(s);
            lemma_leading_word_len(t);
        }
        seq![w] + split_ws(t.skip(w.len() as int))
    }
}

/// The first whitespace separated word of `s`, or the empty text.
pub open spec fn first_word(s: Seq<char>) -> Seq<char> {
    leading_word(trim_start(s))
}

pub proof fn lemma_first_word_split(s: Seq<char>)
    ensures
        split_ws(s).len() > 0 ==> first_word(s) == split_ws(s)[0],
        split_ws(s).len() == 0 ==> first_word(s).len() == 0,
{
    lemma_trim_start_len(s);
}

/// Byte-free spans `(start, end)` of the whitespace separated words of
/// `chars[from..to]`.
pub fn split_whitespace(chars: &Vec<char>, from: usize, to: usize) -> (spans: Vec<(usize, usize)>)
    requires
        from <= to <= chars.len(),
    ensures
        spans.len() == split_ws(chars@.subrange(from as int, to as int)).len(),
        forall|i: int|
            0 <= i < spans.len() ==> from <= (#[trigger] spans@[i]).0 <= spans@[i].1 <= to
                && chars@.subrange(spans@[i].0 as int, spans@[i].1 as int) == split_ws(
                chars@.subrange(from as int, to as int),
            )[i],
{
    let ghost whole = split_ws(chars@.subrange(from as int, to as int));
    let mut spans: Vec<(usize, usize)> = Vec::new();
    let mut p = from;
    loop
        invariant
            from <= p <= to <= chars.len(),
            whole == split_ws(chars@.subrange(from as int, to as int)),
            whole == spans@.map_values(
                |sp: (usize, usize)| chars@.subrange(sp.0 as int, sp.1 as int),
            ) + split_ws(chars@.subrange(p as int, to as int)),
            forall|i: int|
                0 <= i < spans.len() ==> from <= (#[trigger] spans@[i]).0 <= spans@[i].1 <= p,
        ensures
            whole == spans@.map_values(
                |sp: (usize, usize)| chars@.subrange(sp.0 as int, sp.1 as int),
            ),
            forall|i: int|
                0 <= i < spans.len() ==> from <= (#[trigger] spans@[i]).0 <= spans@[i].1 <= to,
        decreases to - p,
    {
        let ghost rest = chars@.subrange(p as int, to as int);
        let mut a = p;
        while a < to && is_whitespace(chars[a])
            invariant
                p <= a <= to <= chars.len(),
                forall|j: int| p <= j < a ==> is_ws(#[trigger] chars@[j]),
            decreases to - a,
        {
            a += 1;
        }
        proof {
            assert forall|j: int| 0 <= j < a - p implies is_ws(#[trigger] rest[j]) by {
                assert(rest[j] == chars@[p + j]);
            }
            lemma_trim_start_skip(rest, a - p);
            assert(rest.skip(a - p) =~= chars@.subrange(a as int, to as int));
        }
        if a == to {
            proof {
                assert(trim_start(rest) =~= Seq::<char>::empty());
                assert(split_ws(rest) =~= Seq::<Seq<char>>::empty());
                assert(whole =~= spans@.map_values(
                    |sp: (usize, usize)| chars@.subrange(sp.0 as int, sp.1 as int),
                ));
            }
            break ;
        }
        let mut b = a;
        while b < to && !is_whitespace(chars[b])
            invariant
                a <= b <= to <= chars.len(),
                forall|j: int| a <= j < b ==> !is_ws(#[trigger] chars@[j]),
            decreases to - b,
        {
            b += 1;
        }
        proof {
            let t = chars@.subrange(a as int, to as int);
            assert(trim_start(t) == t);
            assert(trim_start(rest) == t);
            assert forall|j: int| 0 <= j < b - a implies !is_ws(#[trigger] t[j]) by {
                assert(t[j] == chars@[a + j]);
            }
            lemma_leading_word_take(t, b - a);
            assert(t.take(b - a) =~= chars@.subrange(a as int, b as int));
            assert(t.skip(b - a) =~= chars@.subrange(b as int, to as int));
            assert(split_ws(rest) == seq![chars@.subrange(a as int, b as int)] + split_ws(
                chars@.subrange(b as int, to as int),
            ));
        }
        let ghost old_spans = spans@;
        spans.push((a, b));
        proof {
            assert(spans@.map_values(|sp: (usize, usize)| chars@.subrange(sp.0 as int, sp.1 as int))
                =~= old_spans.map_values(
                |sp: (usize, usize)| chars@.subrange(sp.0 as int, sp.1 as int),
            ).push(chars@.subrange(a as int, b as int)));
        }
        p = b;
    }
    proof {
        assert(whole.len() == spans@.map_values(
            |sp: (usize, usize)| chars@.subrange(sp.0 as int, sp.1 as int),
        ).len());
        assert forall|i: int| 0 <= i < spans.len() implies chars@.subrange(
            spans@[i].0 as int,
            spans@[i].1 as int,
        ) == whole[i] by {
            assert(whole[i] == spans@.map_values(
                |sp: (usize, usize)| chars@.subrange(sp.0 as int, sp.1 as int),
            )[i]);
        }
    }
    spans
}

/// The bounds of the first whitespace separated word of `chars[from..to]`
/// (an empty span at `to` when there is none).
pub fn first_word_bounds(chars: &Vec<char>, from: usize, to: usize) -> (r: (usize, usize))
    requires
        from <= to <= chars.len(),
    ensures
        from <= r.0 <= r.1 <= to,
        chars@.subrange(r.0 as int, r.1 as int) == first_word(
            chars@.subrange(from as int, to as int),
        ),
{
    let ghost s = chars@.subrange(from as int, to as int);
    let mut a = from;
    while a < to && is_whitespace(chars[a])
        invariant
            from <= a <= to <= chars.len(),
            forall|j: int| from <= j < a ==> is_ws(#[trigger] chars@[j]),
        decreases to - a,
    {
        a += 1;
    }
    let mut b = a;
    while b < to && !is_whitespace(chars[b])
        invariant
            a <= b <= to <= chars.len(),
            forall|j: int| a <= j < b ==> !is_ws(#[trigger] chars@[j]),
        decreases to - b,
    {
        b += 1;
    }
    proof {
        assert forall|j: int| 0 <= j < a - from implies is_ws(#[trigger] s[j]) by {
            assert(s[j] == chars@[from + j]);
        }
        lemma_trim_start_skip(s, a - from);
        let t = chars@.subrange(a as int, to as int);
        assert(s.skip(a - from) =~= t);
        assert(trim_start(t) == t);
        assert forall|j: int| 0 <= j < b - a implies !is_ws(#[trigger] t[j]) by {
            assert(t[j] == chars@[a + j]);
        }
        lemma_leading_word_take(t, b - a);
        assert(t.take(b - a) =~= chars@.subrange(a as int, b as int));
    }
    (a, b)
}

/// The index of the first `'\n'` in `s`, or its length when there is none.
pub open spec fn find_newline(s: Seq<char>) -> int
    decreases s.len(),
{
    if s.len() == 0 {
        0
    } else if s[0] == '\n' {
        0
    } else {
        1 + find_newline(s.drop_first())
    }
}

proof fn lemma_find_newline(s: Seq<char>, k: int)
    requires
        0 <= k <= s.len(),
        forall|j: int| 0 <= j < k ==> #[trigger] s[j] != '\n',
        k == s.len() || s[k] == '\n',
    ensures
        find_newline(s) == k,
    decreases k,
{
    if k > 0 {
        lemma_find_newline(s.drop_first(), k - 1);
    }
}

/// `s` without a final carriage return.
pub open spec fn strip_cr(s: Seq<char>) -> Seq<char> {
    if s.len() > 0 && s.last() == '\r' {
        s.drop_last()
    } else {
        s
    }
}

/// The lines of `s`, as `str::lines`: split at `\n` or `\r\n`, with no
/// final empty line after a trailing line ending.
pub open spec fn lines(s: Seq<char>) -> Seq<Seq<char>>
    decreases s.len(),
{
    if s.len() == 0 {
        Seq::empty()
    } else {
        let k = find_newline(s);
        if k >= s.len() {
            seq![s]
        } else {
            proof {
                lemma_find_newline_bound(s);
            }
            seq![strip_cr(s.take(k))] + lines(s.skip(k + 1))
        }
    }
}

pub proof fn lemma_find_newline_bound(s: Seq<char>)
    ensures
        0 <= find_newline(s) <= s.len(),
    decreases s.len(),
{
    if s.len() > 0 && s[0] != '\n' {
        lemma_find_newline_bound(s.drop_first());
    }
}

/// Spans `(start, end)` of the lines of `chars`.
pub fn line_spans(chars: &Vec<char>) -> (spans: Vec<(usize, usize)>)
    ensures
        spans.len() == lines(chars@).len(),
        forall|i: int|
            0 <= i < spans.len() ==> (#[trigger] spans@[i]).0 <= spans@[i].1 <= chars.len()
                && chars@.subrange(spans@[i].0 as int, spans@[i].1 as int) == lines(chars@)[i],
{
    let ghost whole = lines(chars@);
    let n = chars.len();
    let mut spans: Vec<(usize, usize)> = Vec::new();
    let mut p: usize = 0;
    proof {
        assert(chars@.subrange(0, n as int) =~= chars@);
    }
    while p < n
        invariant
            p <= n == chars.len(),
            whole == lines(chars@),
            whole == spans@.map_values(
                |sp: (usize, usize)| chars@.subrange(sp.0 as int, sp.1 as int),
            ) + lines(chars@.subrange(p as int, n as int)),
            forall|i: int|
                0 <= i < spans.len() ==> (#[trigger] spans@[i]).0 <= spans@[i].1 <= p,
        decreases n - p,
    {
        let ghost rest = chars@.subrange(p as int, n as int);
        let mut k = p;
        while k < n && chars[k] != '\n'
            invariant
                p <= k <= n == chars.len(),
                forall|j: int| p <= j < k ==> #[trigger] chars@[j] != '\n',
            decreases n - k,
        {
            k += 1;
        }
        proof {
            assert forall|j: int| 0 <= j < k - p implies #[trigger] rest[j] != '\n' by {
                assert(rest[j] == chars@[p + j]);
            }
            lemma_find_newline(rest, k - p);
        }
        let ghost old_spans = spans@;
        if k == n {
            spans.push((p, n));
            proof {
                assert(lines(rest) == seq![rest]);
                assert(lines(chars@.subrange(n as int, n as int)) =~= Seq::<Seq<char>>::empty());
            }
            p = n;
        } else {
            let e = if k > p && chars[k - 1] == '\r' {
                k - 1
            } else {
                k
            };
            spans.push((p, e));
            proof {
                assert(rest.take(k - p) =~= chars@.subrange(p as int, k as int));
                assert(strip_cr(rest.take(k - p)) =~= chars@.subrange(p as int, e as int));
                assert(rest.skip(k - p + 1) =~= chars@.subrange(k + 1, n as int));
            }
            p = k + 1;
        }
        proof {
            assert(spans@.map_values(|sp: (usize, usize)| chars@.subrange(sp.0 as int, sp.1 as int))
                =~= old_spans.map_values(
                |sp: (usize, usize)| chars@.subrange(sp.0 as int, sp.1 as int),
            ).push(chars@.subrange(spans@.last().0 as int, spans@.last().1 as int)));
        }
    }
    spans
}


/// `c` with `A`..`Z` mapped to `a`..`z`.
pub open spec fn lower_char(c: char) -> char {
    if 'A' <= c && c <= 'Z' {
        ((c as u32) + 32) as char
    } else {
        c
    }
}

/// `s` with ASCII capitals mapped to lower case.
pub open spec fn ascii_lower(s: Seq<char>) -> Seq<char> {
    s.map_values(|c: char| lower_char(c))
}

/// `chars` with ASCII capitals mapped to lower case.
pub fn to_ascii_lower(chars: &Vec<char>) -> (out: Vec<char>)
    ensures
        out@ == ascii_lower(chars@),
{
    let mut out: Vec<char> = Vec::new();
    let mut i: usize = 0;
    while i < chars.len()
        invariant
            i <= chars.len(),
            out@ == ascii_lower(chars@.take(i as int)),
        decreases chars.len() - i,
    {
        let c = chars[i];
        let l = if 'A' <= c && c <= 'Z' {
            ((c as u8) + 32) as char
        } else {
            c
        };
        out.push(l);
        i += 1;
        proof {
            assert(ascii_lower(chars@.take(i as int)) =~= ascii_lower(chars@.take(i - 1)).push(
                lower_char(c),
            ));
        }
    }
    proof {
        assert(chars@.take(i as int) =~= chars@);
    }
    out
}

/// `needle` occurs in `hay` starting at `i`.
pub open spec fn occurs_at(hay: Seq<char>, needle: Seq<char>, i: int) -> bool {
    0 <= i && i + needle.len() <= hay.len() && hay.subrange(i, i + needle.len()) == needle
}

/// `needle` occurs somewhere in `hay`, as `str::contains`.
pub open spec fn has_substring(hay: Seq<char>, needle: Seq<char>) -> bool {
    exists|i: int| occurs_at(hay, needle, i)
}

/// `chars[start..]` begins with `needle`.
pub fn matches_at(chars: &Vec<char>, start: usize, needle: &Vec<char>) -> (b: bool)
    requires
        start <= chars.len(),
    ensures
        b == occurs_at(chars@, needle@, start as int),
{
    if needle.len() > chars.len() - start {
        return false;
    }
    let mut j: usize = 0;
    while j < needle.len()
        invariant
            start + needle.len() <= chars.len(),
            j <= needle.len(),
            forall|k: int| 0 <= k < j ==> chars@[start + k] == needle@[k],
        decreases needle.len() - j,
    {
        if chars[start + j] != needle[j] {
            proof {
                assert(chars@.subrange(start as int, start + needle.len())[j as int]
                    != needle@[j as int]);
            }
            return false;
        }
        j += 1;
    }
    proof {
        assert(chars@.subrange(start as int, start + needle.len()) =~= needle@);
    }
    true
}

/// Whether `needle` occurs in `chars`.
pub fn contains(chars: &Vec<char>, needle: &Vec<char>) -> (b: bool)
    ensures
        b == has_substring(chars@, needle@),
{
    if needle.len() > chars.len() {
        proof {
            assert forall|k: int| !occurs_at(chars@, needle@, k) by {}
        }
        return false;
    }
    if needle.len() == 0 {
        proof {
            assert(chars@.subrange(0, 0) =~= needle@);
            assert(occurs_at(chars@, needle@, 0));
        }
        return true;
    }
    let last = chars.len() - needle.len();
    let mut i: usize = 0;
    while i <= last
        invariant
            last == chars.len() - needle.len(),
            needle.len() > 0,
            i <= last + 1,
            forall|k: int| 0 <= k < i ==> !occurs_at(chars@, needle@, k),
        decreases last + 1 - i,
    {
        if matches_at(chars, i, needle) {
            return true;
        }
        i += 1;
    }
    proof {
        assert forall|k: int| !occurs_at(chars@, needle@, k) by {
            if 0 <= k < i {
            }
        }
    }
    false
}

/// Why text is not an integer, as Rust's integer `from_str` reports it.
#[derive(Debug, Clone, Copy, PartialEq, Eq)]
pub enum IntErrorKind {
    Empty,
    InvalidDigit,
    PosOverflow,
    NegOverflow,
}

impl IntErrorKind {
    /// The message Rust's `ParseIntError` prints for this kind.
    pub open spec fn spec_message(self) -> Seq<char> {
        match self {
            IntErrorKind::Empty => "cannot parse integer from empty string"@,
            IntErrorKind::InvalidDigit => "invalid digit found in string"@,
            IntErrorKind::PosOverflow => "number too large to fit in target type"@,
            IntErrorKind::NegOverflow => "number too small to fit in target type"@,
        }
    }

    pub fn message(&self) -> (m: &'static str)
        ensures
            m@ == self.spec_message(),
    {
        match self {
            IntErrorKind::Empty => "cannot parse integer from empty string",
            IntErrorKind::InvalidDigit => "invalid digit found in string",
            IntErrorKind::PosOverflow => "number too large to fit in target type",
            IntErrorKind::NegOverflow => "number too small to fit in target type",
        }
    }
}

/// Reads the digits of `body` from position `i` on, with `acc` the value
/// so far, stopping at the first character that is not a digit or that
/// takes the value above `max`.
pub open spec fn scan_up(body: Seq<char>, i: int, acc: int, max: int) -> Result<int, IntErrorKind>
    decreases body.len() - i,
{
    if i >= body.len() || i < 0 {
        Ok(acc)
    } else if !is_digit(body[i]) {
        Err(IntErrorKind::InvalidDigit)
    } else if acc * 10 + digit_val(body[i]) > max {
        Err(IntErrorKind::PosOverflow)
    } else {
        scan_up(body, i + 1, acc * 10 + digit_val(body[i]), max)
    }
}

/// As `scan_up` for a negative number, whose value may not go below `min`.
pub open spec fn scan_down(body: Seq<char>, i: int, acc: int, min: int) -> Result<int, IntErrorKind>
    decreases body.len() - i,
{
    if i >= body.len() || i < 0 {
        Ok(acc)
    } else if !is_digit(body[i]) {
        Err(IntErrorKind::InvalidDigit)
    } else if acc * 10 - digit_val(body[i]) < min {
        Err(IntErrorKind::NegOverflow)
    } else {
        scan_down(body, i + 1, acc * 10 - digit_val(body[i]), min)
    }
}

/// The outcome of Rust's `from_str` for an integer type with range
/// `[min, max]` (`min` is 0 for unsigned types): a sign on its own is an
/// invalid digit, a `-` is taken only by signed types, and the first
/// problem met from the left decides the error.
pub open spec fn int_result(s: Seq<char>, min: int, max: int) -> Result<int, IntErrorKind> {
    if s.len() == 0 {
        Err(IntErrorKind::Empty)
    } else if (s[0] == '+' || s[0] == '-') && s.len() == 1 {
        Err(IntErrorKind::InvalidDigit)
    } else if s[0] == '+' {
        scan_up(s.drop_first(), 0, 0, max)
    } else if s[0] == '-' && min < 0 {
        scan_down(s.drop_first(), 0, 0, min)
    } else {
        scan_up(s, 0, 0, max)
    }
}

/// Parses `chars[start..end]` as Rust's integer `from_str` does for a type
/// with range `[min, max]`, where `min <= 0 <= max`.
pub fn parse_int(chars: &Vec<char>, start: usize, end: usize, min: i64, max: i64) -> (r: Result<
    i64,
    IntErrorKind,
>)
    requires
        start <= end <= chars.len(),
        min <= 0 <= max,
    ensures
        match (r, int_result(chars@.subrange(start as int, end as int), min as int, max as int)) {
            (Ok(v), Ok(w)) => v == w,
            (Err(e), Err(f)) => e == f,
            _ => false,
        },
        r matches Ok(v) ==> min <= v <= max,
{
    let ghost s = chars@.subrange(start as int, end as int);
    if start == end {
        return Err(IntErrorKind::Empty);
    }
    let first = chars[start];
    if (first == '+' || first == '-') && end - start == 1 {
        return Err(IntErrorKind::InvalidDigit);
    }
    let negative = first == '-' && min < 0;
    let from = if first == '+' || negative {
        start + 1
    } else {
        start
    };
    let ghost body = chars@.subrange(from as int, end as int);
    proof {
        if first == '+' || negative {
            assert(s.drop_first() =~= body);
        } else {
            assert(s =~= body);
        }
    }
    proof {
        assert(s[0] == first);
    }
    let ghost target = if negative {
        scan_down(body, 0, 0, min as int)
    } else {
        scan_up(body, 0, 0, max as int)
    };
    assert(int_result(s, min as int, max as int) == target);
    let mut acc: i64 = 0;
    let mut i = from;
    while i < end
        invariant
            start <= from <= i <= end <= chars.len(),
            min <= 0 <= max,
            body == chars@.subrange(from as int, end as int),
            s == chars@.subrange(start as int, end as int),
            int_result(s, min as int, max as int) == target,
            negative ==> min <= acc <= 0,
            !negative ==> 0 <= acc <= max,
            negative ==> target == scan_down(body, i - from, acc as int, min as int),
            !negative ==> target == scan_up(body, i - from, acc as int, max as int),
        decreases end - i,
    {
        let c = chars[i];
        proof {
            assert(body[i - from] == c);
        }
        if !('0' <= c && c <= '9') {
            return Err(IntErrorKind::InvalidDigit);
        }
        let d = (c as u32 - '0' as u32) as i64;
        proof {
            assert(digit_val(c) == d);
        }
        if negative {
            let next: i128 = acc as i128 * 10 - d as i128;
            if next < min as i128 {
                return Err(IntErrorKind::NegOverflow);
            }
            acc = next as i64;
        } else {
            let next: i128 = acc as i128 * 10 + d as i128;
            if next > max as i128 {
                return Err(IntErrorKind::PosOverflow);
            }
            acc = next as i64;
        }
        i += 1;
    }
    Ok(acc)
}

/// Rust's float `from_str` syntax, which it checks with the text
/// lower-cased: an optional sign, then `inf`, `infinity`, `nan`, or a
/// decimal number.
pub open spec fn is_float_text(s: Seq<char>) -> bool {
    let body = if s.len() > 0 && (s[0] == '+' || s[0] == '-') {
        s.drop_first()
    } else {
        s
    };
    let l = ascii_lower(body);
    l == "inf"@ || l == "infinity"@ || l == "nan"@ || is_decimal_text(l)
}

/// The index of the first `e` in `s`, or its length.
pub open spec fn find_e(s: Seq<char>) -> int
    decreases s.len(),
{
    if s.len() == 0 {
        0
    } else if s[0] == 'e' {
        0
    } else {
        1 + find_e(s.drop_first())
    }
}

/// Digits with at most one `.` among them, and at least one digit.
pub open spec fn mantissa_ok(m: Seq<char>) -> bool {
    &&& forall|i: int| 0 <= i < m.len() ==> is_digit(#[trigger] m[i]) || m[i] == '.'
    &&& forall|i: int, j: int| 0 <= i < j < m.len() ==> !(#[trigger] m[i] == '.' && #[trigger] m[j] == '.')
    &&& exists|i: int| 0 <= i < m.len() && is_digit(#[trigger] m[i])
}

/// An optional sign, then one or more digits.
pub open spec fn exponent_ok(e: Seq<char>) -> bool {
    let d = if e.len() > 0 && (e[0] == '+' || e[0] == '-') {
        e.drop_first()
    } else {
        e
    };
    d.len() > 0 && all_digits(d)
}

/// A decimal number, with an optional exponent after an `e`.
pub open spec fn is_decimal_text(l: Seq<char>) -> bool {
    let k = find_e(l);
    mantissa_ok(l.take(k)) && (k >= l.len() || exponent_ok(l.skip(k + 1)))
}

/// Why text is not a float, as Rust's float `from_str` reports it.
#[derive(Debug, Clone, Copy, PartialEq, Eq)]
pub enum FloatErrorKind {
    Empty,
    Invalid,
}

impl FloatErrorKind {
    /// The message Rust's `ParseFloatError` prints for this kind.
    pub open spec fn spec_message(self) -> Seq<char> {
        match self {
            FloatErrorKind::Empty => "cannot parse float from empty string"@,
            FloatErrorKind::Invalid => "invalid float literal"@,
        }
    }

    pub fn message(&self) -> (m: &'static str)
        ensures
            m@ == self.spec_message(),
    {
        match self {
            FloatErrorKind::Empty => "cannot parse float from empty string",
            FloatErrorKind::Invalid => "invalid float literal",
        }
    }

    /// What Rust's `ParseFloatError` prints with `{:?}` for this kind.
    pub open spec fn spec_debug(self) -> Seq<char> {
        match self {
            FloatErrorKind::Empty => "ParseFloatError { kind: Empty }"@,
            FloatErrorKind::Invalid => "ParseFloatError { kind: Invalid }"@,
        }
    }

    pub fn debug(&self) -> (m: &'static str)
        ensures
            m@ == self.spec_debug(),
    {
        match self {
            FloatErrorKind::Empty => "ParseFloatError { kind: Empty }",
            FloatErrorKind::Invalid => "ParseFloatError { kind: Invalid }",
        }
    }
}

/// The outcome of Rust's float `from_str` on `s`, leaving out the value.
pub open spec fn float_result(s: Seq<char>) -> Result<(), FloatErrorKind> {
    if s.len() == 0 {
        Err(FloatErrorKind::Empty)
    } else if is_float_text(s) {
        Ok(())
    } else {
        Err(FloatErrorKind::Invalid)
    }
}

/// Whether `chars[start..end]` equals `word`.
pub fn equals_at(chars: &Vec<char>, start: usize, end: usize, word: &Vec<char>) -> (b: bool)
    requires
        start <= end <= chars.len(),
    ensures
        b == (chars@.subrange(start as int, end as int) == word@),
{
    if end - start != word.len() {
        return false;
    }
    let r = matches_at(chars, start, word);
    proof {
        if r {
            assert(chars@.subrange(start as int, start + word.len()) =~= chars@.subrange(start as int, end as int));
        } else {
            assert(chars@.subrange(start as int, start + word.len()) =~= chars@.subrange(start as int, end as int));
        }
    }
    r
}

proof fn lemma_find_e(s: Seq<char>, k: int)
    requires
        0 <= k <= s.len(),
        forall|j: int| 0 <= j < k ==> #[trigger] s[j] != 'e',
        k == s.len() || s[k] == 'e',
    ensures
        find_e(s) == k,
    decreases k,
{
    if k > 0 {
        lemma_find_e(s.drop_first(), k - 1);
    }
}

/// Whether `chars[start..end]` is text that Rust's float `from_str` accepts.
pub fn check_float(chars: &Vec<char>, start: usize, end: usize) -> (r: Result<(), FloatErrorKind>)
    requires
        start <= end <= chars.len(),
    ensures
        r == float_result(chars@.subrange(start as int, end as int)),
{
    let ghost s = chars@.subrange(start as int, end as int);
    if start == end {
        return Err(FloatErrorKind::Empty);
    }
    let from = if chars[start] == '+' || chars[start] == '-' {
        start + 1
    } else {
        start
    };
    let body = sub_chars(chars, from, end);
    proof {
        assert(s[0] == chars@[start as int]);
        if from == start + 1 {
            assert(s.drop_first() =~= body@);
        } else {
            assert(s =~= body@);
        }
    }
    let l = to_ascii_lower(&body);
    let n = l.len();
    let inf = chars_of("inf");
    let infinity = chars_of("infinity");
    let nan = chars_of("nan");
    proof {
        assert(l@.subrange(0, n as int) =~= l@);
    }
    if equals_at(&l, 0, n, &inf) || equals_at(&l, 0, n, &infinity) || equals_at(&l, 0, n, &nan) {
        return Ok(());
    }
    let ghost verdict = if is_decimal_text(l@) {
        Ok::<(), FloatErrorKind>(())
    } else {
        Err(FloatErrorKind::Invalid)
    };
    assert(float_result(s) == verdict);
    let mut k: usize = 0;
    while k < n && l[k] != 'e'
        invariant
            k <= n == l.len(),
            forall|j: int| 0 <= j < k ==> #[trigger] l@[j] != 'e',
        decreases n - k,
    {
        k += 1;
    }
    proof {
        lemma_find_e(l@, k as int);
    }
    let ghost m = l@.take(k as int);
    let mut dots: usize = 0;
    let mut digit_seen = false;
    let mut i: usize = 0;
    while i < k
        invariant
            k <= n == l.len(),
            s == chars@.subrange(start as int, end as int),
            float_result(s) == verdict,
            verdict == (if is_decimal_text(l@) {
                Ok::<(), FloatErrorKind>(())
            } else {
                Err(FloatErrorKind::Invalid)
            }),
            find_e(l@) == k,
            m == l@.take(k as int),
            i <= k,
            forall|j: int| 0 <= j < i ==> is_digit(#[trigger] m[j]) || m[j] == '.',
            dots <= 1,
            dots == 0 ==> forall|j: int| 0 <= j < i ==> #[trigger] m[j] != '.',
            dots == 1 ==> exists|j: int|
                0 <= j < i && #[trigger] m[j] == '.' && forall|j2: int|
                    0 <= j2 < i && j2 != j ==> #[trigger] m[j2] != '.',
            digit_seen <==> exists|j: int| 0 <= j < i && is_digit(#[trigger] m[j]),
        decreases k - i,
    {
        let c = l[i];
        proof {
            assert(m[i as int] == c);
        }
        if c == '.' {
            if dots == 1 {
                proof {
                    let j = choose|j: int|
                        0 <= j < i && #[trigger] m[j] == '.' && forall|j2: int|
                            0 <= j2 < i && j2 != j ==> #[trigger] m[j2] != '.';
                    assert(m[j] == '.' && m[i as int] == '.');
                    assert(!mantissa_ok(m));
                }
                return Err(FloatErrorKind::Invalid);
            }
            dots = 1;
            proof {
                assert(m[i as int] == '.');
                assert forall|j2: int| 0 <= j2 < i + 1 && j2 != i implies #[trigger] m[j2] != '.' by {}
            }
        } else if '0' <= c && c <= '9' {
            digit_seen = true;
            proof {
                assert(is_digit(m[i as int]));
                if dots == 1 {
                    let j = choose|j: int|
                        0 <= j < i && #[trigger] m[j] == '.' && forall|j2: int|
                            0 <= j2 < i && j2 != j ==> #[trigger] m[j2] != '.';
                    assert forall|j2: int| 0 <= j2 < i + 1 && j2 != j implies #[trigger] m[j2] != '.' by {}
                }
            }
        } else {
            proof {
                assert(!(is_digit(m[i as int]) || m[i as int] == '.'));
                assert(!mantissa_ok(m));
            }
            return Err(FloatErrorKind::Invalid);
        }
        i += 1;
    }
    if !digit_seen {
        proof {
            assert(!mantissa_ok(m));
        }
        return Err(FloatErrorKind::Invalid);
    }
    proof {
        assert forall|a: int, b: int| 0 <= a < b < m.len() implies !(#[trigger] m[a] == '.'
            && #[trigger] m[b] == '.') by {
            if dots == 1 {
                let j = choose|j: int|
                    0 <= j < i && #[trigger] m[j] == '.' && forall|j2: int|
                        0 <= j2 < i && j2 != j ==> #[trigger] m[j2] != '.';
            }
        }
        assert(mantissa_ok(m));
    }
    if k == n {
        return Ok(());
    }
    let mut p = k + 1;
    if p < n && (l[p] == '+' || l[p] == '-') {
        p += 1;
    }
    let ghost e = l@.skip(k + 1);
    let ghost d = l@.subrange(p as int, n as int);
    proof {
        if p == k + 2 {
            assert(e.drop_first() =~= d);
        } else {
            assert(e =~= d);
        }
        assert(is_decimal_text(l@) == exponent_ok(e));
        assert(exponent_ok(e) == (d.len() > 0 && all_digits(d)));
    }
    if p == n {
        return Err(FloatErrorKind::Invalid);
    }
    let mut q = p;
    while q < n
        invariant
            k < p <= q <= n == l.len(),
            s == chars@.subrange(start as int, end as int),
            float_result(s) == verdict,
            verdict == (if d.len() > 0 && all_digits(d) {
                Ok::<(), FloatErrorKind>(())
            } else {
                Err(FloatErrorKind::Invalid)
            }),
            d == l@.subrange(p as int, n as int),
            forall|j: int| p <= j < q ==> is_digit(#[trigger] l@[j]),
        decreases n - q,
    {
        if !('0' <= l[q] && l[q] <= '9') {
            proof {
                assert(d[q - p] == l@[q as int]);
            }
            return Err(FloatErrorKind::Invalid);
        }
        q += 1;
    }
    proof {
        assert forall|j: int| 0 <= j < d.len() implies is_digit(#[trigger] d[j]) by {
            assert(d[j] == l@[p + j]);
        }
    }
    Ok(())
}

/// Bytes read one per character, as Rust's integer `from_str` reads a
/// string's bytes: an ASCII byte is its character, and any other byte is
/// no digit or sign.
pub open spec fn latin1(b: Seq<u8>) -> Seq<char> {
    b.map_values(|x: u8| x as char)
}

/// The characters of `latin1(b[start..end])`.
pub fn bytes_as_chars(b: &[u8], start: usize, end: usize) -> (out: Vec<char>)
    requires
        start <= end <= b@.len(),
    ensures
        out@ == latin1(b@.subrange(start as int, end as int)),
{
    let mut out: Vec<char> = Vec::new();
    let mut i = start;
    while i < end
        invariant
            start <= i <= end <= b@.len(),
            out@ == latin1(b@.subrange(start as int, i as int)),
        decreases end - i,
    {
        let c = b[i] as char;
        out.push(c);
        i += 1;
        proof {
            assert(latin1(b@.subrange(start as int, i as int)) =~= latin1(
                b@.subrange(start as int, i - 1),
            ).push(c));
        }
    }
    out
}

/// The text of `chars[start..end]` as a `String`.
pub fn substring(chars: &Vec<char>, start: usize, end: usize) -> (s: String)
    requires
        start <= end <= chars.len(),
    ensures
        s@ == chars@.subrange(start as int, end as int),
{
    let mut s = String::new();
    let mut i = start;
    while i < end
        invariant
            start <= i <= end <= chars.len(),
            s@ == chars@.subrange(start as int, i as int),
        decreases end - i,
    {
        push_char(&mut s, chars[i]);
        i += 1;
        proof {
            assert(s@ =~= chars@.subrange(start as int, i as int));
        }
    }
    s
}

/// The view of each string of `v`.
pub open spec fn string_views(v: Seq<String>) -> Seq<Seq<char>> {
    v.map_values(|s: String| s@)
}

/// The whitespace separated words of `chars[from..to]`.
pub fn words_of(chars: &Vec<char>, from: usize, to: usize) -> (words: Vec<String>)
    requires
        from <= to <= chars.len(),
    ensures
        string_views(words@) == split_ws(chars@.subrange(from as int, to as int)),
{
    let spans = split_whitespace(chars, from, to);
    let ghost whole = split_ws(chars@.subrange(from as int, to as int));
    let mut words: Vec<String> = Vec::new();
    let mut i: usize = 0;
    while i < spans.len()
        invariant
            i <= spans.len() == whole.len(),
            from <= to <= chars.len(),
            whole == split_ws(chars@.subrange(from as int, to as int)),
            forall|k: int|
                0 <= k < spans.len() ==> from <= (#[trigger] spans@[k]).0 <= spans@[k].1 <= to
                    && chars@.subrange(spans@[k].0 as int, spans@[k].1 as int) == whole[k],
            string_views(words@) == whole.take(i as int),
        decreases spans.len() - i,
    {
        let (a, b) = spans[i];
        let w = substring(chars, a, b);
        let ghost before = words@;
        words.push(w);
        i += 1;
        proof {
            assert(string_views(words@) =~= string_views(before).push(w@));
            assert(whole.take(i as int) =~= whole.take(i - 1).push(whole[i - 1]));
        }
    }
    proof {
        assert(whole.take(i as int) =~= whole);
    }
    words
}

/// The index of the first `c` in `s`, or its length when there is none.
pub open spec fn find_char(s: Seq<char>, c: char) -> int
    decreases s.len(),
{
    if s.len() == 0 {
        0
    } else if s[0] == c {
        0
    } else {
        1 + find_char(s.drop_first(), c)
    }
}

pub proof fn lemma_find_char_at(s: Seq<char>, c: char, k: int)
    requires
        0 <= k <= s.len(),
        forall|j: int| 0 <= j < k ==> #[trigger] s[j] != c,
        k == s.len() || s[k] == c,
    ensures
        find_char(s, c) == k,
    decreases k,
{
    if k > 0 {
        lemma_find_char_at(s.drop_first(), c, k - 1);
    }
}

pub proof fn lemma_find_char_bound(s: Seq<char>, c: char)
    ensures
        0 <= find_char(s, c) <= s.len(),
    decreases s.len(),
{
    if s.len() > 0 && s[0] != c {
        lemma_find_char_bound(s.drop_first(), c);
    }
}

/// The pieces of `s` between occurrences of `c`, as `str::split(c)`:
/// there is one more piece than there are separators.
pub open spec fn split_on(s: Seq<char>, c: char) -> Seq<Seq<char>>
    decreases s.len(),
{
    let k = find_char(s, c);
    if k >= s.len() {
        seq![s]
    } else {
        proof {
            lemma_find_char_bound(s, c);
        }
        seq![s.take(k)] + split_on(s.skip(k + 1), c)
    }
}

/// Spans `(start, end)` of the pieces of `chars[from..to]` between
/// occurrences of `sep`.
pub fn split_spans(chars: &Vec<char>, from: usize, to: usize, sep: char) -> (spans: Vec<
    (usize, usize),
>)
    requires
        from <= to <= chars.len(),
    ensures
        spans.len() == split_on(chars@.subrange(from as int, to as int), sep).len(),
        forall|i: int|
            0 <= i < spans.len() ==> from <= (#[trigger] spans@[i]).0 <= spans@[i].1 <= to
                && chars@.subrange(spans@[i].0 as int, spans@[i].1 as int) == split_on(
                chars@.subrange(from as int, to as int),
                sep,
            )[i],
{
    let ghost whole = split_on(chars@.subrange(from as int, to as int), sep);
    let mut spans: Vec<(usize, usize)> = Vec::new();
    let mut p = from;
    loop
        invariant_except_break
            whole == spans@.map_values(
                |sp: (usize, usize)| chars@.subrange(sp.0 as int, sp.1 as int),
            ) + split_on(chars@.subrange(p as int, to as int), sep),
            forall|i: int|
                0 <= i < spans.len() ==> from <= (#[trigger] spans@[i]).0 <= spans@[i].1 <= p,
        invariant
            from <= p <= to <= chars.len(),
            whole == split_on(chars@.subrange(from as int, to as int), sep),
        ensures
            whole == spans@.map_values(
                |sp: (usize, usize)| chars@.subrange(sp.0 as int, sp.1 as int),
            ),
            forall|i: int|
                0 <= i < spans.len() ==> from <= (#[trigger] spans@[i]).0 <= spans@[i].1 <= to,
        decreases to - p,
    {
        let ghost rest = chars@.subrange(p as int, to as int);
        let mut k = p;
        while k < to && chars[k] != sep
            invariant
                p <= k <= to <= chars.len(),
                forall|j: int| p <= j < k ==> #[trigger] chars@[j] != sep,
            decreases to - k,
        {
            k += 1;
        }
        proof {
            assert forall|j: int| 0 <= j < k - p implies #[trigger] rest[j] != sep by {
                assert(rest[j] == chars@[p + j]);
            }
            lemma_find_char_at(rest, sep, k - p);
        }
        let ghost old_spans = spans@;
        spans.push((p, k));
        proof {
            assert(spans@.map_values(|sp: (usize, usize)| chars@.subrange(sp.0 as int, sp.1 as int))
                =~= old_spans.map_values(
                |sp: (usize, usize)| chars@.subrange(sp.0 as int, sp.1 as int),
            ).push(chars@.subrange(p as int, k as int)));
        }
        if k == to {
            proof {
                assert(rest.take(k - p) =~= rest);
                assert(split_on(rest, sep) == seq![rest]);
                assert(chars@.subrange(p as int, k as int) =~= rest);
                assert(whole =~= spans@.map_values(
                    |sp: (usize, usize)| chars@.subrange(sp.0 as int, sp.1 as int),
                ));
            }
            break ;
        }
        proof {
            assert(rest.take(k - p) =~= chars@.subrange(p as int, k as int));
            assert(rest.skip(k - p + 1) =~= chars@.subrange(k + 1, to as int));
            assert(split_on(rest, sep) == seq![chars@.subrange(p as int, k as int)] + split_on(
                chars@.subrange(k + 1, to as int),
                sep,
            ));
        }
        p = k + 1;
    }
    proof {
        assert(whole.len() == spans@.map_values(
            |sp: (usize, usize)| chars@.subrange(sp.0 as int, sp.1 as int),
        ).len());
        assert forall|i: int| 0 <= i < spans.len() implies chars@.subrange(
            spans@[i].0 as int,
            spans@[i].1 as int,
        ) == whole[i] by {
            assert(whole[i] == spans@.map_values(
                |sp: (usize, usize)| chars@.subrange(sp.0 as int, sp.1 as int),
            )[i]);
        }
    }
    spans
}

/// The first of `ls` that contains `key`.
pub open spec fn first_line_with(ls: Seq<Seq<char>>, key: Seq<char>) -> Option<Seq<char>>
    decreases ls.len(),
{
    if ls.len() == 0 {
        None
    } else if has_substring(ls[0], key) {
        Some(ls[0])
    } else {
        first_line_with(ls.drop_first(), key)
    }
}

proof fn lemma_first_line_with_step(ls: Seq<Seq<char>>, key: Seq<char>, i: int)
    requires
        0 <= i < ls.len(),
        forall|j: int| 0 <= j < i ==> !has_substring(#[trigger] ls[j], key),
    ensures
        first_line_with(ls, key) == first_line_with(ls.skip(i), key),
    decreases i,
{
    if i > 0 {
        assert(ls.drop_first().skip(i - 1) =~= ls.skip(i));
        lemma_first_line_with_step(ls.drop_first(), key, i - 1);
    } else {
        assert(ls.skip(0) =~= ls);
    }
}

/// The span of the first line of `chars` that contains `key`.
pub fn find_line_with(chars: &Vec<char>, key: &str) -> (r: Option<(usize, usize)>)
    ensures
        match (r, first_line_with(lines(chars@), key@)) {
            (Some(sp), Some(l)) => sp.0 <= sp.1 <= chars.len() && chars@.subrange(
                sp.0 as int,
                sp.1 as int,
            ) == l,
            (None, None) => true,
            _ => false,
        },
{
    let spans = line_spans(chars);
    let ghost ls = lines(chars@);
    let needle = chars_of(key);
    let mut i: usize = 0;
    while i < spans.len()
        invariant
            i <= spans.len() == ls.len(),
            ls == lines(chars@),
            needle@ == key@,
            forall|k: int|
                0 <= k < spans.len() ==> (#[trigger] spans@[k]).0 <= spans@[k].1 <= chars.len()
                    && chars@.subrange(spans@[k].0 as int, spans@[k].1 as int) == ls[k],
            forall|j: int| 0 <= j < i ==> !has_substring(#[trigger] ls[j], key@),
        decreases spans.len() - i,
    {
        let (a, b) = spans[i];
        let line = sub_chars(chars, a, b);
        if contains(&line, &needle) {
            proof {
                lemma_first_line_with_step(ls, key@, i as int);
            }
            return Some((a, b));
        }
        i += 1;
    }
    proof {
        assert forall|k: int| 0 <= k <= ls.len() implies first_line_with(ls.skip(k), key@) is None
            by {
            lemma_first_line_with_none(ls, key@, k);
        }
        assert(ls.skip(0) =~= ls);
    }
    None
}

proof fn lemma_first_line_with_none(ls: Seq<Seq<char>>, key: Seq<char>, k: int)
    requires
        0 <= k <= ls.len(),
        forall|j: int| 0 <= j < ls.len() ==> !has_substring(#[trigger] ls[j], key),
    ensures
        first_line_with(ls.skip(k), key) is None,
    decreases ls.len() - k,
{
    if k < ls.len() {
        lemma_first_line_with_none(ls, key, k + 1);
        assert(ls.skip(k).drop_first() =~= ls.skip(k + 1));
    } else {
        assert(ls.skip(k).len() == 0);
    }
}

/// Whether `c` has the Unicode `Alphabetic` property.
pub uninterp spec fn unicode_alphabetic(c: char) -> bool;

/// `char::is_alphabetic`. Stated: the result is `unicode_alphabetic(c)`,
/// and among ASCII characters exactly the letters are alphabetic, as the
/// Unicode property has it; the rest of the Unicode table is left to that
/// name.
#[verifier::external_body]
pub(crate) fn is_alphabetic(c: char) -> (b: bool)
    ensures
        b == unicode_alphabetic(c),
        c <= '\u{7f}' ==> (b <==> ('a' <= c <= 'z' || 'A' <= c <= 'Z')),
{
    c.is_alphabetic()
}

/// `s` without its trailing alphabetic characters.
pub open spec fn trim_end_alphabetic(s: Seq<char>) -> Seq<char>
    decreases s.len(),
{
    if s.len() > 0 && unicode_alphabetic(s.last()) {
        trim_end_alphabetic(s.drop_last())
    } else {
        s
    }
}

/// The end of `trim_end_alphabetic(chars[from..to])`.
pub fn trim_end_alphabetic_bound(chars: &Vec<char>, from: usize, to: usize) -> (e: usize)
    requires
        from <= to <= chars.len(),
    ensures
        from <= e <= to,
        chars@.subrange(from as int, e as int) == trim_end_alphabetic(
            chars@.subrange(from as int, to as int),
        ),
{
    let mut e = to;
    while e > from && is_alphabetic(chars[e - 1])
        invariant
            from <= e <= to <= chars.len(),
            trim_end_alphabetic(chars@.subrange(from as int, e as int)) == trim_end_alphabetic(
                chars@.subrange(from as int, to as int),
            ),
        decreases e - from,
    {
        proof {
            assert(chars@.subrange(from as int, e as int).drop_last() =~= chars@.subrange(
                from as int,
                e - 1,
            ));
        }
        e -= 1;
    }
    e
}

/// Parses `chars[start..end]` as Rust's `from_str` does for an unsigned
/// integer type whose largest value is `max`.
pub fn parse_uint(chars: &Vec<char>, start: usize, end: usize, max: u64) -> (r: Result<
    u64,
    IntErrorKind,
>)
    requires
        start <= end <= chars.len(),
    ensures
        match (r, int_result(chars@.subrange(start as int, end as int), 0, max as int)) {
            (Ok(v), Ok(w)) => v == w,
            (Err(e), Err(f)) => e == f,
            _ => false,
        },
        r matches Ok(v) ==> v <= max,
{
    let ghost s = chars@.subrange(start as int, end as int);
    if start == end {
        return Err(IntErrorKind::Empty);
    }
    let first = chars[start];
    if (first == '+' || first == '-') && end - start == 1 {
        return Err(IntErrorKind::InvalidDigit);
    }
    let from = if first == '+' {
        start + 1
    } else {
        start
    };
    let ghost body = chars@.subrange(from as int, end as int);
    proof {
        assert(s[0] == first);
        if first == '+' {
            assert(s.drop_first() =~= body);
        } else {
            assert(s =~= body);
        }
    }
    let ghost target = scan_up(body, 0, 0, max as int);
    assert(int_result(s, 0, max as int) == target);
    let mut acc: u64 = 0;
    let mut i = from;
    while i < end
        invariant
            start <= from <= i <= end <= chars.len(),
            body == chars@.subrange(from as int, end as int),
            s == chars@.subrange(start as int, end as int),
            int_result(s, 0, max as int) == target,
            acc <= max,
            target == scan_up(body, i - from, acc as int, max as int),
        decreases end - i,
    {
        let c = chars[i];
        proof {
            assert(body[i - from] == c);
        }
        if !('0' <= c && c <= '9') {
            return Err(IntErrorKind::InvalidDigit);
        }
        let d = (c as u32 - '0' as u32) as u64;
        proof {
            assert(digit_val(c) == d);
        }
        let next: u128 = acc as u128 * 10 + d as u128;
        if next > max as u128 {
            return Err(IntErrorKind::PosOverflow);
        }
        acc = next as u64;
        i += 1;
    }
    Ok(acc)
}

/// The Unicode upper case of `s`, as `str::to_uppercase` maps it.
pub uninterp spec fn unicode_uppercase(s: Seq<char>) -> Seq<char>;

/// `c` with `a`..`z` mapped to `A`..`Z`.
pub open spec fn upper_char(c: char) -> char {
    if 'a' <= c && c <= 'z' {
        ((c as u32) - 32) as char
    } else {
        c
    }
}

/// The upper case of `s` as `str::to_uppercase` gives it: on ASCII text,
/// `a`..`z` mapped to `A`..`Z`.
pub open spec fn upper_text(s: Seq<char>) -> Seq<char> {
    if forall|i: int| 0 <= i < s.len() ==> (#[trigger] s[i]) <= '\u{7f}' {
        s.map_values(|c: char| upper_char(c))
    } else {
        unicode_uppercase(s)
    }
}

/// `str::to_uppercase`. Stated: the result is `unicode_uppercase(s)`, and
/// on ASCII text it maps `a`..`z` to `A`..`Z` and keeps every other
/// character, as the Unicode case tables have it for ASCII; the rest of the
/// tables is left to that name.
#[verifier::external_body]
pub(crate) fn to_uppercase(s: &str) -> (u: String)
    ensures
        u@ == unicode_uppercase(s@),
        (forall|i: int| 0 <= i < s@.len() ==> (#[trigger] s@[i]) <= '\u{7f}') ==> u@
            == s@.map_values(|c: char| upper_char(c)),
{
    s.to_uppercase()
}

/// Whitespace at the start of `s` up to `i` does not change `trim_start`.
pub proof fn lemma_trim_start_skip_pub(s: Seq<char>, i: int)
    requires
        0 <= i <= s.len(),
        forall|j: int| 0 <= j < i ==> is_ws(#[trigger] s[j]),
    ensures
        trim_start(s) == trim_start(s.skip(i)),
{
    lemma_trim_start_skip(s, i);
}

/// A one-character needle occurs exactly where the character does.
pub proof fn lemma_contains_char(s: Seq<char>, c: char)
    ensures
        has_substring(s, seq![c]) <==> s.contains(c),
{
    if s.contains(c) {
        let i = choose|i: int| 0 <= i < s.len() && s[i] == c;
        assert(s.subrange(i, i + 1) =~= seq![c]);
        assert(occurs_at(s, seq![c], i));
    }
    if has_substring(s, seq![c]) {
        let i = choose|i: int| occurs_at(s, seq![c], i);
        assert(s.subrange(i, i + 1)[0] == s[i]);
    }
}

} // verus!
