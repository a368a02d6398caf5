//! SWAN `TABLE ... HEAD` point output: `%` comment lines, among them one
//! row of column names and one row of bracketed units, then one whitespace
//! separated row of values per output time.
//!
//! Values are held as the float text they were read as.

use vstd::prelude::*;

use crate::text::{
    ascii_lower, chars_of, check_float, decimal, float_result, has_substring, line_spans, lines,
    push_decimal, push_str, split_ws, string_views, substring, to_ascii_lower, trim, trim_bounds,
    words_of, FloatErrorKind,
};

verus! {

#[derive(Clone, Debug)]
pub struct SwanTableFile {
    pub columns: Vec<String>,
    /// Bracketed unit strings, aligned with `columns` (empty if the file
    /// carried none).
    pub units: Vec<String>,
    /// One row per output time.
    pub rows: Vec<Vec<String>>,
}

#[derive(Clone, Debug)]
pub enum SwanTableError {
    Parse { line: usize, message: String },
    Empty,
}

impl SwanTableError {
    fn parse(line: usize, message: String) -> (e: Self)
        ensures
            e == (SwanTableError::Parse { line, message }),
    {
        SwanTableError::Parse { line, message }
    }

    /// The text that the error displays.
    pub open spec fn spec_message(self) -> Seq<char> {
        match self {
            SwanTableError::Parse { line, message } => "SWAN table parse error on line "@ + decimal(
                line as nat,
            ) + ": "@ + message@,
            SwanTableError::Empty => "no data rows found in SWAN table output"@,
        }
    }

    pub fn message(&self) -> (m: String)
        ensures
            m@ == self.spec_message(),
    {
        let mut m = String::new();
        match self {
            SwanTableError::Parse { line, message } => {
                push_str(&mut m, "SWAN table parse error on line ");
                push_decimal(&mut m, *line as u64);
                push_str(&mut m, ": ");
                push_str(&mut m, message.as_str());
            },
            SwanTableError::Empty => push_str(&mut m, "no data rows found in SWAN table output"),
        }
        m
    }
}

pub open spec fn is_ascii_alpha(c: char) -> bool {
    ('a' <= c && c <= 'z') || ('A' <= c && c <= 'Z')
}

/// `s` without leading and trailing `[` and `]`.
pub open spec fn strip_brackets(s: Seq<char>) -> Seq<char>
    decreases s.len(),
{
    if s.len() > 0 && (s[0] == '[' || s[0] == ']') {
        strip_brackets(s.drop_first())
    } else if s.len() > 0 && (s.last() == '[' || s.last() == ']') {
        strip_brackets(s.drop_last())
    } else {
        s
    }
}

/// What the table holds so far: columns, units and rows.
pub type TableText = (Seq<Seq<char>>, Seq<Seq<char>>, Seq<Seq<Seq<char>>>);

/// The first of `tokens` that is not a float, with why.
pub open spec fn first_bad_value(tokens: Seq<Seq<char>>) -> Option<FloatErrorKind>
    decreases tokens.len(),
{
    if tokens.len() == 0 {
        None
    } else {
        match float_result(tokens[0]) {
            Err(k) => Some(k),
            Ok(_) => first_bad_value(tokens.drop_first()),
        }
    }
}

/// What line number `n` does to the table: a blank line nothing; a comment
/// with words and no `:` sets the units when every word starts with `[`,
/// else the columns when every word starts with an ASCII letter; any other
/// line is a row of floats, as many as the columns when they are known.
pub open spec fn table_step(line: Seq<char>, n: int, t: TableText) -> Result<
    TableText,
    (int, Seq<char>),
> {
    let tl = trim(line);
    if tl.len() == 0 {
        Ok(t)
    } else if tl[0] == '%' {
        let comment = tl.drop_first();
        let tokens = split_ws(comment);
        if tokens.len() == 0 || has_substring(comment, ":"@) {
            Ok(t)
        } else if forall|j: int| 0 <= j < tokens.len() ==> (#[trigger] tokens[j]).len() > 0 && tokens[j][0] == '[' {
            Ok((t.0, tokens.map_values(|w: Seq<char>| strip_brackets(w)), t.2))
        } else if forall|j: int|
            0 <= j < tokens.len() ==> (#[trigger] tokens[j]).len() > 0 && is_ascii_alpha(tokens[j][0]) {
            Ok((tokens, t.1, t.2))
        } else {
            Ok(t)
        }
    } else {
        let tokens = split_ws(tl);
        match first_bad_value(tokens) {
            Some(k) => Err((n, "invalid value: "@ + k.spec_message())),
            None => if t.0.len() > 0 && tokens.len() != t.0.len() {
                Err((n, decimal(tokens.len()) + " values for "@ + decimal(t.0.len()) + " columns"@))
            } else {
                Ok((t.0, t.1, t.2.push(tokens)))
            },
        }
    }
}

/// The table after the lines `ls`, or the line number and message of the
/// first failure.
pub open spec fn table_after(ls: Seq<Seq<char>>) -> Result<TableText, (int, Seq<char>)>
    decreases ls.len(),
{
    if ls.len() == 0 {
        Ok((Seq::empty(), Seq::empty(), Seq::empty()))
    } else {
        match table_after(ls.drop_last()) {
            Err(e) => Err(e),
            Ok(t) => table_step(ls.last(), ls.len() as int, t),
        }
    }
}

/// A table file: its columns, units and rows; `Err(None)` when it has no
/// rows.
pub open spec fn spec_table(data: Seq<char>) -> Result<TableText, Option<(int, Seq<char>)>> {
    match table_after(lines(data)) {
        Err(e) => Err(Some(e)),
        Ok(t) => if t.2.len() == 0 {
            Err(None)
        } else {
            Ok(t)
        },
    }
}

pub open spec fn row_views(v: Seq<Vec<String>>) -> Seq<Seq<Seq<char>>> {
    v.map_values(|r: Vec<String>| string_views(r@))
}

proof fn lemma_table_stop(ls: Seq<Seq<char>>, k: int)
    requires
        0 <= k <= ls.len(),
        table_after(ls.take(k)) is Err,
    ensures
        table_after(ls) == table_after(ls.take(k)),
    decreases ls.len() - k,
{
    if k < ls.len() {
        assert(ls.drop_last().take(k) =~= ls.take(k));
        lemma_table_stop(ls.drop_last(), k);
    } else {
        assert(ls.take(k) =~= ls);
    }
}

/// The bounds of `strip_brackets(chars[a..b])`.
fn strip_brackets_bounds(chars: &Vec<char>, a: usize, b: usize) -> (r: (usize, usize))
    requires
        a <= b <= chars.len(),
    ensures
        a <= r.0 <= r.1 <= b,
        chars@.subrange(r.0 as int, r.1 as int) == strip_brackets(chars@.subrange(a as int, b as int)),
{
    let ghost target = strip_brackets(chars@.subrange(a as int, b as int));
    let mut s = a;
    while s < b && (chars[s] == '[' || chars[s] == ']')
        invariant
            a <= s <= b <= chars.len(),
            strip_brackets(chars@.subrange(s as int, b as int)) == target,
        decreases b - s,
    {
        proof {
            assert(chars@.subrange(s as int, b as int)[0] == chars@[s as int]);
            assert(chars@.subrange(s as int, b as int).drop_first() =~= chars@.subrange(s + 1, b as int));
        }
        s += 1;
    }
    let mut e = b;
    while e > s && (chars[e - 1] == '[' || chars[e - 1] == ']')
        invariant
            a <= s <= e <= b <= chars.len(),
            s < e ==> !(chars@[s as int] == '[' || chars@[s as int] == ']'),
            strip_brackets(chars@.subrange(s as int, e as int)) == target,
        decreases e - s,
    {
        proof {
            let t = chars@.subrange(s as int, e as int);
            assert(t[0] == chars@[s as int]);
            assert(t.last() == chars@[e - 1]);
            assert(t.drop_last() =~= chars@.subrange(s as int, e - 1));
        }
        e -= 1;
    }
    proof {
        let t = chars@.subrange(s as int, e as int);
        if s < e {
            assert(t[0] == chars@[s as int]);
            assert(t.last() == chars@[e - 1]);
        }
    }
    (s, e)
}

/// Every word starts with `[`.
fn all_bracketed(tokens: &Vec<String>) -> (b: bool)
    ensures
        b == forall|j: int|
            0 <= j < string_views(tokens@).len() ==> (#[trigger] string_views(tokens@)[j]).len() > 0
                && string_views(tokens@)[j][0] == '[',
{
    let ghost tv = string_views(tokens@);
    let mut i: usize = 0;
    while i < tokens.len()
        invariant
            i <= tokens.len(),
            tv == string_views(tokens@),
            forall|j: int| 0 <= j < i ==> (#[trigger] tv[j]).len() > 0 && tv[j][0] == '[',
        decreases tokens.len() - i,
    {
        let w = chars_of(tokens[i].as_str());
        proof {
            assert(tv[i as int] == w@);
        }
        if w.len() == 0 || w[0] != '[' {
            return false;
        }
        i += 1;
    }
    true
}

/// Every word starts with an ASCII letter.
fn all_alphabetic_start(tokens: &Vec<String>) -> (b: bool)
    ensures
        b == forall|j: int|
            0 <= j < string_views(tokens@).len() ==> (#[trigger] string_views(tokens@)[j]).len() > 0
                && is_ascii_alpha(string_views(tokens@)[j][0]),
{
    let ghost tv = string_views(tokens@);
    let mut i: usize = 0;
    while i < tokens.len()
        invariant
            i <= tokens.len(),
            tv == string_views(tokens@),
            forall|j: int| 0 <= j < i ==> (#[trigger] tv[j]).len() > 0 && is_ascii_alpha(tv[j][0]),
        decreases tokens.len() - i,
    {
        let w = chars_of(tokens[i].as_str());
        proof {
            assert(tv[i as int] == w@);
        }
        if w.len() == 0 || !(('a' <= w[0] && w[0] <= 'z') || ('A' <= w[0] && w[0] <= 'Z')) {
            return false;
        }
        i += 1;
    }
    true
}

/// The words with their brackets stripped.
fn stripped_words(tokens: &Vec<String>) -> (out: Vec<String>)
    ensures
        string_views(out@) == string_views(tokens@).map_values(|w: Seq<char>| strip_brackets(w)),
{
    let mut out: Vec<String> = Vec::new();
    let mut i: usize = 0;
    while i < tokens.len()
        invariant
            i <= tokens.len(),
            string_views(out@) == string_views(tokens@).take(i as int).map_values(
                |w: Seq<char>| strip_brackets(w),
            ),
        decreases tokens.len() - i,
    {
        let w = chars_of(tokens[i].as_str());
        let (a, b) = strip_brackets_bounds(&w, 0, w.len());
        proof {
            assert(w@.subrange(0, w.len() as int) =~= w@);
        }
        let ghost before = string_views(out@);
        out.push(substring(&w, a, b));
        i += 1;
        proof {
            assert(string_views(out@) =~= before.push(strip_brackets(w@)));
            assert(string_views(tokens@).take(i as int).map_values(|w: Seq<char>| strip_brackets(w))
                =~= string_views(tokens@).take(i - 1).map_values(|w: Seq<char>| strip_brackets(w)).push(
                strip_brackets(tokens@[i - 1]@),
            ));
        }
    }
    proof {
        assert(string_views(tokens@).take(i as int) =~= string_views(tokens@));
    }
    out
}

/// Whether every word is a float, or why the first that is not fails.
fn check_values(tokens: &Vec<String>) -> (r: Option<FloatErrorKind>)
    ensures
        r == first_bad_value(string_views(tokens@)),
{
    let ghost tv = string_views(tokens@);
    let mut i: usize = 0;
    proof {
        assert(tv.skip(0) =~= tv);
    }
    while i < tokens.len()
        invariant
            i <= tokens.len(),
            tv == string_views(tokens@),
            first_bad_value(tv) == first_bad_value(tv.skip(i as int)),
        decreases tokens.len() - i,
    {
        let w = chars_of(tokens[i].as_str());
        proof {
            assert(w@.subrange(0, w.len() as int) =~= w@);
            assert(tv.skip(i as int)[0] == w@);
            assert(tv.skip(i as int).drop_first() =~= tv.skip(i + 1));
        }
        if let Err(k) = check_float(&w, 0, w.len()) {
            return Some(k);
        }
        i += 1;
    }
    proof {
        assert(tv.skip(i as int) =~= Seq::<Seq<char>>::empty());
    }
    None
}

impl SwanTableFile {
    /// Reads a table file; see `spec_table`.
    pub fn from_data(data: &str) -> (r: Result<Self, SwanTableError>)
        ensures
            match (r, spec_table(data@)) {
                (Ok(t), Ok((c, u, rows))) => string_views(t.columns@) == c && string_views(
                    t.units@,
                ) == u && row_views(t.rows@) == rows,
                (Err(SwanTableError::Empty), Err(None)) => true,
                (Err(SwanTableError::Parse { line, message }), Err(Some((n, m)))) => line == n
                    && message@ == m,
                _ => false,
            },
    {
        let chars = chars_of(data);
        let spans = line_spans(&chars);
        let ghost ls = lines(chars@);
        let mut columns: Vec<String> = Vec::new();
        let mut units: Vec<String> = Vec::new();
        let mut rows: Vec<Vec<String>> = Vec::new();
        let mut i: usize = 0;
        proof {
            assert(ls.take(0) =~= Seq::<Seq<char>>::empty());
            assert(string_views(columns@) =~= Seq::<Seq<char>>::empty());
            assert(string_views(units@) =~= Seq::<Seq<char>>::empty());
            assert(row_views(rows@) =~= Seq::<Seq<Seq<char>>>::empty());
        }
        while i < spans.len()
            invariant
                i <= spans.len() == ls.len(),
                ls == lines(chars@),
                chars@ == data@,
                forall|k: int|
                    0 <= k < spans.len() ==> (#[trigger] spans@[k]).0 <= spans@[k].1 <= chars.len()
                        && chars@.subrange(spans@[k].0 as int, spans@[k].1 as int) == ls[k],
                table_after(ls.take(i as int)) == Ok::<TableText, (int, Seq<char>)>(
                    (string_views(columns@), string_views(units@), row_views(rows@)),
                ),
            decreases spans.len() - i,
        {
            let (a, b) = spans[i];
            let line_number = i + 1;
            let ghost state = (string_views(columns@), string_views(units@), row_views(rows@));
            proof {
                assert(ls.take(i + 1).drop_last() =~= ls.take(i as int));
                assert(ls.take(i + 1).last() == ls[i as int]);
                assert(table_after(ls.take(i + 1)) == table_step(ls[i as int], i + 1, state));
            }
            let (ta, tb) = trim_bounds(&chars, a, b);
            if ta == tb {
                i += 1;
                continue ;
            }
            proof {
                assert(chars@.subrange(ta as int, tb as int)[0] == chars@[ta as int]);
            }
            if chars[ta] == '%' {
                let tokens = words_of(&chars, ta + 1, tb);
                let comment = crate::text::sub_chars(&chars, ta + 1, tb);
                proof {
                    assert(chars@.subrange(ta as int, tb as int).drop_first() =~= chars@.subrange(
                        ta + 1,
                        tb as int,
                    ));
                }
                if tokens.len() == 0 || crate::text::contains(&comment, &chars_of(":")) {
                    i += 1;
                    continue ;
                }
                if all_bracketed(&tokens) {
                    units = stripped_words(&tokens);
                } else if all_alphabetic_start(&tokens) {
                    columns = tokens;
                }
                i += 1;
                continue ;
            }
            let tokens = words_of(&chars, ta, tb);
            if let Some(k) = check_values(&tokens) {
                let mut m = String::new();
                push_str(&mut m, "invalid value: ");
                push_str(&mut m, k.message());
                proof {
                    lemma_table_stop(ls, i + 1);
                    assert(ls.take(i + 1).len() == i + 1);
                }
                return Err(SwanTableError::parse(line_number, m));
            }
            if columns.len() > 0 && tokens.len() != columns.len() {
                let mut m = String::new();
                push_decimal(&mut m, tokens.len() as u64);
                push_str(&mut m, " values for ");
                push_decimal(&mut m, columns.len() as u64);
                push_str(&mut m, " columns");
                proof {
                    lemma_table_stop(ls, i + 1);
                }
                return Err(SwanTableError::parse(line_number, m));
            }
            let ghost before = row_views(rows@);
            let ghost tv = string_views(tokens@);
            rows.push(tokens);
            proof {
                assert(row_views(rows@) =~= before.push(tv));
            }
            i += 1;
        }
        proof {
            assert(ls.take(i as int) =~= ls);
        }
        if rows.len() == 0 {
            return Err(SwanTableError::Empty);
        }
        Ok(SwanTableFile { columns, units, rows })
    }
}

/// `a` and `b` are equal when ASCII letters are compared without case.
pub open spec fn eq_ignore_ascii_case(a: Seq<char>, b: Seq<char>) -> bool {
    ascii_lower(a) == ascii_lower(b)
}

/// `r` is the index of the first of `cols` that is `name` without regard to
/// ASCII case, or none when there is no such column.
pub open spec fn is_column_of(r: Option<usize>, cols: Seq<Seq<char>>, name: Seq<char>) -> bool {
    match r {
        Some(j) => j < cols.len() && eq_ignore_ascii_case(cols[j as int], name) && forall|k: int|
            0 <= k < j ==> !eq_ignore_ascii_case(#[trigger] cols[k], name),
        None => forall|k: int| 0 <= k < cols.len() ==> !eq_ignore_ascii_case(#[trigger] cols[k], name),
    }
}

impl SwanTableFile {
    /// Column index by (case-insensitive) name.
    pub fn column(&self, name: &str) -> (r: Option<usize>)
        ensures
            is_column_of(r, string_views(self.columns@), name@),
    {
        let ghost cols = string_views(self.columns@);
        let target = to_ascii_lower(&chars_of(name));
        let mut i: usize = 0;
        while i < self.columns.len()
            invariant
                i <= self.columns.len(),
                cols == string_views(self.columns@),
                target@ == ascii_lower(name@),
                forall|k: int| 0 <= k < i ==> !eq_ignore_ascii_case(#[trigger] cols[k], name@),
            decreases self.columns.len() - i,
        {
            let c = to_ascii_lower(&chars_of(self.columns[i].as_str()));
            let n = c.len();
            proof {
                assert(cols[i as int] == self.columns@[i as int]@);
                assert(c@.subrange(0, n as int) =~= c@);
            }
            if crate::text::equals_at(&c, 0, n, &target) {
                return Some(i);
            }
            i += 1;
        }
        None
    }

    /// Value at (row, column name).
    pub fn value(&self, row: usize, name: &str) -> (r: Option<String>)
        ensures
            r is Some <==> row < self.rows.len() && exists|j: usize|
                is_column_of(Some(j), string_views(self.columns@), name@) && j
                    < self.rows@[row as int].len(),
            forall|j: usize|
                is_column_of(Some(j), string_views(self.columns@), name@) ==> (r matches Some(v) ==> v@
                    == self.rows@[row as int]@[j as int]@),
    {
        let j = match self.column(name) {
            Some(j) => j,
            None => {
                return None;
            },
        };
        proof {
            assert forall|j2: usize| is_column_of(Some(j2), string_views(self.columns@), name@) implies j2
                == j by {
                if j2 < j {
                    assert(eq_ignore_ascii_case(string_views(self.columns@)[j2 as int], name@));
                } else if j < j2 {
                    assert(eq_ignore_ascii_case(string_views(self.columns@)[j as int], name@));
                }
            }
        }
        if row >= self.rows.len() || j >= self.rows[row].len() {
            return None;
        }
        let mut v = String::new();
        push_str(&mut v, self.rows[row][j].as_str());
        Some(v)
    }
}

} // verus!
