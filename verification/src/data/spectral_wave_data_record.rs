//! Rows of an NDBC spectral wave file: the date as year, month, day, hour
//! and minute columns, on rows of even length a separation frequency, then
//! pairs of a value and its frequency written in parentheses.

use vstd::prelude::*;

use crate::data::gefs_timeseries_wave_data_record::{i32_result, u32_result};
use crate::data::delimited::{delimited_records, nonempty_fields, nonempty_row, read_delimited, record_views};
use crate::data::parseable_data_record::{row_text, DataRecordParsingError, ParseableDataRecord};
use crate::text::{
    chars_of, check_float, float_result, parse_int, string_views, substring, IntErrorKind,
};
use crate::time::{utc_datetime, valid_civil, UtcDateTime};

verus! {

/// A row of a spectral wave file. Its numbers are held as the float text
/// they were read as.
#[derive(Clone, Debug)]
pub struct SpectralWaveDataRecord {
    pub date: UtcDateTime,
    pub separation_frequency: Option<String>,
    pub value: Vec<String>,
    pub frequency: Vec<String>,
}

/// `s` without its parentheses.
pub open spec fn without_parens(s: Seq<char>) -> Seq<char>
    decreases s.len(),
{
    if s.len() == 0 {
        s
    } else if s.last() == '(' || s.last() == ')' {
        without_parens(s.drop_last())
    } else {
        without_parens(s.drop_last()).push(s.last())
    }
}

/// The values and frequencies of pairs `i..count` from column `start` on,
/// or the message of the first that is no float.
pub open spec fn spectral_pairs(row: Seq<Seq<char>>, start: int, i: int, count: int) -> Result<
    (Seq<Seq<char>>, Seq<Seq<char>>),
    Seq<char>,
>
    decreases count - i,
{
    if i >= count || i < 0 {
        Ok((Seq::empty(), Seq::empty()))
    } else {
        let v = row[start + 2 * i];
        let f = without_parens(row[start + 2 * i + 1]);
        match float_result(v) {
            Err(k) => Err("Float: "@ + k.spec_message()),
            Ok(_) => match float_result(f) {
                Err(k) => Err("Float: "@ + k.spec_message()),
                Ok(_) => match spectral_pairs(row, start, i + 1, count) {
                    Err(m) => Err(m),
                    Ok((vs, fs)) => Ok((seq![v] + vs, seq![f] + fs)),
                },
            },
        }
    }
}

/// A date column: the value, or the message of its integer error.
pub open spec fn int_column(r: Result<int, IntErrorKind>) -> Result<int, Seq<char>> {
    match r {
        Err(k) => Err("Int: "@ + k.spec_message()),
        Ok(v) => Ok(v),
    }
}

/// A row as read: its date, separation frequency, values and frequencies.
pub type SpectralRowText = (UtcDateTime, Option<Seq<char>>, Seq<Seq<char>>, Seq<Seq<char>>);

/// The first column of the pairs: 6 on rows of even length, which hold a
/// separation frequency, else 5.
pub open spec fn pairs_start(row: Seq<Seq<char>>) -> int {
    if row.len() % 2 == 0 {
        6
    } else {
        5
    }
}

/// A row read, or the message of its failure; `Err(None)` where its date
/// is no calendar date, on which reading it panics. A separation frequency
/// that is no float reads as `9.999`.
pub open spec fn spec_spectral_row(row: Seq<Seq<char>>) -> Result<SpectralRowText, Option<Seq<char>>> {
    let start = pairs_start(row);
    if row.len() < start {
        Err(Some("Invalid Spectral Wave record: not enough rows parsed"@))
    } else {
        match spectral_pairs(row, start, 0, (row.len() - start) / 2) {
            Err(m) => Err(Some(m)),
            Ok((vs, fs)) => {
                let sep = if row.len() % 2 == 0 {
                    Some(
                        if float_result(row[5]) is Ok {
                            row[5]
                        } else {
                            "9.999"@
                        },
                    )
                } else {
                    None
                };
                match int_column(i32_result(row[0])) {
                    Err(m) => Err(Some(m)),
                    Ok(y) => match int_column(u32_result(row[1])) {
                        Err(m) => Err(Some(m)),
                        Ok(mo) => match int_column(u32_result(row[2])) {
                            Err(m) => Err(Some(m)),
                            Ok(d) => match int_column(u32_result(row[3])) {
                                Err(m) => Err(Some(m)),
                                Ok(h) => match int_column(u32_result(row[4])) {
                                    Err(m) => Err(Some(m)),
                                    Ok(mi) => if valid_civil(y, mo, d, h, mi, 0) {
                                        Ok(
                                            (
                                                UtcDateTime {
                                                    year: y as i32,
                                                    month: mo as u32,
                                                    day: d as u32,
                                                    hour: h as u32,
                                                    minute: mi as u32,
                                                    second: 0,
                                                },
                                                sep,
                                                vs,
                                                fs,
                                            ),
                                        )
                                    } else {
                                        Err(None)
                                    },
                                },
                            },
                        },
                    },
                }
            },
        }
    }
}

/// `rec` is the row `t` as read.
pub open spec fn spectral_record_is(rec: SpectralWaveDataRecord, t: SpectralRowText) -> bool {
    &&& rec.date == t.0
    &&& match (rec.separation_frequency, t.1) {
        (Some(a), Some(b)) => a@ == b,
        (None, None) => true,
        _ => false,
    }
    &&& string_views(rec.value@) == t.2
    &&& string_views(rec.frequency@) == t.3
}

/// The text of `s` without its parentheses.
fn strip_parens(s: &str) -> (t: String)
    ensures
        t@ == without_parens(s@),
{
    let chars = chars_of(s);
    let mut kept: Vec<char> = Vec::new();
    let mut i: usize = 0;
    while i < chars.len()
        invariant
            i <= chars.len(),
            chars@ == s@,
            kept@ == without_parens(chars@.take(i as int)),
        decreases chars.len() - i,
    {
        proof {
            assert(chars@.take(i + 1).drop_last() =~= chars@.take(i as int));
        }
        if chars[i] != '(' && chars[i] != ')' {
            kept.push(chars[i]);
        }
        i += 1;
    }
    proof {
        assert(chars@.take(i as int) =~= chars@);
        assert(kept@.subrange(0, kept.len() as int) =~= kept@);
    }
    substring(&kept, 0, kept.len())
}

/// Whether `s` is a float, and why not.
fn float_of(s: &str) -> (r: Result<(), DataRecordParsingError>)
    ensures
        match (r, float_result(s@)) {
            (Ok(_), Ok(_)) => true,
            (Err(e), Err(k)) => e matches DataRecordParsingError::ParseFailure(t) && t@ == "Float: "@
                + k.spec_message(),
            _ => false,
        },
{
    let chars = chars_of(s);
    proof {
        assert(chars@.subrange(0, chars.len() as int) =~= chars@);
    }
    match check_float(&chars, 0, chars.len()) {
        Ok(()) => Ok(()),
        Err(k) => Err(DataRecordParsingError::from_float_error(k)),
    }
}

/// A date column within `[min, max]`.
fn int_of(s: &str, min: i64, max: i64) -> (r: Result<i64, DataRecordParsingError>)
    requires
        min <= 0 <= max,
    ensures
        match (r, int_column(crate::text::int_result(s@, min as int, max as int))) {
            (Ok(v), Ok(w)) => v == w,
            (Err(e), Err(m)) => e matches DataRecordParsingError::ParseFailure(t) && t@ == m,
            _ => false,
        },
        r matches Ok(v) ==> min <= v <= max,
{
    let chars = chars_of(s);
    proof {
        assert(chars@.subrange(0, chars.len() as int) =~= chars@);
    }
    match parse_int(&chars, 0, chars.len(), min, max) {
        Ok(v) => Ok(v),
        Err(k) => Err(DataRecordParsingError::from_int_error(k)),
    }
}

impl ParseableDataRecord for SpectralWaveDataRecord {
    type Metadata = ();

    /// The row's date, when it gets that far, is a calendar date.
    open spec fn row_readable(row: Seq<Seq<char>>) -> bool {
        spec_spectral_row(row) != Err::<SpectralRowText, Option<Seq<char>>>(None)
    }

    fn from_data_row(metadata: Option<&()>, row: &Vec<&str>) -> (r: Result<
        SpectralWaveDataRecord,
        DataRecordParsingError,
    >)
        ensures
            match (r, spec_spectral_row(row_text(row@))) {
                (Ok(rec), Ok(t)) => spectral_record_is(rec, t),
                (Err(e), Err(Some(m))) => e matches DataRecordParsingError::ParseFailure(t) && t@ == m,
                _ => false,
            },
    {
        let ghost text = row_text(row@);
        proof {
            assert forall|i: int| 0 <= i < row.len() implies #[trigger] text[i] == row@[i]@ by {}
        }
        let n = row.len();
        let has_sep = n % 2 == 0;
        let start: usize = if has_sep {
            6
        } else {
            5
        };
        if n < start {
            return Err(
                crate::data::parseable_data_record::parse_failure(
                    "Invalid Spectral Wave record: not enough rows parsed",
                ),
            );
        }
        let count = (n - start) / 2;
        let mut values: Vec<String> = Vec::new();
        let mut freqs: Vec<String> = Vec::new();
        let mut i: usize = 0;
        proof {
            assert(string_views(values@) =~= Seq::<Seq<char>>::empty());
            assert(string_views(freqs@) =~= Seq::<Seq<char>>::empty());
            match spectral_pairs(text, start as int, 0, count as int) {
                Ok((vs, fs)) => {
                    assert(Seq::<Seq<char>>::empty() + vs =~= vs);
                    assert(Seq::<Seq<char>>::empty() + fs =~= fs);
                },
                Err(_) => {},
            }
        }
        while i < count
            invariant
                i <= count,
                count == (n - start) / 2,
                start + 2 * count <= n,
                n == row.len(),
                n == text.len(),
                start == pairs_start(text),
                start <= n,
                has_sep == (n % 2 == 0),
                text == row_text(row@),
                forall|k: int| 0 <= k < row.len() ==> #[trigger] text[k] == row@[k]@,
                match spectral_pairs(text, start as int, i as int, count as int) {
                    Err(m) => spectral_pairs(text, start as int, 0, count as int) == Err::<
                        (Seq<Seq<char>>, Seq<Seq<char>>),
                        Seq<char>,
                    >(m),
                    Ok((vs, fs)) => spectral_pairs(text, start as int, 0, count as int) == Ok::<
                        (Seq<Seq<char>>, Seq<Seq<char>>),
                        Seq<char>,
                    >((string_views(values@) + vs, string_views(freqs@) + fs)),
                },
            decreases count - i,
        {
            let index = start + i * 2;
            proof {
                assert(text[index as int] == row@[index as int]@);
                assert(text[index + 1] == row@[index + 1]@);
                assert(index == start + 2 * i);
            }
            if let Err(e) = float_of(row[index]) {
                return Err(e);
            }
            let f = strip_parens(row[index + 1]);
            if let Err(e) = float_of(f.as_str()) {
                return Err(e);
            }
            let ghost vb = string_views(values@);
            let ghost fb = string_views(freqs@);
            let mut v = String::new();
            crate::text::push_str(&mut v, row[index]);
            values.push(v);
            freqs.push(f);
            proof {
                assert(string_views(values@) =~= vb.push(row@[index as int]@));
                assert(string_views(freqs@) =~= fb.push(without_parens(row@[index + 1]@)));
                match spectral_pairs(text, start as int, i + 1, count as int) {
                    Ok((vs, fs)) => {
                        assert(vb + (seq![row@[index as int]@] + vs) =~= vb.push(row@[index as int]@)
                            + vs);
                        assert(fb + (seq![without_parens(row@[index + 1]@)] + fs) =~= fb.push(
                            without_parens(row@[index + 1]@),
                        ) + fs);
                    },
                    Err(_) => {},
                }
            }
            i += 1;
        }
        proof {
            assert(string_views(values@) + Seq::<Seq<char>>::empty() =~= string_views(values@));
            assert(string_views(freqs@) + Seq::<Seq<char>>::empty() =~= string_views(freqs@));
        }
        let separation_frequency = if has_sep {
            let mut t = String::new();
            if float_of(row[5]).is_ok() {
                crate::text::push_str(&mut t, row[5]);
            } else {
                crate::text::push_str(&mut t, "9.999");
            }
            Some(t)
        } else {
            None
        };
        let year = match int_of(row[0], i32::MIN as i64, i32::MAX as i64) {
            Ok(v) => v as i32,
            Err(e) => {
                return Err(e);
            },
        };
        let month = match int_of(row[1], 0, u32::MAX as i64) {
            Ok(v) => v as u32,
            Err(e) => {
                return Err(e);
            },
        };
        let day = match int_of(row[2], 0, u32::MAX as i64) {
            Ok(v) => v as u32,
            Err(e) => {
                return Err(e);
            },
        };
        let hour = match int_of(row[3], 0, u32::MAX as i64) {
            Ok(v) => v as u32,
            Err(e) => {
                return Err(e);
            },
        };
        let minute = match int_of(row[4], 0, u32::MAX as i64) {
            Ok(v) => v as u32,
            Err(e) => {
                return Err(e);
            },
        };
        let date = match utc_datetime(year, month, day, hour, minute, 0) {
            Some(d) => d,
            None => {
                return Err(DataRecordParsingError::InvalidData);
            },
        };
        Ok(SpectralWaveDataRecord { date, separation_frequency, value: values, frequency: freqs })
    }
}

/// The rows read from the records, their empty fields left out, those
/// that parse; none where a row's date is no calendar date, on which
/// reading it panics. Records that could not be read are passed over.
pub open spec fn spectral_rows(rs: Seq<Result<Seq<Seq<char>>, Seq<char>>>) -> Option<Seq<SpectralRowText>>
    decreases rs.len(),
{
    if rs.len() == 0 {
        Some(Seq::empty())
    } else {
        match spectral_rows(rs.drop_last()) {
            None => None,
            Some(prev) => match rs.last() {
                Err(_) => Some(prev),
                Ok(fields) => match spec_spectral_row(nonempty_fields(fields)) {
                    Err(None) => None,
                    Err(Some(_)) => Some(prev),
                    Ok(t) => Some(prev.push(t)),
                },
            },
        }
    }
}

/// Once a prefix of the records panics, all of them do.
proof fn lemma_spectral_rows_prefix_none(rs: Seq<Result<Seq<Seq<char>>, Seq<char>>>, n: int)
    requires
        0 <= n <= rs.len(),
        spectral_rows(rs.take(n)) is None,
    ensures
        spectral_rows(rs) is None,
    decreases rs.len() - n,
{
    if n < rs.len() {
        assert(rs.take(n + 1).drop_last() =~= rs.take(n));
        lemma_spectral_rows_prefix_none(rs, n + 1);
    } else {
        assert(rs.take(n) =~= rs);
    }
}

/// The records of a spectral wave file: spaces between fields and lines
/// that start with `#` left out.
pub open spec fn spectral_file_records(data: Seq<char>) -> Seq<Result<Seq<Seq<char>>, Seq<char>>> {
    delimited_records(data, 32u8, 35u8)
}

/// `recs` are the rows `ts` as read, one for one.
pub open spec fn spectral_records_are(recs: Seq<SpectralWaveDataRecord>, ts: Seq<SpectralRowText>) -> bool {
    &&& recs.len() == ts.len()
    &&& forall|i: int| 0 <= i < recs.len() ==> spectral_record_is(#[trigger] recs[i], ts[i])
}

/// The rows of a spectral wave file.
pub struct SpectralWaveDataRecordCollection<'a> {
    data: &'a str,
}

impl<'a> SpectralWaveDataRecordCollection<'a> {
    /// The text the records are read from.
    pub closed spec fn text(&self) -> Seq<char> {
        self.data@
    }

    pub fn from_data(data: &'a str) -> (c: Self)
        ensures
            c.text() == data@,
    {
        SpectralWaveDataRecordCollection { data }
    }

    /// The records of the file, those whose rows parse.
    pub fn records(&self) -> (r: Vec<SpectralWaveDataRecord>)
        requires
            spectral_rows(spectral_file_records(self.text())) is Some,
        ensures
            spectral_rows(spectral_file_records(self.text())) matches Some(ts)
                && spectral_records_are(r@, ts),
    {
        match self.try_records() {
            Some(r) => r,
            None => Vec::new(),
        }
    }

    /// As `records`, but `None` where a row's date is no calendar date.
    pub fn try_records(&self) -> (r: Option<Vec<SpectralWaveDataRecord>>)
        ensures
            match (r, spectral_rows(spectral_file_records(self.text()))) {
                (None, None) => true,
                (Some(v), Some(ts)) => spectral_records_are(v@, ts),
                _ => false,
            },
    {
        // ' ' between fields, '#' before comments
        let records = read_delimited(self.data, 32u8, 35u8);
        let ghost rs = spectral_file_records(self.text());
        let mut out: Vec<SpectralWaveDataRecord> = Vec::new();
        let mut i: usize = 0;
        proof {
            assert(rs.take(0) =~= Seq::<Result<Seq<Seq<char>>, Seq<char>>>::empty());
        }
        while i < records.len()
            invariant
                i <= records.len(),
                rs == record_views(records@),
                rs == spectral_file_records(self.text()),
                rs.len() == records.len(),
                spectral_rows(rs.take(i as int)) matches Some(ts) && spectral_records_are(out@, ts),
            decreases records.len() - i,
        {
            proof {
                assert(rs.take(i + 1).drop_last() =~= rs.take(i as int));
                assert(rs.take(i + 1).last() == rs[i as int]);
            }
            match &records[i] {
                Err(_) => {},
                Ok(fields) => {
                    let row = nonempty_row(fields);
                    proof {
                        assert(rs[i as int] == Ok::<Seq<Seq<char>>, Seq<char>>(string_views(fields@)));
                    }
                    if !row_date_readable(&row) {
                        proof {
                            assert(spectral_rows(rs.take(i + 1)) is None);
                            lemma_spectral_rows_prefix_none(rs, i + 1);
                        }
                        return None;
                    }
                    let ghost ts = spectral_rows(rs.take(i as int))->0;
                    match SpectralWaveDataRecord::from_data_row(None, &row) {
                        Ok(rec) => {
                            proof {
                                let t = spec_spectral_row(row_text(row@))->Ok_0;
                                assert forall|k: int| 0 <= k < out.len() + 1 implies spectral_record_is(
                                    #[trigger] out@.push(rec)[k],
                                    ts.push(t)[k],
                                ) by {
                                    if k < out.len() {
                                        assert(out@.push(rec)[k] == out@[k]);
                                        assert(ts.push(t)[k] == ts[k]);
                                    }
                                }
                            }
                            out.push(rec);
                        },
                        Err(_) => {},
                    }
                },
            }
            i += 1;
        }
        proof {
            assert(rs.take(i as int) =~= rs);
        }
        Some(out)
    }
}

/// Whether reading `row` stays clear of a panic: it fails before its
/// date, or its date is a calendar date.
fn row_date_readable(row: &Vec<&str>) -> (b: bool)
    ensures
        b == (spec_spectral_row(row_text(row@)) != Err::<SpectralRowText, Option<Seq<char>>>(None)),
{
    let ghost text = row_text(row@);
    proof {
        assert forall|i: int| 0 <= i < row.len() implies #[trigger] text[i] == row@[i]@ by {}
    }
    let n = row.len();
    let start: usize = if n % 2 == 0 {
        6
    } else {
        5
    };
    if n < start {
        return true;
    }
    let count = (n - start) / 2;
    let mut i: usize = 0;
    while i < count
        invariant
            i <= count,
            count == (n - start) / 2,
            start + 2 * count <= n,
            n == row.len(),
            n == text.len(),
            start == pairs_start(text),
            text == row_text(row@),
            forall|k: int| 0 <= k < row.len() ==> #[trigger] text[k] == row@[k]@,
            spectral_pairs(text, start as int, 0, count as int) is Ok <==> spectral_pairs(
                text,
                start as int,
                i as int,
                count as int,
            ) is Ok,
        decreases count - i,
    {
        let index = start + i * 2;
        proof {
            assert(text[index as int] == row@[index as int]@);
            assert(text[index + 1] == row@[index + 1]@);
            assert(index == start + 2 * i);
        }
        if float_of(row[index]).is_err() {
            return true;
        }
        let f = strip_parens(row[index + 1]);
        if float_of(f.as_str()).is_err() {
            return true;
        }
        i += 1;
    }
    let year = match int_of(row[0], i32::MIN as i64, i32::MAX as i64) {
        Ok(v) => v as i32,
        Err(_) => {
            return true;
        },
    };
    let month = match int_of(row[1], 0, u32::MAX as i64) {
        Ok(v) => v as u32,
        Err(_) => {
            return true;
        },
    };
    let day = match int_of(row[2], 0, u32::MAX as i64) {
        Ok(v) => v as u32,
        Err(_) => {
            return true;
        },
    };
    let hour = match int_of(row[3], 0, u32::MAX as i64) {
        Ok(v) => v as u32,
        Err(_) => {
            return true;
        },
    };
    let minute = match int_of(row[4], 0, u32::MAX as i64) {
        Ok(v) => v as u32,
        Err(_) => {
            return true;
        },
    };
    utc_datetime(year, month, day, hour, minute, 0).is_some()
}

} // verus!
