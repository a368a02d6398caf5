//! Byte spans of messages in remote GRIB files, for HTTP range requests.

use vstd::prelude::*;

use crate::text::{decimal, push_decimal, push_str};

verus! {

/// A span of bytes in a remote GRIB file, for HTTP range requests.
#[derive(Clone, Copy, Debug, PartialEq, Eq)]
pub struct ByteRange {
    pub offset: u64,
    pub length: u64,
}

/// What range planning reads from one entry of a GRIB index file.
#[derive(Clone, Debug)]
pub struct IndexEntry {
    /// Byte offset of the message within the GRIB file.
    pub offset: u64,
    /// Message size in bytes, when the index gives or implies it.
    pub length: Option<u64>,
    /// Variable identifier (ECMWF MARS `param`, NOAA abbreviation).
    pub var: Option<String>,
    /// The ECMWF `number` key (ensemble member), verbatim.
    pub number: Option<String>,
    /// Forecast time (ECMWF `step`), verbatim.
    pub forecast_time: Option<String>,
}

impl ByteRange {
    /// One past the last byte.
    pub open spec fn spec_end(self) -> int {
        self.offset + self.length
    }

    /// The range an index entry points at, or None when its length is
    /// unknown.
    pub fn from_index_entry(entry: &IndexEntry) -> (r: Option<ByteRange>)
        ensures
            match entry.length {
                Some(length) => r == Some(ByteRange { offset: entry.offset, length }),
                None => r is None,
            },
    {
        match entry.length {
            Some(length) => Some(ByteRange { offset: entry.offset, length }),
            None => None,
        }
    }

    /// Exclusive end offset.
    pub fn end(&self) -> (e: u64)
        requires
            self.spec_end() <= u64::MAX,
        ensures
            e == self.spec_end(),
    {
        self.offset + self.length
    }

    /// The value of an HTTP `Range` header, e.g. `bytes=0-99`: the first
    /// and last byte, where an empty range at 0 gives `bytes=0-0`.
    pub open spec fn spec_http_range_header(self) -> Seq<char> {
        let last = if self.spec_end() >= 1 {
            self.spec_end() - 1
        } else {
            0
        };
        "bytes="@ + decimal(self.offset as nat) + "-"@ + decimal(last as nat)
    }

    pub fn http_range_header(&self) -> (header: String)
        requires
            self.spec_end() <= u64::MAX,
        ensures
            header@ == self.spec_http_range_header(),
    {
        let mut header = String::new();
        push_str(&mut header, "bytes=");
        push_decimal(&mut header, self.offset);
        push_str(&mut header, "-");
        push_decimal(&mut header, self.end().saturating_sub(1));
        header
    }
}

/// `s` is ordered by offset.
pub open spec fn sorted_by_offset(s: Seq<ByteRange>) -> bool {
    forall|i: int, j: int| 0 <= i < j < s.len() ==> s[i].offset <= s[j].offset
}

/// Adds `r` after the ranges `acc`: merged into the last one when it starts
/// no more than `max_gap` bytes after that one ends, appended otherwise.
pub open spec fn merge_into(acc: Seq<ByteRange>, r: ByteRange, max_gap: int) -> Seq<ByteRange> {
    if acc.len() > 0 && r.offset <= acc.last().spec_end() + max_gap {
        let last = acc.last();
        let end = if last.spec_end() >= r.spec_end() {
            last.spec_end()
        } else {
            r.spec_end()
        };
        acc.update(acc.len() - 1, ByteRange { offset: last.offset, length: (end - last.offset) as u64 })
    } else {
        acc.push(r)
    }
}

/// The ranges `s`, taken in order, with each merged into the one before it
/// when they overlap or are at most `max_gap` bytes apart.
#[verifier::opaque]
pub open spec fn merge_sorted(s: Seq<ByteRange>, max_gap: int) -> Seq<ByteRange>
    decreases s.len(),
{
    if s.len() == 0 {
        Seq::empty()
    } else {
        merge_into(merge_sorted(s.drop_last(), max_gap), s.last(), max_gap)
    }
}

/// Every range ends, with `max_gap` added, within `u64`.
pub open spec fn ranges_fit(s: Seq<ByteRange>, max_gap: int) -> bool {
    forall|i: int| 0 <= i < s.len() ==> #[trigger] s[i].spec_end() + max_gap <= u64::MAX
}

/// One step of `merge_sorted`.
pub proof fn lemma_merge_sorted_step(s: Seq<ByteRange>, max_gap: int)
    ensures
        s.len() == 0 ==> merge_sorted(s, max_gap) == Seq::<ByteRange>::empty(),
        s.len() > 0 ==> merge_sorted(s, max_gap) == merge_into(
            merge_sorted(s.drop_last(), max_gap),
            s.last(),
            max_gap,
        ),
{
    reveal(merge_sorted);
}

proof fn lemma_insert_to_multiset(s: Seq<ByteRange>, pos: int, a: ByteRange)
    requires
        0 <= pos <= s.len(),
    ensures
        s.insert(pos, a).to_multiset() =~= s.to_multiset().insert(a),
{
    let t = s.insert(pos, a);
    assert(t.remove(pos) =~= s);
    t.to_multiset_ensures();
    assert(t.contains(a)) by {
        assert(t[pos] == a);
    }
}

/// `ranges` ordered by offset.
fn sort_by_offset(ranges: Vec<ByteRange>) -> (sorted: Vec<ByteRange>)
    ensures
        sorted_by_offset(sorted@),
        sorted@.to_multiset() == ranges@.to_multiset(),
{
    let mut sorted: Vec<ByteRange> = Vec::new();
    let mut i: usize = 0;
    proof {
        assert(ranges@.take(0) =~= Seq::<ByteRange>::empty());
        assert(sorted@ =~= Seq::<ByteRange>::empty());
    }
    while i < ranges.len()
        invariant
            i <= ranges.len(),
            sorted_by_offset(sorted@),
            sorted@.to_multiset() == ranges@.take(i as int).to_multiset(),
        decreases ranges.len() - i,
    {
        let r = ranges[i];
        let mut pos: usize = 0;
        while pos < sorted.len() && sorted[pos].offset <= r.offset
            invariant
                pos <= sorted.len(),
                forall|k: int| 0 <= k < pos ==> sorted@[k].offset <= r.offset,
            decreases sorted.len() - pos,
        {
            pos += 1;
        }
        let ghost before = sorted@;
        sorted.insert(pos, r);
        proof {
            lemma_insert_to_multiset(before, pos as int, r);
            assert(ranges@.take(i + 1) =~= ranges@.take(i as int).push(r));
            ranges@.take(i as int).to_multiset_ensures();
            assert forall|a: int, b: int| 0 <= a < b < sorted@.len() implies sorted@[a].offset
                <= sorted@[b].offset by {
                if b < pos {
                } else if b == pos {
                } else if a < pos {
                    assert(sorted@[b] == before[b - 1]);
                    assert(before[pos as int].offset > r.offset || pos == before.len());
                } else if a == pos {
                    assert(sorted@[b] == before[b - 1]);
                    assert(before[pos as int].offset > r.offset);
                } else {
                    assert(sorted@[b] == before[b - 1]);
                    assert(sorted@[a] == before[a - 1]);
                }
            }
        }
        i += 1;
    }
    proof {
        assert(ranges@.take(i as int) =~= ranges@);
    }
    sorted
}

/// Sort ranges and merge any that overlap or are separated by at most
/// `max_gap` bytes, so fewer requests are needed. Bytes in the gaps are
/// fetched too.
pub fn coalesce_ranges(ranges: Vec<ByteRange>, max_gap: u64) -> (merged: Vec<ByteRange>)
    requires
        ranges_fit(ranges@, max_gap as int),
    ensures
        exists|p: Seq<ByteRange>|
            {
                &&& sorted_by_offset(p)
                &&& p.to_multiset() == ranges@.to_multiset()
                &&& merged@ == merge_sorted(p, max_gap as int)
            },
        merged.len() <= ranges.len(),
        separated(merged@, max_gap as int),
        forall|k: int| 0 <= k < ranges.len() ==> held_by(merged@, #[trigger] ranges@[k]),
        forall|j: int|
            0 <= j < merged.len() ==> starts_at_input(ranges@, #[trigger] merged@[j])
                && ends_at_input(ranges@, merged@[j]),
{
    let ghost given = ranges@;
    let sorted = sort_by_offset(ranges);
    proof {
        assert forall|i: int| 0 <= i < sorted@.len() implies #[trigger] sorted@[i].spec_end()
            + max_gap <= u64::MAX by {
            sorted@.to_multiset_ensures();
            given.to_multiset_ensures();
            assert(sorted@.contains(sorted@[i]));
            assert(sorted@.to_multiset().count(sorted@[i]) > 0);
            assert(given.to_multiset().count(sorted@[i]) > 0);
            assert(given.contains(sorted@[i]));
            let k = choose|k: int| 0 <= k < given.len() && given[k] == sorted@[i];
            assert(given[k].spec_end() + max_gap <= u64::MAX);
        }
    }
    let mut merged: Vec<ByteRange> = Vec::new();
    let mut i: usize = 0;
    proof {
        lemma_merge_sorted_step(sorted@.take(0), max_gap as int);
    }
    while i < sorted.len()
        invariant
            i <= sorted.len(),
            ranges_fit(sorted@, max_gap as int),
            merged@ == merge_sorted(sorted@.take(i as int), max_gap as int),
            ranges_fit(merged@, max_gap as int),
        decreases sorted.len() - i,
    {
        let range = sorted[i];
        proof {
            lemma_merge_sorted_step(sorted@.take(i + 1), max_gap as int);
            assert(sorted@.take(i + 1).drop_last() =~= sorted@.take(i as int));
            assert(sorted@.take(i + 1).last() == range);
            assert(range.spec_end() + max_gap <= u64::MAX);
        }
        let n = merged.len();
        if n > 0 && range.offset <= merged[n - 1].end() + max_gap {
            let last = merged[n - 1];
            proof {
                assert(last.spec_end() + max_gap <= u64::MAX);
            }
            let end = if last.end() >= range.end() {
                last.end()
            } else {
                range.end()
            };
            merged.set(n - 1, ByteRange { offset: last.offset, length: end - last.offset });
        } else {
            merged.push(range);
        }
        i += 1;
    }
    proof {
        assert(sorted@.take(i as int) =~= sorted@);
        let p = sorted@;
        lemma_merge_sorted_bounds(p, max_gap as int);
        lemma_merge_sorted_separated(p, max_gap as int);
        lemma_merge_sorted_covers(p, max_gap as int);
        p.to_multiset_ensures();
        given.to_multiset_ensures();
        assert forall|k: int| 0 <= k < given.len() implies held_by(
            merged@,
            #[trigger] given[k],
        ) by {
            assert(given.contains(given[k]));
            assert(given.to_multiset().count(given[k]) > 0);
            assert(p.to_multiset().count(given[k]) > 0);
            assert(p.contains(given[k]));
            let k2 = choose|k2: int| 0 <= k2 < p.len() && p[k2] == given[k];
            assert(held_by(merged@, p[k2]));
        }
        assert forall|j: int| 0 <= j < merged.len() implies starts_at_input(
            given,
            #[trigger] merged@[j],
        ) && ends_at_input(given, merged@[j]) by {
            assert(starts_at_input(p, merged@[j]));
            assert(ends_at_input(p, merged@[j]));
            let a = choose|a: int| 0 <= a < p.len() && p[a].offset == merged@[j].offset;
            let b = choose|b: int| 0 <= b < p.len() && p[b].spec_end() == merged@[j].spec_end();
            assert(p.contains(p[a]) && p.contains(p[b]));
            assert(p.to_multiset().count(p[a]) > 0 && p.to_multiset().count(p[b]) > 0);
            assert(given.to_multiset().count(p[a]) > 0);
            assert(given.to_multiset().count(p[b]) > 0);
            assert(given.contains(p[a]) && given.contains(p[b]));
        }
    }
    merged
}


/// Some range of `s` starts where `x` starts.
pub open spec fn starts_at_input(s: Seq<ByteRange>, x: ByteRange) -> bool {
    exists|a: int| 0 <= a < s.len() && s[a].offset == x.offset
}

/// Some range of `s` ends where `x` ends.
pub open spec fn ends_at_input(s: Seq<ByteRange>, x: ByteRange) -> bool {
    exists|b: int| 0 <= b < s.len() && s[b].spec_end() == x.spec_end()
}

/// Some range of `out` holds all of `x`.
#[verifier::opaque]
pub open spec fn held_by(out: Seq<ByteRange>, x: ByteRange) -> bool {
    exists|j: int| 0 <= j < out.len() && out[j].offset <= x.offset && x.spec_end() <= out[j].spec_end()
}

/// Consecutive ranges of `out` are more than `max_gap` bytes apart.
pub open spec fn separated(out: Seq<ByteRange>, max_gap: int) -> bool {
    forall|i: int| 0 <= i < out.len() - 1 ==> #[trigger] out[i].spec_end() + max_gap < out[i + 1].offset
}

proof fn lemma_sorted_prefix(s: Seq<ByteRange>, max_gap: int)
    requires
        s.len() > 0,
        sorted_by_offset(s),
        ranges_fit(s, max_gap),
    ensures
        sorted_by_offset(s.drop_last()),
        ranges_fit(s.drop_last(), max_gap),
{
    let t = s.drop_last();
    assert forall|i: int, j: int| 0 <= i < j < t.len() implies t[i].offset <= t[j].offset by {
        assert(t[i] == s[i] && t[j] == s[j]);
    }
    assert forall|i: int| 0 <= i < t.len() implies #[trigger] t[i].spec_end() + max_gap
        <= u64::MAX by {
        assert(t[i] == s[i]);
    }
}

/// Merged ranges start and end where input ranges do, and there are no
/// more of them than inputs.
pub proof fn lemma_merge_sorted_bounds(s: Seq<ByteRange>, max_gap: int)
    requires
        sorted_by_offset(s),
        ranges_fit(s, max_gap),
        max_gap >= 0,
    ensures
        merge_sorted(s, max_gap).len() <= s.len(),
        merge_sorted(s, max_gap).len() == 0 <==> s.len() == 0,
        forall|j: int|
            0 <= j < merge_sorted(s, max_gap).len() ==> starts_at_input(
                s,
                #[trigger] merge_sorted(s, max_gap)[j],
            ) && ends_at_input(s, merge_sorted(s, max_gap)[j]),
    decreases s.len(),
{
    if s.len() == 0 {
        lemma_merge_sorted_step(s, max_gap);
        return ;
    }
    let t = s.drop_last();
    let r = s.last();
    lemma_sorted_prefix(s, max_gap);
    lemma_merge_sorted_bounds(t, max_gap);
    let prev = merge_sorted(t, max_gap);
    let out = merge_sorted(s, max_gap);
    lemma_merge_sorted_step(s, max_gap);
    assert(r == s[s.len() - 1]);
    assert(r.spec_end() + max_gap <= u64::MAX);
    assert forall|j: int| 0 <= j < prev.len() implies starts_at_input(s, #[trigger] prev[j])
        && ends_at_input(s, prev[j]) by {
        assert(starts_at_input(t, prev[j]));
        assert(ends_at_input(t, prev[j]));
        let a = choose|a: int| 0 <= a < t.len() && t[a].offset == prev[j].offset;
        let b = choose|b: int| 0 <= b < t.len() && t[b].spec_end() == prev[j].spec_end();
        assert(s[a] == t[a] && s[b] == t[b]);
    }
    assert(starts_at_input(s, r) && ends_at_input(s, r)) by {
        assert(s[s.len() - 1] == r);
    }
    if prev.len() > 0 && r.offset <= prev.last().spec_end() + max_gap {
        let n = prev.len() - 1;
        let last = prev[n];
        assert(starts_at_input(s, last));
        let a = choose|a: int| 0 <= a < s.len() && s[a].offset == last.offset;
        assert(last.offset <= r.offset);
        assert forall|j: int| 0 <= j < out.len() implies starts_at_input(s, #[trigger] out[j])
            && ends_at_input(s, out[j]) by {
            if j == n {
                assert(out[j].offset == last.offset);
                if last.spec_end() >= r.spec_end() {
                    assert(out[j].spec_end() == last.spec_end());
                } else {
                    assert(out[j].spec_end() == r.spec_end());
                }
            } else {
                assert(out[j] == prev[j]);
            }
        }
    } else {
        assert(out == prev.push(r));
        assert forall|j: int| 0 <= j < out.len() implies starts_at_input(s, #[trigger] out[j])
            && ends_at_input(s, out[j]) by {
            if j < prev.len() {
                assert(out[j] == prev[j]);
            }
        }
    }
}

/// Merged ranges are ordered and kept apart by more than `max_gap` bytes.
pub proof fn lemma_merge_sorted_separated(s: Seq<ByteRange>, max_gap: int)
    requires
        sorted_by_offset(s),
        ranges_fit(s, max_gap),
        max_gap >= 0,
    ensures
        separated(merge_sorted(s, max_gap), max_gap),
    decreases s.len(),
{
    if s.len() == 0 {
        lemma_merge_sorted_step(s, max_gap);
        return ;
    }
    let t = s.drop_last();
    let r = s.last();
    lemma_sorted_prefix(s, max_gap);
    lemma_merge_sorted_separated(t, max_gap);
    lemma_merge_sorted_bounds(t, max_gap);
    let prev = merge_sorted(t, max_gap);
    let out = merge_sorted(s, max_gap);
    lemma_merge_sorted_step(s, max_gap);
    assert(r == s[s.len() - 1]);
    assert(r.spec_end() + max_gap <= u64::MAX);
    if prev.len() > 0 && r.offset <= prev.last().spec_end() + max_gap {
        let n = prev.len() - 1;
        let last = prev[n];
        assert(starts_at_input(t, last));
        let a = choose|a: int| 0 <= a < t.len() && t[a].offset == last.offset;
        assert(t[a] == s[a]);
        assert(out[n].offset == last.offset);
        assert forall|i: int| 0 <= i < out.len() - 1 implies #[trigger] out[i].spec_end()
            + max_gap < out[i + 1].offset by {
            assert(out[i] == prev[i]);
            assert(out[i + 1].offset == prev[i + 1].offset);
        }
    } else {
        assert(out == prev.push(r));
        assert forall|i: int| 0 <= i < out.len() - 1 implies #[trigger] out[i].spec_end()
            + max_gap < out[i + 1].offset by {
            assert(out[i] == prev[i]);
            if i + 1 < prev.len() {
                assert(out[i + 1] == prev[i + 1]);
            }
        }
    }
}

proof fn lemma_merge_into_keeps(prev: Seq<ByteRange>, r: ByteRange, max_gap: int, x: ByteRange)
    requires
        held_by(prev, x),
        max_gap >= 0,
        r.spec_end() <= u64::MAX,
        prev.len() > 0 ==> prev.last().spec_end() <= u64::MAX,
    ensures
        held_by(merge_into(prev, r, max_gap), x),
{
    reveal(held_by);
    let out = merge_into(prev, r, max_gap);
    let j = choose|j: int|
        0 <= j < prev.len() && prev[j].offset <= x.offset && x.spec_end() <= prev[j].spec_end();
    if prev.len() > 0 && r.offset <= prev.last().spec_end() + max_gap {
        let n = prev.len() - 1;
        if j == n {
            assert(out[n].offset <= x.offset && x.spec_end() <= out[n].spec_end());
        } else {
            assert(out[j] == prev[j]);
        }
    } else {
        assert(out[j] == prev[j]);
    }
}

proof fn lemma_merge_into_holds_new(prev: Seq<ByteRange>, r: ByteRange, max_gap: int)
    requires
        max_gap >= 0,
        r.spec_end() <= u64::MAX,
        prev.len() > 0 ==> prev.last().spec_end() <= u64::MAX && prev.last().offset <= r.offset,
    ensures
        held_by(merge_into(prev, r, max_gap), r),
{
    reveal(held_by);
    let out = merge_into(prev, r, max_gap);
    if prev.len() > 0 && r.offset <= prev.last().spec_end() + max_gap {
        let n = prev.len() - 1;
        assert(out[n].offset <= r.offset && r.spec_end() <= out[n].spec_end());
    } else {
        assert(out[prev.len() as int] == r);
    }
}

/// Every input range lies inside one of the merged ranges.
#[verifier::spinoff_prover]
pub proof fn lemma_merge_sorted_covers(s: Seq<ByteRange>, max_gap: int)
    requires
        sorted_by_offset(s),
        ranges_fit(s, max_gap),
        max_gap >= 0,
    ensures
        forall|k: int| 0 <= k < s.len() ==> held_by(merge_sorted(s, max_gap), #[trigger] s[k]),
    decreases s.len(),
{
    if s.len() == 0 {
        lemma_merge_sorted_step(s, max_gap);
        return ;
    }
    let t = s.drop_last();
    let r = s.last();
    lemma_sorted_prefix(s, max_gap);
    lemma_merge_sorted_covers(t, max_gap);
    lemma_merge_sorted_bounds(t, max_gap);
    let prev = merge_sorted(t, max_gap);
    lemma_merge_sorted_step(s, max_gap);

    assert(r == s[s.len() - 1]);
    assert(r.spec_end() + max_gap <= u64::MAX);
    if prev.len() > 0 {
        let last = prev[prev.len() - 1];
        assert(starts_at_input(t, last));
        assert(ends_at_input(t, last));
        let a = choose|a: int| 0 <= a < t.len() && t[a].offset == last.offset;
        let b = choose|b: int| 0 <= b < t.len() && t[b].spec_end() == last.spec_end();
        assert(t[a] == s[a] && t[b] == s[b]);
    }
    lemma_merge_into_holds_new(prev, r, max_gap);
    assert forall|k: int| 0 <= k < s.len() implies held_by(
        merge_sorted(s, max_gap),
        #[trigger] s[k],
    ) by {
        if k < s.len() - 1 {
            assert(s[k] == t[k]);
            lemma_merge_into_keeps(prev, r, max_gap, t[k]);
        }
    }
}

/// No two ranges of `s` start at the same byte.
pub open spec fn distinct_offsets(s: Seq<ByteRange>) -> bool {
    forall|i: int, j: int| 0 <= i < j < s.len() ==> #[trigger] s[i].offset != #[trigger] s[j].offset
}

/// A reordering of ranges that fit still fits.
proof fn lemma_fit_reordered(given: Seq<ByteRange>, p: Seq<ByteRange>, max_gap: int)
    requires
        ranges_fit(given, max_gap),
        p.to_multiset() == given.to_multiset(),
    ensures
        ranges_fit(p, max_gap),
{
    p.to_multiset_ensures();
    given.to_multiset_ensures();
    assert forall|i: int| 0 <= i < p.len() implies #[trigger] p[i].spec_end() + max_gap <= u64::MAX by {
        assert(p.contains(p[i]));
        assert(p.to_multiset().count(p[i]) > 0);
        assert(given.to_multiset().count(p[i]) > 0);
        assert(given.contains(p[i]));
        let k = choose|k: int| 0 <= k < given.len() && given[k] == p[i];
        assert(given[k].spec_end() + max_gap <= u64::MAX);
    }
}

/// Ranges kept apart by more than `max_gap` bytes are kept apart from all
/// later ones too: they are ordered, and start at distinct bytes.
proof fn lemma_separated_apart(m: Seq<ByteRange>, max_gap: int)
    requires
        separated(m, max_gap),
        max_gap >= 0,
    ensures
        forall|i: int, j: int| 0 <= i < j < m.len() ==> #[trigger] m[i].spec_end() + max_gap < #[trigger] m[j].offset,
        sorted_by_offset(m),
        distinct_offsets(m),
    decreases m.len(),
{
    if m.len() > 0 {
        let t = m.drop_last();
        assert forall|i: int| 0 <= i < t.len() - 1 implies #[trigger] t[i].spec_end() + max_gap < t[i + 1].offset by {
            assert(t[i] == m[i] && t[i + 1] == m[i + 1]);
            assert(m[i].spec_end() + max_gap < m[i + 1].offset);
        }
        lemma_separated_apart(t, max_gap);
        assert forall|i: int, j: int| 0 <= i < j < m.len() implies #[trigger] m[i].spec_end() + max_gap < #[trigger] m[j].offset by {
            if j < m.len() - 1 {
                assert(t[i] == m[i] && t[j] == m[j]);
            } else if i < j - 1 {
                assert(t[i] == m[i] && t[j - 1] == m[j - 1]);
                assert(t[i].spec_end() + max_gap < t[j - 1].offset);
                assert(m[j - 1].spec_end() + max_gap < m[j].offset);
            } else {
                assert(m[j - 1].spec_end() + max_gap < m[j].offset);
            }
        }
    }
    assert forall|i: int, j: int| 0 <= i < j < m.len() implies m[i].offset < m[j].offset by {
        assert(m[i].spec_end() + max_gap < m[j].offset);
    }
}

/// A reordering of ranges that is ordered by offset is the same as any
/// other that is, once one of them starts its ranges at distinct bytes.
proof fn lemma_sorted_unique(p: Seq<ByteRange>, m: Seq<ByteRange>)
    requires
        sorted_by_offset(p),
        sorted_by_offset(m),
        distinct_offsets(m),
        p.to_multiset() == m.to_multiset(),
    ensures
        p == m,
    decreases m.len(),
{
    p.to_multiset_ensures();
    m.to_multiset_ensures();
    if m.len() == 0 {
        assert(p =~= m);
        return;
    }
    let n = m.len() - 1;
    let a = p.last();
    let b = m.last();
    assert(p.contains(a)) by {
        assert(p[p.len() - 1] == a);
    }
    assert(m.contains(b)) by {
        assert(m[n] == b);
    }
    assert(p.to_multiset().count(a) > 0);
    assert(m.to_multiset().count(a) > 0);
    assert(m.contains(a));
    assert(m.to_multiset().count(b) > 0);
    assert(p.to_multiset().count(b) > 0);
    assert(p.contains(b));
    let k = choose|k: int| 0 <= k < m.len() && m[k] == a;
    let l = choose|l: int| 0 <= l < p.len() && p[l] == b;
    assert(a.offset <= b.offset) by {
        if k < n {
            assert(m[k].offset <= m[n].offset);
        }
    }
    assert(b.offset <= a.offset) by {
        if l < p.len() - 1 {
            assert(p[l].offset <= p[p.len() - 1].offset);
        }
    }
    assert(k == n) by {
        if k < n {
            assert(m[k].offset != m[n].offset);
        }
    }
    assert(a == b);
    let p0 = p.drop_last();
    let m0 = m.drop_last();
    assert(p0.push(a) =~= p);
    assert(m0.push(b) =~= m);
    p0.to_multiset_ensures();
    m0.to_multiset_ensures();
    assert(p0.to_multiset() =~= m0.to_multiset()) by {
        assert forall|x: ByteRange| p0.to_multiset().count(x) == m0.to_multiset().count(x) by {
            assert(p0.push(a).to_multiset().count(x) == m0.push(a).to_multiset().count(x));
        }
    }
    assert forall|i: int, j: int| 0 <= i < j < p0.len() implies p0[i].offset <= p0[j].offset by {
        assert(p0[i] == p[i] && p0[j] == p[j]);
    }
    assert forall|i: int, j: int| 0 <= i < j < m0.len() implies m0[i].offset <= m0[j].offset by {
        assert(m0[i] == m[i] && m0[j] == m[j]);
    }
    assert forall|i: int, j: int| 0 <= i < j < m0.len() implies #[trigger] m0[i].offset != #[trigger] m0[j].offset by {
        assert(m0[i] == m[i] && m0[j] == m[j]);
    }
    lemma_sorted_unique(p0, m0);
}

/// Ranges kept apart by more than `max_gap` bytes merge into themselves.
proof fn lemma_merge_separated(m: Seq<ByteRange>, max_gap: int)
    requires
        separated(m, max_gap),
    ensures
        merge_sorted(m, max_gap) == m,
    decreases m.len(),
{
    lemma_merge_sorted_step(m, max_gap);
    if m.len() > 0 {
        let t = m.drop_last();
        assert forall|i: int| 0 <= i < t.len() - 1 implies #[trigger] t[i].spec_end() + max_gap < t[i + 1].offset by {
            assert(t[i] == m[i] && t[i + 1] == m[i + 1]);
            assert(m[i].spec_end() + max_gap < m[i + 1].offset);
        }
        lemma_merge_separated(t, max_gap);
        if t.len() > 0 {
            assert(t.last() == m[m.len() - 2]);
            assert(m[m.len() - 2].spec_end() + max_gap < m[m.len() - 1].offset);
        }
        assert(t.push(m.last()) =~= m);
    }
}

/// Coalescing what was coalesced changes nothing: where `p` is the input
/// in order of offset and `q` the merged ranges in order of offset (as
/// `coalesce_ranges` sorts them), merging `q` gives the merged ranges
/// again.
pub proof fn lemma_coalesce_twice(given: Seq<ByteRange>, p: Seq<ByteRange>, q: Seq<ByteRange>, max_gap: u64)
    requires
        ranges_fit(given, max_gap as int),
        sorted_by_offset(p),
        p.to_multiset() == given.to_multiset(),
        sorted_by_offset(q),
        q.to_multiset() == merge_sorted(p, max_gap as int).to_multiset(),
    ensures
        merge_sorted(q, max_gap as int) == merge_sorted(p, max_gap as int),
{
    let g = max_gap as int;
    lemma_fit_reordered(given, p, g);
    let m = merge_sorted(p, g);
    lemma_merge_sorted_separated(p, g);
    lemma_separated_apart(m, g);
    lemma_sorted_unique(q, m);
    lemma_merge_separated(m, g);
}

/// The furthest end of the ranges `t`, or 0 for none.
pub open spec fn max_end(t: Seq<ByteRange>) -> int
    decreases t.len(),
{
    if t.len() == 0 {
        0
    } else {
        let m = max_end(t.drop_last());
        if t.last().spec_end() > m {
            t.last().spec_end()
        } else {
            m
        }
    }
}

/// The ranges `acc` with the ranges `t` merged into them one after the
/// other.
pub open spec fn merge_all(acc: Seq<ByteRange>, t: Seq<ByteRange>, max_gap: int) -> Seq<ByteRange>
    decreases t.len(),
{
    if t.len() == 0 {
        acc
    } else {
        merge_into(merge_all(acc, t.drop_last(), max_gap), t.last(), max_gap)
    }
}

/// What merging ranges that all start at `o` and reach at most `m` into
/// `acc` gives.
pub open spec fn merge_group(acc: Seq<ByteRange>, o: u64, m: int, max_gap: int) -> Seq<ByteRange> {
    if acc.len() > 0 && o <= acc.last().spec_end() + max_gap {
        let last = acc.last();
        let end = if last.spec_end() >= m {
            last.spec_end()
        } else {
            m
        };
        acc.update(acc.len() - 1, ByteRange { offset: last.offset, length: (end - last.offset) as u64 })
    } else {
        acc.push(ByteRange { offset: o, length: (m - o) as u64 })
    }
}

proof fn lemma_max_end(t: Seq<ByteRange>)
    ensures
        max_end(t) >= 0,
        forall|k: int| 0 <= k < t.len() ==> #[trigger] t[k].spec_end() <= max_end(t),
        t.len() > 0 ==> exists|k: int| 0 <= k < t.len() && #[trigger] t[k].spec_end() == max_end(t),
    decreases t.len(),
{
    if t.len() > 0 {
        let t0 = t.drop_last();
        lemma_max_end(t0);
        assert forall|k: int| 0 <= k < t.len() implies #[trigger] t[k].spec_end() <= max_end(t) by {
            if k < t.len() - 1 {
                assert(t[k] == t0[k]);
            }
        }
        if t.last().spec_end() > max_end(t0) {
            assert(t[t.len() - 1].spec_end() == max_end(t));
        } else if t0.len() > 0 {
            let k = choose|k: int| 0 <= k < t0.len() && #[trigger] t0[k].spec_end() == max_end(t0);
            assert(t[k] == t0[k]);
        } else {
            assert(t[0].spec_end() >= 0);
            assert(t[0].spec_end() == max_end(t)) by {
                assert(t.len() == 1);
                assert(t.last() == t[0]);
                assert(t[0].spec_end() >= 0);
            }
        }
    }
}

/// Ranges with the same members reach equally far.
proof fn lemma_max_end_same(t: Seq<ByteRange>, u: Seq<ByteRange>)
    requires
        forall|x: ByteRange| t.contains(x) <==> u.contains(x),
    ensures
        max_end(t) == max_end(u),
{
    lemma_max_end(t);
    lemma_max_end(u);
    if t.len() > 0 {
        let k = choose|k: int| 0 <= k < t.len() && #[trigger] t[k].spec_end() == max_end(t);
        assert(t.contains(t[k]));
        assert(u.contains(t[k]));
        let k2 = choose|k2: int| 0 <= k2 < u.len() && u[k2] == t[k];
        assert(u[k2].spec_end() <= max_end(u));
    } else {
        if u.len() > 0 {
            assert(u.contains(u[0]));
            assert(t.contains(u[0]));
        }
    }
    if u.len() > 0 {
        let k = choose|k: int| 0 <= k < u.len() && #[trigger] u[k].spec_end() == max_end(u);
        assert(u.contains(u[k]));
        assert(t.contains(u[k]));
        let k2 = choose|k2: int| 0 <= k2 < t.len() && t[k2] == u[k];
        assert(t[k2].spec_end() <= max_end(t));
    }
}

/// Merging `a` then `b` merges `b` into what `a` merges into.
proof fn lemma_merge_concat(a: Seq<ByteRange>, b: Seq<ByteRange>, max_gap: int)
    ensures
        merge_sorted(a + b, max_gap) == merge_all(merge_sorted(a, max_gap), b, max_gap),
    decreases b.len(),
{
    if b.len() == 0 {
        assert(a + b =~= a);
    } else {
        let c = a + b;
        assert(c.drop_last() =~= a + b.drop_last());
        assert(c.last() == b.last());
        lemma_merge_sorted_step(c, max_gap);
        lemma_merge_concat(a, b.drop_last(), max_gap);
    }
}

/// Merging ranges that all start at `o` depends on how far they reach, not
/// on their order.
proof fn lemma_merge_group(acc: Seq<ByteRange>, t: Seq<ByteRange>, o: u64, max_gap: int)
    requires
        t.len() > 0,
        max_gap >= 0,
        forall|k: int| 0 <= k < t.len() ==> (#[trigger] t[k]).offset == o,
        forall|k: int| 0 <= k < t.len() ==> #[trigger] t[k].spec_end() + max_gap <= u64::MAX,
        acc.len() > 0 ==> acc.last().offset <= o && acc.last().spec_end() <= u64::MAX,
    ensures
        merge_all(acc, t, max_gap) == merge_group(acc, o, max_end(t), max_gap),
    decreases t.len(),
{
    let r = t.last();
    let t0 = t.drop_last();
    assert(r == t[t.len() - 1]);
    lemma_max_end(t);
    lemma_max_end(t0);
    assert(max_end(t) <= u64::MAX) by {
        let k = choose|k: int| 0 <= k < t.len() && #[trigger] t[k].spec_end() == max_end(t);
    }
    if t.len() == 1 {
        assert(t0.len() == 0);
        assert(merge_all(acc, t0, max_gap) == acc);
        assert(max_end(t) == r.spec_end());
    } else {
        assert forall|k: int| 0 <= k < t0.len() implies (#[trigger] t0[k]).offset == o by {
            assert(t0[k] == t[k]);
        }
        assert forall|k: int| 0 <= k < t0.len() implies #[trigger] t0[k].spec_end() + max_gap <= u64::MAX by {
            assert(t0[k] == t[k]);
        }
        lemma_merge_group(acc, t0, o, max_gap);
        let m0 = max_end(t0);
        assert(o <= m0 && m0 <= u64::MAX) by {
            assert(t0[0] == t[0]);
            assert(t0[0].spec_end() <= m0);
            let k = choose|k: int| 0 <= k < t0.len() && #[trigger] t0[k].spec_end() == m0;
            assert(t0[k] == t[k]);
        }
        let g = merge_group(acc, o, m0, max_gap);
        if acc.len() > 0 && o <= acc.last().spec_end() + max_gap {
            let last = acc.last();
            let e0 = if last.spec_end() >= m0 {
                last.spec_end()
            } else {
                m0
            };
            assert(g.last().spec_end() == e0);
            assert(g.last().offset == last.offset);
            assert(g.len() == acc.len());
            assert(merge_into(g, r, max_gap) =~= merge_group(acc, o, max_end(t), max_gap));
        } else {
            assert(g.last().spec_end() == m0);
            assert(merge_into(g, r, max_gap) =~= merge_group(acc, o, max_end(t), max_gap));
        }
    }
}

/// Two orderings by offset of the same ranges merge into the same ranges.
proof fn lemma_merge_order_free(p: Seq<ByteRange>, q: Seq<ByteRange>, max_gap: int)
    requires
        sorted_by_offset(p),
        sorted_by_offset(q),
        p.to_multiset() == q.to_multiset(),
        ranges_fit(p, max_gap),
        max_gap >= 0,
    ensures
        merge_sorted(p, max_gap) == merge_sorted(q, max_gap),
    decreases p.len(),
{
    p.to_multiset_ensures();
    q.to_multiset_ensures();
    lemma_fit_reordered(p, q, max_gap);
    if p.len() == 0 {
        assert(q.len() == 0);
        assert(p =~= q);
        return;
    }
    let n = p.len() - 1;
    let x = p[n];
    let o = x.offset;
    assert(p.contains(x));
    assert(p.to_multiset().count(x) > 0);
    assert(q.to_multiset().count(x) > 0);
    assert(q.contains(x));
    let j = choose|j: int| 0 <= j < q.len() && q[j] == x;
    let y = q.last();
    assert(q.contains(y)) by {
        assert(q[q.len() - 1] == y);
    }
    assert(q.to_multiset().count(y) > 0);
    assert(p.to_multiset().count(y) > 0);
    assert(p.contains(y));
    let ky = choose|k: int| 0 <= k < p.len() && p[k] == y;
    assert(y.offset <= o) by {
        if ky < n {
            assert(p[ky].offset <= p[n].offset);
        }
    }
    assert(o <= y.offset) by {
        if j < q.len() - 1 {
            assert(q[j].offset <= q[q.len() - 1].offset);
        }
    }
    // the ranges of `q` from `j` on all start at `o`
    let a = q.subrange(0, j);
    let tt = q.subrange(j, q.len() as int);
    assert(q =~= a + tt);
    assert forall|k: int| 0 <= k < tt.len() implies (#[trigger] tt[k]).offset == o by {
        assert(tt[k] == q[j + k]);
        if j + k < q.len() - 1 {
            assert(q[j].offset <= q[j + k].offset);
            assert(q[j + k].offset <= q[q.len() - 1].offset);
        }
    }
    let t2 = tt.drop_first().push(x);
    assert(tt[0] == x);
    assert forall|z: ByteRange| tt.contains(z) <==> t2.contains(z) by {
        if tt.contains(z) {
            let k = choose|k: int| 0 <= k < tt.len() && tt[k] == z;
            if k == 0 {
                assert(t2[t2.len() - 1] == z);
            } else {
                assert(t2[k - 1] == z);
            }
        }
        if t2.contains(z) {
            let k = choose|k: int| 0 <= k < t2.len() && t2[k] == z;
            if k == t2.len() - 1 {
                assert(tt[0] == z);
            } else {
                assert(tt[k + 1] == z);
            }
        }
    }
    lemma_max_end_same(tt, t2);
    assert forall|k: int| 0 <= k < t2.len() implies (#[trigger] t2[k]).offset == o by {
        if k < t2.len() - 1 {
            assert(t2[k] == tt[k + 1]);
        }
    }
    assert forall|k: int| 0 <= k < tt.len() implies #[trigger] tt[k].spec_end() + max_gap <= u64::MAX by {
        assert(tt[k] == q[j + k]);
    }
    assert forall|k: int| 0 <= k < t2.len() implies #[trigger] t2[k].spec_end() + max_gap <= u64::MAX by {
        if k < t2.len() - 1 {
            assert(t2[k] == tt[k + 1]);
        } else {
            assert(t2[k] == x);
            assert(p[n].spec_end() + max_gap <= u64::MAX);
        }
    }
    // what comes before the ranges that start at `o`
    assert forall|i: int, k: int| 0 <= i < k < a.len() implies a[i].offset <= a[k].offset by {
        assert(a[i] == q[i] && a[k] == q[k]);
    }
    assert forall|i: int| 0 <= i < a.len() implies #[trigger] a[i].spec_end() + max_gap <= u64::MAX by {
        assert(a[i] == q[i]);
    }
    let acc = merge_sorted(a, max_gap);
    lemma_merge_sorted_bounds(a, max_gap);
    if acc.len() > 0 {
        let last = acc[acc.len() - 1];
        assert(starts_at_input(a, last));
        assert(ends_at_input(a, last));
        let ka = choose|ka: int| 0 <= ka < a.len() && a[ka].offset == last.offset;
        let kb = choose|kb: int| 0 <= kb < a.len() && a[kb].spec_end() == last.spec_end();
        assert(a[ka] == q[ka]);
        assert(q[ka].offset <= q[j].offset);
        assert(a[kb].spec_end() + max_gap <= u64::MAX);
    }
    lemma_merge_concat(a, tt, max_gap);
    lemma_merge_concat(a, t2, max_gap);
    lemma_merge_group(acc, tt, o, max_gap);
    lemma_merge_group(acc, t2, o, max_gap);
    let q2 = a + t2;
    assert(merge_sorted(q, max_gap) == merge_sorted(q2, max_gap));
    // both end with `x`; what comes before holds the same ranges
    let p0 = p.drop_last();
    let q0 = q.remove(j);
    q.remove_ensures(j);
    assert(q2.drop_last() =~= q0) by {
        assert forall|k: int| 0 <= k < q0.len() implies #[trigger] q2.drop_last()[k] == q0[k] by {
            if k < j {
                assert(q2[k] == a[k]);
            } else {
                assert(q2[k] == t2[k - j]);
                assert(t2[k - j] == tt[k - j + 1]);
            }
        }
    }
    assert(q2.last() == x);
    assert(p0.push(x) =~= p);
    p0.to_multiset_ensures();
    q0.to_multiset_ensures();
    assert(p0.to_multiset() =~= q0.to_multiset()) by {
        assert(q0.to_multiset() =~= q.to_multiset().remove(x));
        assert(p.to_multiset() =~= p0.to_multiset().insert(x));
        assert forall|z: ByteRange| p0.to_multiset().count(z) == q0.to_multiset().count(z) by {
            assert(p.to_multiset().count(z) == p0.to_multiset().insert(x).count(z));
            assert(q0.to_multiset().count(z) == q.to_multiset().remove(x).count(z));
        }
    }
    assert forall|i: int, k: int| 0 <= i < k < p0.len() implies p0[i].offset <= p0[k].offset by {
        assert(p0[i] == p[i] && p0[k] == p[k]);
    }
    assert forall|i: int, k: int| 0 <= i < k < q0.len() implies q0[i].offset <= q0[k].offset by {
        if k < j {
            assert(q0[i] == q[i] && q0[k] == q[k]);
        } else if i < j {
            assert(q0[i] == q[i] && q0[k] == q[k + 1]);
        } else {
            assert(q0[i] == q[i + 1] && q0[k] == q[k + 1]);
        }
    }
    assert forall|i: int| 0 <= i < p0.len() implies #[trigger] p0[i].spec_end() + max_gap <= u64::MAX by {
        assert(p0[i] == p[i]);
    }
    lemma_merge_order_free(p0, q0, max_gap);
    lemma_merge_sorted_step(p, max_gap);
    lemma_merge_sorted_step(q2, max_gap);
}

/// The order of the input does not matter: two inputs with the same
/// ranges, each sorted by offset (as `coalesce_ranges` sorts its input),
/// merge into the same ranges.
pub proof fn lemma_coalesce_order_free(
    given: Seq<ByteRange>,
    other: Seq<ByteRange>,
    p: Seq<ByteRange>,
    q: Seq<ByteRange>,
    max_gap: u64,
)
    requires
        ranges_fit(given, max_gap as int),
        other.to_multiset() == given.to_multiset(),
        sorted_by_offset(p),
        p.to_multiset() == given.to_multiset(),
        sorted_by_offset(q),
        q.to_multiset() == other.to_multiset(),
    ensures
        merge_sorted(q, max_gap as int) == merge_sorted(p, max_gap as int),
{
    lemma_fit_reordered(given, p, max_gap as int);
    lemma_merge_order_free(p, q, max_gap as int);
}

} // verus!
