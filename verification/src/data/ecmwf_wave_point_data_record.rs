//! Grouping of ECMWF point samples into records: one group per forecast
//! member and valid time, ordered by member then time, holding the last
//! samples of each field.

use vstd::prelude::*;

use crate::data::ecmwf_field::{ECMWFField, ForecastMember};
use crate::data::parseable_data_record::DataRecordParsingError;
use crate::text::{push_char, push_decimal, push_str, push_zero_padded, zero_padded, decimal};
use crate::time::{year_text, UtcDateTime};

verus! {

/// The fields that make up a point record.
#[derive(Clone, Copy, Debug, PartialEq, Eq, PartialOrd, Ord)]
pub enum FieldKey {
    SignificantHeight,
    MeanDirection,
    EnergyPeriod,
    ZeroCrossingPeriod,
    PeakPeriod,
    PeriodBand(u8, u8),
    WindU,
    WindV,
}

impl FieldKey {
    pub open spec fn spec_from_field(field: ECMWFField) -> Option<FieldKey> {
        match field {
            ECMWFField::SignificantHeight => Some(FieldKey::SignificantHeight),
            ECMWFField::MeanDirection => Some(FieldKey::MeanDirection),
            ECMWFField::EnergyPeriod => Some(FieldKey::EnergyPeriod),
            ECMWFField::ZeroCrossingPeriod => Some(FieldKey::ZeroCrossingPeriod),
            ECMWFField::PeakPeriod => Some(FieldKey::PeakPeriod),
            ECMWFField::PeriodBandHeight { min_period, max_period } => Some(
                FieldKey::PeriodBand(min_period, max_period),
            ),
            ECMWFField::WindU => Some(FieldKey::WindU),
            ECMWFField::WindV => Some(FieldKey::WindV),
            _ => None,
        }
    }

    /// The record field a message of `field` fills, or None for fields that
    /// point records do not hold.
    pub fn from_field(field: &ECMWFField) -> (key: Option<FieldKey>)
        ensures
            key == Self::spec_from_field(*field),
    {
        match field {
            ECMWFField::SignificantHeight => Some(FieldKey::SignificantHeight),
            ECMWFField::MeanDirection => Some(FieldKey::MeanDirection),
            ECMWFField::EnergyPeriod => Some(FieldKey::EnergyPeriod),
            ECMWFField::ZeroCrossingPeriod => Some(FieldKey::ZeroCrossingPeriod),
            ECMWFField::PeakPeriod => Some(FieldKey::PeakPeriod),
            ECMWFField::PeriodBandHeight { min_period, max_period } => Some(
                FieldKey::PeriodBand(*min_period, *max_period),
            ),
            ECMWFField::WindU => Some(FieldKey::WindU),
            ECMWFField::WindV => Some(FieldKey::WindV),
            _ => None,
        }
    }
}

} // verus!

verus! {

/// The samples of one decoded message at each location, with what the
/// message says of itself.
pub struct FieldSample<T> {
    pub member: ForecastMember,
    pub reference_date: UtcDateTime,
    pub valid_date: UtcDateTime,
    pub field: ECMWFField,
    pub samples: T,
}

/// The samples of one forecast member at one valid time, by field.
pub struct SampleGroup<T> {
    pub member: ForecastMember,
    pub date: UtcDateTime,
    /// The reference time of the first message of the group.
    pub reference_date: UtcDateTime,
    /// One entry per field, in the order of the fields, each with the
    /// samples of the last message of that field.
    pub fields: Vec<(FieldKey, T)>,
}

/// Members in their order: deterministic, control, then the perturbed
/// members by number.
pub open spec fn member_before(a: ForecastMember, b: ForecastMember) -> bool {
    match (a, b) {
        (ForecastMember::Deterministic, ForecastMember::Deterministic) => false,
        (ForecastMember::Deterministic, _) => true,
        (ForecastMember::Control, ForecastMember::Perturbed(_)) => true,
        (ForecastMember::Perturbed(x), ForecastMember::Perturbed(y)) => x < y,
        _ => false,
    }
}

/// Times in their order: by year, month, day, hour, minute and second.
pub open spec fn date_before(a: UtcDateTime, b: UtcDateTime) -> bool {
    ||| a.year < b.year
    ||| a.year == b.year && a.month < b.month
    ||| a.year == b.year && a.month == b.month && a.day < b.day
    ||| a.year == b.year && a.month == b.month && a.day == b.day && a.hour < b.hour
    ||| a.year == b.year && a.month == b.month && a.day == b.day && a.hour == b.hour
        && a.minute < b.minute
    ||| a.year == b.year && a.month == b.month && a.day == b.day && a.hour == b.hour
        && a.minute == b.minute && a.second < b.second
}

/// Groups in their order: by member, then by valid time.
pub open spec fn group_before(m1: ForecastMember, d1: UtcDateTime, m2: ForecastMember, d2: UtcDateTime) -> bool {
    member_before(m1, m2) || (m1 == m2 && date_before(d1, d2))
}

/// The position of a field in the order of fields.
pub open spec fn key_rank(k: FieldKey) -> (int, int, int) {
    match k {
        FieldKey::SignificantHeight => (0, 0, 0),
        FieldKey::MeanDirection => (1, 0, 0),
        FieldKey::EnergyPeriod => (2, 0, 0),
        FieldKey::ZeroCrossingPeriod => (3, 0, 0),
        FieldKey::PeakPeriod => (4, 0, 0),
        FieldKey::PeriodBand(lo, hi) => (5, lo as int, hi as int),
        FieldKey::WindU => (6, 0, 0),
        FieldKey::WindV => (7, 0, 0),
    }
}

/// Fields in their order, as they are declared, period bands by their
/// periods.
pub open spec fn key_before(a: FieldKey, b: FieldKey) -> bool {
    let (a0, a1, a2) = key_rank(a);
    let (b0, b1, b2) = key_rank(b);
    a0 < b0 || (a0 == b0 && a1 < b1) || (a0 == b0 && a1 == b1 && a2 < b2)
}

/// The field that a sample fills, if any.
pub open spec fn sample_key<T>(x: FieldSample<T>) -> Option<FieldKey> {
    FieldKey::spec_from_field(x.field)
}

/// `x` fills a field of member `m` at valid time `d`.
pub open spec fn in_group<T>(x: FieldSample<T>, m: ForecastMember, d: UtcDateTime) -> bool {
    x.member == m && x.valid_date == d && sample_key(x) is Some
}

/// The first message of member `m` at valid time `d`.
pub open spec fn first_in_group<T>(p: Seq<FieldSample<T>>, m: ForecastMember, d: UtcDateTime) -> Option<int>
    decreases p.len(),
{
    if p.len() == 0 {
        None
    } else {
        match first_in_group(p.drop_last(), m, d) {
            Some(j) => Some(j),
            None => if in_group(p.last(), m, d) {
                Some(p.len() - 1)
            } else {
                None
            },
        }
    }
}

/// The last message of field `k` of member `m` at valid time `d`.
pub open spec fn last_of_field<T>(p: Seq<FieldSample<T>>, m: ForecastMember, d: UtcDateTime, k: FieldKey) -> Option<int>
    decreases p.len(),
{
    if p.len() == 0 {
        None
    } else if in_group(p.last(), m, d) && sample_key(p.last()) == Some(k) {
        Some(p.len() - 1)
    } else {
        last_of_field(p.drop_last(), m, d, k)
    }
}

/// Fields strictly in their order.
pub open spec fn fields_sorted<T>(f: Seq<(FieldKey, T)>) -> bool {
    forall|i: int, j: int| 0 <= i < j < f.len() ==> key_before(#[trigger] f[i].0, #[trigger] f[j].0)
}

/// `g` is the group that the messages `p` give for its member and time.
pub open spec fn group_is<T>(g: SampleGroup<T>, p: Seq<FieldSample<T>>) -> bool {
    &&& first_in_group(p, g.member, g.date) matches Some(j) && p[j].reference_date == g.reference_date
    &&& fields_sorted(g.fields@)
    &&& forall|i: int| 0 <= i < g.fields@.len() ==> (last_of_field(p, g.member, g.date, #[trigger] g.fields@[i].0) matches Some(j)
        && p[j].samples == g.fields@[i].1)
    &&& forall|j: int| 0 <= j < p.len() && #[trigger] in_group(p[j], g.member, g.date) ==> exists|i: int|
        0 <= i < g.fields@.len() && Some(#[trigger] g.fields@[i].0) == sample_key(p[j])
}

/// `gs` are the groups that the messages `p` give, in order.
pub open spec fn groups_are<T>(gs: Seq<SampleGroup<T>>, p: Seq<FieldSample<T>>) -> bool {
    &&& forall|i: int, j: int| 0 <= i < j < gs.len() ==> group_before(
        #[trigger] gs[i].member,
        gs[i].date,
        #[trigger] gs[j].member,
        gs[j].date,
    )
    &&& forall|i: int| 0 <= i < gs.len() ==> group_is(#[trigger] gs[i], p)
    &&& forall|j: int| 0 <= j < p.len() && (#[trigger] sample_key(p[j])) is Some ==> exists|i: int|
        0 <= i < gs.len() && gs[i].member == p[j].member && #[trigger] gs[i].date == p[j].valid_date
}

/// The messages `p` hold a significant height for member `m` at time `d`.
pub open spec fn has_height<T>(p: Seq<FieldSample<T>>, m: ForecastMember, d: UtcDateTime) -> bool {
    last_of_field(p, m, d, FieldKey::SignificantHeight) is Some
}

/// How a member is debug-printed.
pub open spec fn member_text(m: ForecastMember) -> Seq<char> {
    match m {
        ForecastMember::Deterministic => "Deterministic"@,
        ForecastMember::Control => "Control"@,
        ForecastMember::Perturbed(n) => "Perturbed("@ + decimal(n as nat) + ")"@,
    }
}

/// How a UTC time is displayed: `%Y-%m-%d %H:%M:%S UTC`.
pub open spec fn date_text(d: UtcDateTime) -> Seq<char> {
    year_text(d.year as int) + seq!['-'] + zero_padded(d.month as nat, 2) + seq!['-'] + zero_padded(
        d.day as nat,
        2,
    ) + seq![' '] + zero_padded(d.hour as nat, 2) + seq![':'] + zero_padded(d.minute as nat, 2)
        + seq![':'] + zero_padded(d.second as nat, 2) + " UTC"@
}

/// The message of the error for a group without significant height.
pub open spec fn missing_height_message(m: ForecastMember, d: UtcDateTime) -> Seq<char> {
    "swh for "@ + member_text(m) + " at "@ + date_text(d)
}

/// `e` is the error for a group without significant height.
pub open spec fn is_missing_height(e: DataRecordParsingError, m: ForecastMember, d: UtcDateTime) -> bool {
    e matches DataRecordParsingError::KeyMissing(msg) && msg@ == missing_height_message(m, d)
}

/// What grouping the messages `p` gives: the groups, each with a
/// significant height; or the error for the first group in order that
/// has none.
pub open spec fn grouping_is<T>(r: Result<Vec<SampleGroup<T>>, DataRecordParsingError>, p: Seq<FieldSample<T>>) -> bool {
    match r {
        Ok(gs) => {
            &&& groups_are(gs@, p)
            &&& forall|i: int| 0 <= i < gs@.len() ==> has_height(p, #[trigger] gs@[i].member, gs@[i].date)
        },
        Err(e) => exists|j: int|
            0 <= j < p.len() && (#[trigger] sample_key(p[j])) is Some && !has_height(p, p[j].member, p[j].valid_date)
                && is_missing_height(e, p[j].member, p[j].valid_date) && (forall|k: int|
                0 <= k < p.len() && (#[trigger] sample_key(p[k])) is Some && group_before(
                    p[k].member,
                    p[k].valid_date,
                    p[j].member,
                    p[j].valid_date,
                ) ==> has_height(p, p[k].member, p[k].valid_date)),
    }
}

proof fn lemma_member_order(a: ForecastMember, b: ForecastMember, c: ForecastMember)
    ensures
        !member_before(a, a),
        a != b ==> (member_before(a, b) || member_before(b, a)),
        member_before(a, b) ==> !member_before(b, a),
        member_before(a, b) && member_before(b, c) ==> member_before(a, c),
{
}

proof fn lemma_date_order(a: UtcDateTime, b: UtcDateTime, c: UtcDateTime)
    ensures
        !date_before(a, a),
        a != b ==> (date_before(a, b) || date_before(b, a)),
        date_before(a, b) ==> !date_before(b, a),
        date_before(a, b) && date_before(b, c) ==> date_before(a, c),
{
}

proof fn lemma_group_order(
    m1: ForecastMember,
    d1: UtcDateTime,
    m2: ForecastMember,
    d2: UtcDateTime,
    m3: ForecastMember,
    d3: UtcDateTime,
)
    ensures
        !group_before(m1, d1, m1, d1),
        !(m1 == m2 && d1 == d2) ==> (group_before(m1, d1, m2, d2) || group_before(m2, d2, m1, d1)),
        group_before(m1, d1, m2, d2) ==> !group_before(m2, d2, m1, d1),
        group_before(m1, d1, m2, d2) && group_before(m2, d2, m3, d3) ==> group_before(m1, d1, m3, d3),
{
    lemma_member_order(m1, m2, m3);
    lemma_member_order(m2, m1, m3);
    lemma_date_order(d1, d2, d3);
    lemma_date_order(d2, d1, d3);
}

proof fn lemma_key_order(a: FieldKey, b: FieldKey, c: FieldKey)
    ensures
        !key_before(a, a),
        a != b ==> (key_before(a, b) || key_before(b, a)),
        key_before(a, b) ==> !key_before(b, a),
        key_before(a, b) && key_before(b, c) ==> key_before(a, c),
{
}

/// Where the first and last messages of a group lie.
proof fn lemma_found_in_group<T>(p: Seq<FieldSample<T>>, m: ForecastMember, d: UtcDateTime, k: FieldKey)
    ensures
        first_in_group(p, m, d) matches Some(j) ==> 0 <= j < p.len() && in_group(p[j], m, d),
        first_in_group(p, m, d) is None ==> forall|j: int| 0 <= j < p.len() ==> !in_group(#[trigger] p[j], m, d),
        last_of_field(p, m, d, k) matches Some(j) ==> 0 <= j < p.len() && in_group(p[j], m, d)
            && sample_key(p[j]) == Some(k),
        last_of_field(p, m, d, k) is None ==> forall|j: int|
            0 <= j < p.len() && #[trigger] in_group(p[j], m, d) ==> sample_key(p[j]) != Some(k),
    decreases p.len(),
{
    if p.len() > 0 {
        lemma_found_in_group(p.drop_last(), m, d, k);
        assert forall|j: int| 0 <= j < p.len() - 1 implies #[trigger] p.drop_last()[j] == p[j] by {}
        if first_in_group(p, m, d) is None {
            assert forall|j: int| 0 <= j < p.len() implies !in_group(#[trigger] p[j], m, d) by {
                if j < p.len() - 1 {
                    assert(p.drop_last()[j] == p[j]);
                }
            }
        }
        if last_of_field(p, m, d, k) is None {
            assert forall|j: int| 0 <= j < p.len() && #[trigger] in_group(p[j], m, d) implies sample_key(p[j]) != Some(k) by {
                if j < p.len() - 1 {
                    assert(p.drop_last()[j] == p[j]);
                }
            }
        }
    }
}

/// What one more message changes of the first and last messages.
proof fn lemma_push_message<T>(p: Seq<FieldSample<T>>, x: FieldSample<T>, m: ForecastMember, d: UtcDateTime, k: FieldKey)
    ensures
        first_in_group(p.push(x), m, d) == (match first_in_group(p, m, d) {
            Some(j) => Some(j),
            None => if in_group(x, m, d) {
                Some(p.len() as int)
            } else {
                None
            },
        }),
        last_of_field(p.push(x), m, d, k) == (if in_group(x, m, d) && sample_key(x) == Some(k) {
            Some(p.len() as int)
        } else {
            last_of_field(p, m, d, k)
        }),
{
    assert(p.push(x).drop_last() =~= p);
}

/// A group of other messages than `x` stays what it was.
proof fn lemma_group_unchanged<T>(g: SampleGroup<T>, p: Seq<FieldSample<T>>, x: FieldSample<T>)
    requires
        group_is(g, p),
        !in_group(x, g.member, g.date),
    ensures
        group_is(g, p.push(x)),
{
    let q = p.push(x);
    lemma_push_message(p, x, g.member, g.date, FieldKey::SignificantHeight);
    let j0 = first_in_group(p, g.member, g.date)->0;
    lemma_found_in_group(p, g.member, g.date, FieldKey::SignificantHeight);
    assert(q[j0] == p[j0]);
    assert forall|i: int| 0 <= i < g.fields@.len() implies (last_of_field(q, g.member, g.date, #[trigger] g.fields@[i].0) matches Some(j)
        && q[j].samples == g.fields@[i].1) by {
        let k = g.fields@[i].0;
        lemma_push_message(p, x, g.member, g.date, k);
        lemma_found_in_group(p, g.member, g.date, k);
        let j = last_of_field(p, g.member, g.date, k)->0;
        assert(q[j] == p[j]);
    }
    assert forall|j: int| 0 <= j < q.len() && #[trigger] in_group(q[j], g.member, g.date) implies exists|i: int|
        0 <= i < g.fields@.len() && Some(#[trigger] g.fields@[i].0) == sample_key(q[j]) by {
        assert(j < p.len());
        assert(q[j] == p[j]);
        assert(in_group(p[j], g.member, g.date));
    }
}


fn member_less(a: &ForecastMember, b: &ForecastMember) -> (r: bool)
    ensures
        r == member_before(*a, *b),
{
    match (a, b) {
        (ForecastMember::Deterministic, ForecastMember::Deterministic) => false,
        (ForecastMember::Deterministic, _) => true,
        (ForecastMember::Control, ForecastMember::Perturbed(_)) => true,
        (ForecastMember::Perturbed(x), ForecastMember::Perturbed(y)) => *x < *y,
        _ => false,
    }
}

fn member_same(a: &ForecastMember, b: &ForecastMember) -> (r: bool)
    ensures
        r == (*a == *b),
{
    match (a, b) {
        (ForecastMember::Deterministic, ForecastMember::Deterministic) => true,
        (ForecastMember::Control, ForecastMember::Control) => true,
        (ForecastMember::Perturbed(x), ForecastMember::Perturbed(y)) => *x == *y,
        _ => false,
    }
}

fn date_less(a: &UtcDateTime, b: &UtcDateTime) -> (r: bool)
    ensures
        r == date_before(*a, *b),
{
    if a.year != b.year {
        a.year < b.year
    } else if a.month != b.month {
        a.month < b.month
    } else if a.day != b.day {
        a.day < b.day
    } else if a.hour != b.hour {
        a.hour < b.hour
    } else if a.minute != b.minute {
        a.minute < b.minute
    } else {
        a.second < b.second
    }
}

fn date_same(a: &UtcDateTime, b: &UtcDateTime) -> (r: bool)
    ensures
        r == (*a == *b),
{
    a.year == b.year && a.month == b.month && a.day == b.day && a.hour == b.hour && a.minute
        == b.minute && a.second == b.second
}

fn group_less(m1: &ForecastMember, d1: &UtcDateTime, m2: &ForecastMember, d2: &UtcDateTime) -> (r: bool)
    ensures
        r == group_before(*m1, *d1, *m2, *d2),
{
    member_less(m1, m2) || (member_same(m1, m2) && date_less(d1, d2))
}

fn key_position(k: &FieldKey) -> (r: (u8, u8, u8))
    ensures
        r.0 as int == key_rank(*k).0,
        r.1 as int == key_rank(*k).1,
        r.2 as int == key_rank(*k).2,
{
    match k {
        FieldKey::SignificantHeight => (0, 0, 0),
        FieldKey::MeanDirection => (1, 0, 0),
        FieldKey::EnergyPeriod => (2, 0, 0),
        FieldKey::ZeroCrossingPeriod => (3, 0, 0),
        FieldKey::PeakPeriod => (4, 0, 0),
        FieldKey::PeriodBand(lo, hi) => (5, *lo, *hi),
        FieldKey::WindU => (6, 0, 0),
        FieldKey::WindV => (7, 0, 0),
    }
}

fn key_less(a: &FieldKey, b: &FieldKey) -> (r: bool)
    ensures
        r == key_before(*a, *b),
{
    let (a0, a1, a2) = key_position(a);
    let (b0, b1, b2) = key_position(b);
    a0 < b0 || (a0 == b0 && a1 < b1) || (a0 == b0 && a1 == b1 && a2 < b2)
}

fn key_same(a: &FieldKey, b: &FieldKey) -> (r: bool)
    ensures
        r == (*a == *b),
{
    proof {
        lemma_key_order(*a, *b, *b);
    }
    !key_less(a, b) && !key_less(b, a)
}

/// Each entry of `f1` of another field than `key` is one of `f0`.
#[verifier::opaque]
pub open spec fn entries_from<T>(f1: Seq<(FieldKey, T)>, f0: Seq<(FieldKey, T)>, key: FieldKey) -> bool {
    forall|i: int| 0 <= i < f1.len() && (#[trigger] f1[i]).0 != key ==> exists|j: int|
        0 <= j < f0.len() && #[trigger] f0[j] == f1[i]
}

/// Each entry of `f0` of another field than `key` is kept in `f1`.
#[verifier::opaque]
pub open spec fn entries_kept<T>(f0: Seq<(FieldKey, T)>, f1: Seq<(FieldKey, T)>, key: FieldKey) -> bool {
    forall|j: int| 0 <= j < f0.len() && (#[trigger] f0[j]).0 != key ==> exists|i: int|
        0 <= i < f1.len() && #[trigger] f1[i] == f0[j]
}

/// `f1` is `f0` with the samples of field `key` put in place of any that
/// were there for that field, in the order of fields.
pub open spec fn field_put<T>(f0: Seq<(FieldKey, T)>, f1: Seq<(FieldKey, T)>, key: FieldKey, payload: T) -> bool {
    &&& fields_sorted(f1)
    &&& exists|i: int| 0 <= i < f1.len() && #[trigger] f1[i].0 == key
    &&& forall|i: int| 0 <= i < f1.len() && #[trigger] f1[i].0 == key ==> f1[i].1 == payload
    &&& entries_from(f1, f0, key)
    &&& entries_kept(f0, f1, key)
}

proof fn lemma_replace_field<T>(f0: Seq<(FieldKey, T)>, pos: int, key: FieldKey, payload: T)
    requires
        fields_sorted(f0),
        0 <= pos < f0.len(),
        f0[pos].0 == key,
    ensures
        field_put(f0, f0.update(pos, (key, payload)), key, payload),
{
    let f1 = f0.update(pos, (key, payload));
    assert forall|i: int, j: int| 0 <= i < j < f1.len() implies key_before(#[trigger] f1[i].0, #[trigger] f1[j].0) by {
        assert(key_before(f0[i].0, f0[j].0));
    }
    assert(f1[pos].0 == key);
    assert forall|i: int| 0 <= i < f1.len() && #[trigger] f1[i].0 == key implies f1[i].1 == payload by {
        if i != pos {
            lemma_key_order(key, key, key);
            if i < pos {
                assert(key_before(f0[i].0, f0[pos].0));
            } else {
                assert(key_before(f0[pos].0, f0[i].0));
            }
        }
    }
    assert(entries_from(f1, f0, key)) by {
        reveal(entries_from);
        assert forall|i: int| 0 <= i < f1.len() && (#[trigger] f1[i]).0 != key implies exists|j: int|
            0 <= j < f0.len() && #[trigger] f0[j] == f1[i] by {
            assert(f0[i] == f1[i]);
        }
    }
    assert(entries_kept(f0, f1, key)) by {
        reveal(entries_kept);
        assert forall|j: int| 0 <= j < f0.len() && (#[trigger] f0[j]).0 != key implies exists|i: int|
            0 <= i < f1.len() && #[trigger] f1[i] == f0[j] by {
            assert(f1[j] == f0[j]);
        }
    }
}

proof fn lemma_insert_field<T>(f0: Seq<(FieldKey, T)>, pos: int, key: FieldKey, payload: T)
    requires
        fields_sorted(f0),
        0 <= pos <= f0.len(),
        forall|i: int| 0 <= i < pos ==> key_before(#[trigger] f0[i].0, key),
        pos < f0.len() ==> key_before(key, f0[pos].0),
    ensures
        field_put(f0, f0.insert(pos, (key, payload)), key, payload),
{
    let f1 = f0.insert(pos, (key, payload));
    f0.insert_ensures(pos, (key, payload));
    assert forall|i: int| pos <= i < f0.len() implies key_before(key, #[trigger] f0[i].0) by {
        if i > pos {
            assert(key_before(f0[pos].0, f0[i].0));
            lemma_key_order(key, f0[pos].0, f0[i].0);
        }
    }
    assert forall|i: int, j: int| 0 <= i < j < f1.len() implies key_before(#[trigger] f1[i].0, #[trigger] f1[j].0) by {
        if j < pos {
            assert(key_before(f0[i].0, f0[j].0));
        } else if j == pos {
        } else if i < pos {
            assert(f1[j] == f0[j - 1]);
            assert(key_before(f0[i].0, key));
            lemma_key_order(f0[i].0, key, f0[j - 1].0);
        } else if i == pos {
            assert(f1[j] == f0[j - 1]);
        } else {
            assert(f1[i] == f0[i - 1]);
            assert(f1[j] == f0[j - 1]);
            assert(key_before(f0[i - 1].0, f0[j - 1].0));
        }
    }
    assert(f1[pos].0 == key);
    assert forall|i: int| 0 <= i < f1.len() && #[trigger] f1[i].0 == key implies f1[i].1 == payload by {
        lemma_key_order(key, key, key);
        if i < pos {
            assert(key_before(f0[i].0, key));
        } else if i > pos {
            assert(f1[i] == f0[i - 1]);
            assert(key_before(key, f0[i - 1].0));
        }
    }
    assert(entries_from(f1, f0, key)) by {
        reveal(entries_from);
        assert forall|i: int| 0 <= i < f1.len() && (#[trigger] f1[i]).0 != key implies exists|j: int|
            0 <= j < f0.len() && #[trigger] f0[j] == f1[i] by {
            if i < pos {
                assert(f0[i] == f1[i]);
            } else {
                assert(i != pos);
                assert(f0[i - 1] == f1[i]);
            }
        }
    }
    assert(entries_kept(f0, f1, key)) by {
        reveal(entries_kept);
        assert forall|j: int| 0 <= j < f0.len() && (#[trigger] f0[j]).0 != key implies exists|i: int|
            0 <= i < f1.len() && #[trigger] f1[i] == f0[j] by {
            if j < pos {
                assert(f1[j] == f0[j]);
            } else {
                assert(f1[j + 1] == f0[j]);
            }
        }
    }
}

/// Puts the samples of field `key` in `fields`, in place of any that were
/// there for that field.
fn put_field<T>(fields: &mut Vec<(FieldKey, T)>, key: FieldKey, payload: T)
    requires
        fields_sorted(old(fields)@),
    ensures
        field_put(old(fields)@, final(fields)@, key, payload),
{
    let ghost f0 = fields@;
    let mut pos: usize = 0;
    while pos < fields.len()
        invariant
            pos <= fields.len(),
            fields@ == f0,
            forall|i: int| 0 <= i < pos ==> key_before(#[trigger] f0[i].0, key),
        ensures
            pos <= fields.len(),
            fields@ == f0,
            forall|i: int| 0 <= i < pos ==> key_before(#[trigger] f0[i].0, key),
            pos < fields.len() ==> !key_before(f0[pos as int].0, key),
        decreases fields.len() - pos,
    {
        if !key_less(&fields[pos].0, &key) {
            break;
        }
        pos += 1;
    }
    if pos < fields.len() && key_same(&fields[pos].0, &key) {
        proof {
            lemma_replace_field(f0, pos as int, key, payload);
        }
        fields.set(pos, (key, payload));
    } else {
        proof {
            if pos < f0.len() {
                lemma_key_order(f0[pos as int].0, key, key);
            }
            lemma_insert_field(f0, pos as int, key, payload);
        }
        fields.insert(pos, (key, payload));
    }
}

proof fn lemma_updated_fields<T>(g0: SampleGroup<T>, p: Seq<FieldSample<T>>, x: FieldSample<T>, key: FieldKey, g: SampleGroup<T>)
    requires
        group_is(g0, p),
        sample_key(x) == Some(key),
        g0.member == x.member,
        g0.date == x.valid_date,
        g.member == x.member,
        g.date == x.valid_date,
        g.reference_date == g0.reference_date,
        field_put(g0.fields@, g.fields@, key, x.samples),
    ensures
        forall|i: int| 0 <= i < g.fields@.len() ==> (last_of_field(p.push(x), g.member, g.date, #[trigger] g.fields@[i].0) matches Some(j)
            && p.push(x)[j].samples == g.fields@[i].1),
{
    let q = p.push(x);
    let m = x.member;
    let d = x.valid_date;
    let f0 = g0.fields@;
    let f1 = g.fields@;
    reveal(entries_from);
    assert forall|i: int| 0 <= i < f1.len() implies (last_of_field(q, m, d, #[trigger] f1[i].0) matches Some(j)
        && q[j].samples == f1[i].1) by {
        let k = f1[i].0;
        lemma_push_message(p, x, m, d, k);
        if k != key {
            let i0 = choose|i0: int| 0 <= i0 < f0.len() && #[trigger] f0[i0] == f1[i];
            assert(f0[i0].0 == k);
            lemma_found_in_group(p, m, d, k);
            let j = last_of_field(p, m, d, k)->0;
            assert(q[j] == p[j]);
        } else {
            assert(q[p.len() as int] == x);
        }
    }
}

proof fn lemma_updated_complete<T>(g0: SampleGroup<T>, p: Seq<FieldSample<T>>, x: FieldSample<T>, key: FieldKey, g: SampleGroup<T>)
    requires
        group_is(g0, p),
        sample_key(x) == Some(key),
        g0.member == x.member,
        g0.date == x.valid_date,
        g.member == x.member,
        g.date == x.valid_date,
        g.reference_date == g0.reference_date,
        field_put(g0.fields@, g.fields@, key, x.samples),
    ensures
        forall|j: int| 0 <= j < p.push(x).len() && #[trigger] in_group(p.push(x)[j], g.member, g.date) ==> exists|i: int|
            0 <= i < g.fields@.len() && Some(#[trigger] g.fields@[i].0) == sample_key(p.push(x)[j]),
{
    let q = p.push(x);
    let m = x.member;
    let d = x.valid_date;
    let f0 = g0.fields@;
    let f1 = g.fields@;
    reveal(entries_kept);
    assert forall|j: int| 0 <= j < q.len() && #[trigger] in_group(q[j], m, d) implies exists|i: int|
        0 <= i < f1.len() && Some(#[trigger] f1[i].0) == sample_key(q[j]) by {
        if j == p.len() {
            assert(q[j] == x);
            let i = choose|i: int| 0 <= i < f1.len() && #[trigger] f1[i].0 == key;
            assert(Some(f1[i].0) == sample_key(q[j]));
        } else {
            assert(q[j] == p[j]);
            assert(in_group(p[j], m, d));
            let i0 = choose|i0: int| 0 <= i0 < f0.len() && Some(#[trigger] f0[i0].0) == sample_key(p[j]);
            if f0[i0].0 == key {
                let i = choose|i: int| 0 <= i < f1.len() && #[trigger] f1[i].0 == key;
                assert(Some(f1[i].0) == sample_key(q[j]));
            } else {
                let i = choose|i: int| 0 <= i < f1.len() && #[trigger] f1[i] == f0[i0];
                assert(Some(f1[i].0) == sample_key(q[j]));
            }
        }
    }
}

/// The group of `x` once its samples are put in.
proof fn lemma_updated_group<T>(g0: SampleGroup<T>, p: Seq<FieldSample<T>>, x: FieldSample<T>, key: FieldKey, g: SampleGroup<T>)
    requires
        group_is(g0, p),
        sample_key(x) == Some(key),
        g0.member == x.member,
        g0.date == x.valid_date,
        g.member == x.member,
        g.date == x.valid_date,
        g.reference_date == g0.reference_date,
        field_put(g0.fields@, g.fields@, key, x.samples),
    ensures
        group_is(g, p.push(x)),
{
    let q = p.push(x);
    let m = x.member;
    let d = x.valid_date;
    let f0 = g0.fields@;
    let f1 = g.fields@;
    lemma_push_message(p, x, m, d, key);
    lemma_found_in_group(p, m, d, key);
    let j0 = first_in_group(p, m, d)->0;
    assert(q[j0] == p[j0]);
    lemma_updated_fields(g0, p, x, key, g);
    lemma_updated_complete(g0, p, x, key, g);
}

/// Placing a message of a group that is there already.
proof fn lemma_place_existing<T>(
    g0: Seq<SampleGroup<T>>,
    p: Seq<FieldSample<T>>,
    x: FieldSample<T>,
    key: FieldKey,
    pos: int,
    g: SampleGroup<T>,
)
    requires
        groups_are(g0, p),
        sample_key(x) == Some(key),
        0 <= pos < g0.len(),
        g0[pos].member == x.member,
        g0[pos].date == x.valid_date,
        g.member == x.member,
        g.date == x.valid_date,
        g.reference_date == g0[pos].reference_date,
        field_put(g0[pos].fields@, g.fields@, key, x.samples),
    ensures
        groups_are(g0.update(pos, g), p.push(x)),
{
    let q = p.push(x);
    let g1 = g0.update(pos, g);
    let m = x.member;
    let d = x.valid_date;
    let f0 = g0[pos].fields@;
    let f1 = g.fields@;
    assert(group_is(g0[pos], p));
    assert forall|i: int, j: int| 0 <= i < j < g1.len() implies group_before(
        #[trigger] g1[i].member,
        g1[i].date,
        #[trigger] g1[j].member,
        g1[j].date,
    ) by {
        assert(group_before(g0[i].member, g0[i].date, g0[j].member, g0[j].date));
    }
    lemma_updated_group(g0[pos], p, x, key, g);
    assert(group_is(g, q));
    // the other groups
    assert forall|i: int| 0 <= i < g1.len() implies group_is(#[trigger] g1[i], q) by {
        if i != pos {
            lemma_group_order(g0[i].member, g0[i].date, m, d, m, d);
            if i < pos {
                assert(group_before(g0[i].member, g0[i].date, g0[pos].member, g0[pos].date));
            } else {
                assert(group_before(g0[pos].member, g0[pos].date, g0[i].member, g0[i].date));
            }
            assert(!in_group(x, g0[i].member, g0[i].date));
            lemma_group_unchanged(g0[i], p, x);
        }
    }
    assert forall|j: int| 0 <= j < q.len() && (#[trigger] sample_key(q[j])) is Some implies exists|i: int|
        0 <= i < g1.len() && g1[i].member == q[j].member && #[trigger] g1[i].date == q[j].valid_date by {
        if j == p.len() {
            assert(q[j] == x);
            assert(g1[pos].date == q[j].valid_date);
        } else {
            assert(q[j] == p[j]);
            assert(sample_key(p[j]) is Some);
            let i = choose|i: int| 0 <= i < g0.len() && g0[i].member == p[j].member && #[trigger] g0[i].date == p[j].valid_date;
            assert(g1[i].date == q[j].valid_date);
        }
    }
}

/// Placing the first message of a group.
proof fn lemma_place_new<T>(
    g0: Seq<SampleGroup<T>>,
    p: Seq<FieldSample<T>>,
    x: FieldSample<T>,
    key: FieldKey,
    pos: int,
    g: SampleGroup<T>,
)
    requires
        groups_are(g0, p),
        sample_key(x) == Some(key),
        0 <= pos <= g0.len(),
        forall|i: int| 0 <= i < pos ==> group_before(#[trigger] g0[i].member, g0[i].date, x.member, x.valid_date),
        pos < g0.len() ==> !group_before(g0[pos].member, g0[pos].date, x.member, x.valid_date),
        pos < g0.len() ==> !(g0[pos].member == x.member && g0[pos].date == x.valid_date),
        g.member == x.member,
        g.date == x.valid_date,
        g.reference_date == x.reference_date,
        g.fields@ == seq![(key, x.samples)],
    ensures
        groups_are(g0.insert(pos, g), p.push(x)),
{
    let q = p.push(x);
    let g1 = g0.insert(pos, g);
    let m = x.member;
    let d = x.valid_date;
    g0.insert_ensures(pos, g);
    if pos < g0.len() {
        lemma_group_order(g0[pos].member, g0[pos].date, m, d, m, d);
    }
    assert forall|i: int| pos <= i < g0.len() implies group_before(m, d, #[trigger] g0[i].member, g0[i].date) by {
        if i > pos {
            assert(group_before(g0[pos].member, g0[pos].date, g0[i].member, g0[i].date));
            lemma_group_order(m, d, g0[pos].member, g0[pos].date, g0[i].member, g0[i].date);
        }
    }
    assert forall|i: int, j: int| 0 <= i < j < g1.len() implies group_before(
        #[trigger] g1[i].member,
        g1[i].date,
        #[trigger] g1[j].member,
        g1[j].date,
    ) by {
        if j < pos {
            assert(group_before(g0[i].member, g0[i].date, g0[j].member, g0[j].date));
        } else if j == pos {
        } else if i < pos {
            assert(g1[j] == g0[j - 1]);
            lemma_group_order(g0[i].member, g0[i].date, m, d, g0[j - 1].member, g0[j - 1].date);
        } else if i == pos {
            assert(g1[j] == g0[j - 1]);
        } else {
            assert(g1[i] == g0[i - 1]);
            assert(g1[j] == g0[j - 1]);
            assert(group_before(g0[i - 1].member, g0[i - 1].date, g0[j - 1].member, g0[j - 1].date));
        }
    }
    // no earlier message is of the group of `x`
    assert forall|j: int| 0 <= j < p.len() implies !in_group(#[trigger] p[j], m, d) by {
        if in_group(p[j], m, d) {
            let i = choose|i: int| 0 <= i < g0.len() && g0[i].member == p[j].member && #[trigger] g0[i].date == p[j].valid_date;
            lemma_group_order(m, d, m, d, m, d);
            if i < pos {
                assert(group_before(g0[i].member, g0[i].date, m, d));
            } else {
                assert(group_before(m, d, g0[i].member, g0[i].date));
            }
        }
    }
    lemma_found_in_group(p, m, d, key);
    lemma_push_message(p, x, m, d, key);
    assert(q[p.len() as int] == x);
    assert forall|i: int| 0 <= i < g.fields@.len() implies (last_of_field(q, m, d, #[trigger] g.fields@[i].0) matches Some(j)
        && q[j].samples == g.fields@[i].1) by {
        assert(i == 0);
    }
    assert forall|j: int| 0 <= j < q.len() && #[trigger] in_group(q[j], m, d) implies exists|i: int|
        0 <= i < g.fields@.len() && Some(#[trigger] g.fields@[i].0) == sample_key(q[j]) by {
        if j < p.len() {
            assert(q[j] == p[j]);
        } else {
            assert(q[j] == x);
            assert(g.fields@[0].0 == key);
        }
    }
    assert(fields_sorted(g.fields@));
    assert(group_is(g, q));
    assert forall|i: int| 0 <= i < g1.len() implies group_is(#[trigger] g1[i], q) by {
        if i < pos {
            lemma_group_order(g0[i].member, g0[i].date, m, d, m, d);
            assert(!in_group(x, g0[i].member, g0[i].date));
            lemma_group_unchanged(g0[i], p, x);
        } else if i > pos {
            assert(g1[i] == g0[i - 1]);
            lemma_group_order(m, d, g0[i - 1].member, g0[i - 1].date, m, d);
            assert(!in_group(x, g0[i - 1].member, g0[i - 1].date));
            lemma_group_unchanged(g0[i - 1], p, x);
        }
    }
    assert forall|j: int| 0 <= j < q.len() && (#[trigger] sample_key(q[j])) is Some implies exists|i: int|
        0 <= i < g1.len() && g1[i].member == q[j].member && #[trigger] g1[i].date == q[j].valid_date by {
        if j == p.len() {
            assert(q[j] == x);
            assert(g1[pos].date == q[j].valid_date);
        } else {
            assert(q[j] == p[j]);
            assert(sample_key(p[j]) is Some);
            let i = choose|i: int| 0 <= i < g0.len() && g0[i].member == p[j].member && #[trigger] g0[i].date == p[j].valid_date;
            if i < pos {
                assert(g1[i].date == q[j].valid_date);
            } else {
                assert(g1[i + 1] == g0[i]);
                assert(g1[i + 1].date == q[j].valid_date);
            }
        }
    }
}

/// A message of no field of a record leaves the groups as they were.
proof fn lemma_skip_message<T>(gs: Seq<SampleGroup<T>>, p: Seq<FieldSample<T>>, x: FieldSample<T>)
    requires
        groups_are(gs, p),
        sample_key(x) is None,
    ensures
        groups_are(gs, p.push(x)),
{
    let q = p.push(x);
    assert forall|i: int| 0 <= i < gs.len() implies group_is(#[trigger] gs[i], q) by {
        lemma_group_unchanged(gs[i], p, x);
    }
    assert forall|j: int| 0 <= j < q.len() && (#[trigger] sample_key(q[j])) is Some implies exists|i: int|
        0 <= i < gs.len() && gs[i].member == q[j].member && #[trigger] gs[i].date == q[j].valid_date by {
        assert(j < p.len());
        assert(q[j] == p[j]);
        assert(sample_key(p[j]) is Some);
    }
}

/// Puts the message `x` in its group.
fn place<T>(groups: &mut Vec<SampleGroup<T>>, x: FieldSample<T>, key: FieldKey, Ghost(p): Ghost<Seq<FieldSample<T>>>)
    requires
        groups_are(old(groups)@, p),
        sample_key(x) == Some(key),
    ensures
        groups_are(final(groups)@, p.push(x)),
{
    let ghost g0 = groups@;
    let ghost x0 = x;
    let mut pos: usize = 0;
    while pos < groups.len()
        invariant
            pos <= groups.len(),
            groups@ == g0,
            forall|i: int| 0 <= i < pos ==> group_before(#[trigger] g0[i].member, g0[i].date, x.member, x.valid_date),
        ensures
            pos <= groups.len(),
            groups@ == g0,
            forall|i: int| 0 <= i < pos ==> group_before(#[trigger] g0[i].member, g0[i].date, x.member, x.valid_date),
            pos < groups.len() ==> !group_before(g0[pos as int].member, g0[pos as int].date, x.member, x.valid_date),
        decreases groups.len() - pos,
    {
        if !group_less(&groups[pos].member, &groups[pos].date, &x.member, &x.valid_date) {
            break;
        }
        pos += 1;
    }
    let found = pos < groups.len() && member_same(&groups[pos].member, &x.member) && date_same(
        &groups[pos].date,
        &x.valid_date,
    );
    let FieldSample { member, reference_date, valid_date, field, samples } = x;
    if found {
        let mut g = groups.remove(pos);
        put_field(&mut g.fields, key, samples);
        groups.insert(pos, g);
        proof {
            assert(groups@ =~= g0.update(pos as int, g));
            lemma_place_existing(g0, p, x0, key, pos as int, g);
        }
    } else {
        let mut fields: Vec<(FieldKey, T)> = Vec::new();
        fields.push((key, samples));
        let g = SampleGroup { member, date: valid_date, reference_date, fields };
        proof {
            assert(g.fields@ =~= seq![(key, x0.samples)]);
        }
        groups.insert(pos, g);
        proof {
            lemma_place_new(g0, p, x0, key, pos as int, g);
        }
    }
}

/// Whether `fields` hold field `key`.
fn holds_field<T>(fields: &Vec<(FieldKey, T)>, key: FieldKey) -> (b: bool)
    ensures
        b == exists|i: int| 0 <= i < fields@.len() && #[trigger] fields@[i].0 == key,
{
    let mut i: usize = 0;
    while i < fields.len()
        invariant
            i <= fields.len(),
            forall|k: int| 0 <= k < i ==> #[trigger] fields@[k].0 != key,
        decreases fields.len() - i,
    {
        if key_same(&fields[i].0, &key) {
            return true;
        }
        i += 1;
    }
    false
}

fn push_member_text(s: &mut String, m: &ForecastMember)
    ensures
        final(s)@ == old(s)@ + member_text(*m),
{
    match m {
        ForecastMember::Deterministic => push_str(s, "Deterministic"),
        ForecastMember::Control => push_str(s, "Control"),
        ForecastMember::Perturbed(n) => {
            let ghost s0 = s@;
            push_str(s, "Perturbed(");
            push_decimal(s, *n as u64);
            push_str(s, ")");
            proof {
                assert(s@ =~= s0 + member_text(*m));
            }
        },
    }
}

fn push_two_digits(s: &mut String, sep: char, n: u32)
    ensures
        final(s)@ == old(s)@ + seq![sep] + zero_padded(n as nat, 2),
{
    push_char(s, sep);
    push_zero_padded(s, n as u64, 2);
}

fn push_year_text(s: &mut String, d: &UtcDateTime)
    ensures
        final(s)@ == old(s)@ + year_text(d.year as int),
{
    let ghost s0 = s@;
    if 0 <= d.year && d.year <= 9999 {
        push_zero_padded(s, d.year as u64, 4);
    } else if d.year < 0 {
        push_char(s, '-');
        let magnitude: u64 = (-(d.year as i64)) as u64;
        push_zero_padded(s, magnitude, 4);
    } else {
        push_char(s, '+');
        push_zero_padded(s, d.year as u64, 4);
    }
    proof {
        assert(s@ =~= s0 + year_text(d.year as int));
    }
}

pub(crate) fn push_date_text(s: &mut String, d: &UtcDateTime)
    ensures
        final(s)@ == old(s)@ + date_text(*d),
{
    let ghost s0 = s@;
    push_year_text(s, d);
    let ghost s1 = s@;
    push_two_digits(s, '-', d.month);
    push_two_digits(s, '-', d.day);
    let ghost s2 = s@;
    proof {
        assert(s2 =~= s1 + seq!['-'] + zero_padded(d.month as nat, 2) + seq!['-'] + zero_padded(d.day as nat, 2));
    }
    push_two_digits(s, ' ', d.hour);
    push_two_digits(s, ':', d.minute);
    push_two_digits(s, ':', d.second);
    let ghost s3 = s@;
    proof {
        assert(s3 =~= s2 + seq![' '] + zero_padded(d.hour as nat, 2) + seq![':'] + zero_padded(d.minute as nat, 2)
            + seq![':'] + zero_padded(d.second as nat, 2));
    }
    push_str(s, " UTC");
    proof {
        assert(s@ =~= s0 + date_text(*d));
    }
}

/// The message of the error for a group without significant height.
fn missing_height_text(m: &ForecastMember, d: &UtcDateTime) -> (s: String)
    ensures
        s@ == missing_height_message(*m, *d),
{
    let mut s = String::new();
    push_str(&mut s, "swh for ");
    push_member_text(&mut s, m);
    push_str(&mut s, " at ");
    push_date_text(&mut s, d);
    proof {
        assert(s@ =~= missing_height_message(*m, *d));
    }
    s
}

/// One group per forecast member and valid time found in `messages`, in
/// order of member then time; messages of other fields are passed over.
/// A group without significant height is an error.
pub fn group_messages<T>(messages: Vec<FieldSample<T>>) -> (r: Result<Vec<SampleGroup<T>>, DataRecordParsingError>)
    ensures
        grouping_is(r, messages@),
{
    let ghost s = messages@;
    let mut rest = messages;
    let mut groups: Vec<SampleGroup<T>> = Vec::new();
    let ghost mut n: int = 0;
    proof {
        assert(s.take(0) =~= Seq::<FieldSample<T>>::empty());
        assert(s.skip(0) =~= s);
    }
    while rest.len() > 0
        invariant
            0 <= n <= s.len(),
            rest@ == s.skip(n),
            groups_are(groups@, s.take(n)),
        decreases rest.len(),
    {
        let x = rest.remove(0);
        proof {
            assert(x == s[n]);
            assert(s.take(n + 1) =~= s.take(n).push(x));
            assert(rest@ =~= s.skip(n + 1));
        }
        match FieldKey::from_field(&x.field) {
            Some(k) => place(&mut groups, x, k, Ghost(s.take(n))),
            None => {
                proof {
                    lemma_skip_message(groups@, s.take(n), x);
                }
            },
        }
        proof {
            n = n + 1;
        }
    }
    proof {
        assert(s.take(n) =~= s);
    }
    let mut i: usize = 0;
    while i < groups.len()
        invariant
            i <= groups.len(),
            groups_are(groups@, s),
            s == messages@,
            forall|q: int| 0 <= q < i ==> has_height(s, #[trigger] groups@[q].member, groups@[q].date),
        decreases groups.len() - i,
    {
        let ghost g = groups@[i as int];
        proof {
            assert(group_is(g, s));
            lemma_found_in_group(s, g.member, g.date, FieldKey::SignificantHeight);
        }
        if !holds_field(&groups[i].fields, FieldKey::SignificantHeight) {
            let message = missing_height_text(&groups[i].member, &groups[i].date);
            let e = DataRecordParsingError::KeyMissing(message);
            proof {
                if has_height(s, g.member, g.date) {
                    let j = last_of_field(s, g.member, g.date, FieldKey::SignificantHeight)->0;
                    assert(in_group(s[j], g.member, g.date));
                    let k = choose|k: int| 0 <= k < g.fields@.len() && Some(#[trigger] g.fields@[k].0) == sample_key(s[j]);
                    assert(g.fields@[k].0 == FieldKey::SignificantHeight);
                }
                let j = first_in_group(s, g.member, g.date)->0;
                assert(in_group(s[j], g.member, g.date));
                assert forall|k: int|
                    0 <= k < s.len() && (#[trigger] sample_key(s[k])) is Some && group_before(
                        s[k].member,
                        s[k].valid_date,
                        s[j].member,
                        s[j].valid_date,
                    ) implies has_height(s, s[k].member, s[k].valid_date) by {
                    let q = choose|q: int| 0 <= q < groups@.len() && groups@[q].member == s[k].member && #[trigger] groups@[q].date == s[k].valid_date;
                    lemma_group_order(groups@[q].member, groups@[q].date, g.member, g.date, g.member, g.date);
                    if q > i {
                        assert(group_before(g.member, g.date, groups@[q].member, groups@[q].date));
                    }
                }
                assert(is_missing_height(e, s[j].member, s[j].valid_date));
                assert(!has_height(s, s[j].member, s[j].valid_date));
                assert(sample_key(s[j]) is Some);
                assert(grouping_is(Err::<Vec<SampleGroup<T>>, DataRecordParsingError>(e), s));
            }
            return Err(e);
        }
        proof {
            let k = choose|k: int| 0 <= k < g.fields@.len() && #[trigger] g.fields@[k].0 == FieldKey::SignificantHeight;
            assert(last_of_field(s, g.member, g.date, g.fields@[k].0) is Some);
        }
        i += 1;
    }
    Ok(groups)
}

} // verus!
