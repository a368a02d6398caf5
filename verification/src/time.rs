//! UTC calendar times: validity, the proleptic Gregorian calendar, shifts
//! by whole hours, and the textual forms used in file names and URLs.

use vstd::prelude::*;

use chrono::{Datelike, Duration, NaiveDateTime, TimeZone, Timelike, Utc};

use crate::text::{push_char, push_signed_decimal, push_zero_padded, signed_decimal, zero_padded};

verus! {

/// A UTC calendar time to the second.
#[derive(Debug, Clone, Copy, PartialEq, Eq, PartialOrd, Ord, Hash)]
pub struct UtcDateTime {
    pub year: i32,
    pub month: u32,
    pub day: u32,
    pub hour: u32,
    pub minute: u32,
    pub second: u32,
}

pub open spec fn is_leap_year(y: int) -> bool {
    (y % 4 == 0 && y % 100 != 0) || y % 400 == 0
}

pub open spec fn days_in_month(y: int, m: int) -> int {
    if m == 2 {
        if is_leap_year(y) {
            29
        } else {
            28
        }
    } else if m == 4 || m == 6 || m == 9 || m == 11 {
        30
    } else {
        31
    }
}

/// The years that chrono's calendar represents.
pub open spec fn year_in_range(y: int) -> bool {
    -262143 <= y <= 262142
}

/// A calendar date and time of day that exists (no leap seconds).
pub open spec fn valid_civil(y: int, mo: int, d: int, h: int, mi: int, s: int) -> bool {
    &&& year_in_range(y)
    &&& 1 <= mo <= 12
    &&& 1 <= d <= days_in_month(y, mo)
    &&& 0 <= h < 24
    &&& 0 <= mi < 60
    &&& 0 <= s < 60
}

/// Days from 1970-01-01 to the given proleptic Gregorian date.
pub open spec fn days_from_civil(y: int, m: int, d: int) -> int {
    let y2 = if m <= 2 {
        y - 1
    } else {
        y
    };
    let era = y2 / 400;
    let yoe = y2 - era * 400;
    let mp = if m > 2 {
        m - 3
    } else {
        m + 9
    };
    let doy = (153 * mp + 2) / 5 + d - 1;
    let doe = yoe * 365 + yoe / 4 - yoe / 100 + doy;
    era * 146097 + doe - 719468
}

/// Seconds since 1970-01-01T00:00:00.
pub open spec fn civil_seconds(y: int, mo: int, d: int, h: int, mi: int, s: int) -> int {
    days_from_civil(y, mo, d) * 86400 + h * 3600 + mi * 60 + s
}

/// The earliest and latest instants chrono represents.
pub open spec fn seconds_in_range(t: int) -> bool {
    civil_seconds(-262143, 1, 1, 0, 0, 0) <= t <= civil_seconds(262142, 12, 31, 23, 59, 59)
}

impl UtcDateTime {
    pub open spec fn wf(self) -> bool {
        valid_civil(
            self.year as int,
            self.month as int,
            self.day as int,
            self.hour as int,
            self.minute as int,
            self.second as int,
        )
    }

    /// Seconds since the Unix epoch.
    pub open spec fn unix_seconds(self) -> int {
        civil_seconds(
            self.year as int,
            self.month as int,
            self.day as int,
            self.hour as int,
            self.minute as int,
            self.second as int,
        )
    }

    /// `%Y%m%d` as chrono formats it: the year zero-padded to four digits,
    /// with an explicit sign outside 0..=9999, then two-digit month and day.
    pub open spec fn spec_ymd(self) -> Seq<char> {
        year_text(self.year as int) + zero_padded(self.month as nat, 2) + zero_padded(
            self.day as nat,
            2,
        )
    }
}

/// `%Y` as chrono formats it.
pub open spec fn year_text(y: int) -> Seq<char> {
    if 0 <= y <= 9999 {
        zero_padded(y as nat, 4)
    } else if y < 0 {
        seq!['-'] + zero_padded((-y) as nat, 4)
    } else {
        seq!['+'] + zero_padded(y as nat, 4)
    }
}

/// `chrono::Utc.with_ymd_and_hms(..).single()`: the time when it exists in
/// the calendar (UTC has no ambiguous or skipped local times).
#[verifier::external_body]
pub(crate) fn utc_datetime(year: i32, month: u32, day: u32, hour: u32, minute: u32, second: u32) -> (r:
    Option<UtcDateTime>)
    ensures
        r is Some <==> valid_civil(
            year as int,
            month as int,
            day as int,
            hour as int,
            minute as int,
            second as int,
        ),
        r matches Some(t) ==> t == (UtcDateTime { year, month, day, hour, minute, second }),
{
    match Utc.with_ymd_and_hms(year, month, day, hour, minute, second).single() {
        Some(dt) => Some(
            UtcDateTime {
                year: dt.year(),
                month: dt.month(),
                day: dt.day(),
                hour: dt.hour(),
                minute: dt.minute(),
                second: dt.second(),
            },
        ),
        None => None,
    }
}

/// `DateTime<Utc> + Duration::hours(hours)`: the same instant moved by a
/// whole number of hours in the proleptic Gregorian calendar.
#[verifier::external_body]
pub(crate) fn shift_hours(t: &UtcDateTime, hours: i64) -> (r: UtcDateTime)
    requires
        t.wf(),
        -9223372036854775 <= hours * 3600 <= 9223372036854775,
        seconds_in_range(t.unix_seconds() + hours * 3600),
    ensures
        r.wf(),
        r.unix_seconds() == t.unix_seconds() + hours * 3600,
{
    let dt = Utc.with_ymd_and_hms(t.year, t.month, t.day, t.hour, t.minute, t.second).unwrap();
    let moved = dt + Duration::hours(hours);
    UtcDateTime {
        year: moved.year(),
        month: moved.month(),
        day: moved.day(),
        hour: moved.hour(),
        minute: moved.minute(),
        second: moved.second(),
    }
}

/// `SystemTime::now().duration_since(UNIX_EPOCH)`, in whole seconds: how
/// far the system clock reads past the Unix epoch, or none where it reads
/// before it. Which reading comes depends on the clock, so nothing is
/// stated of it.
#[verifier::external_body]
fn clock_seconds() -> (r: Option<u64>) {
    match std::time::SystemTime::now().duration_since(std::time::UNIX_EPOCH) {
        Ok(d) => Some(d.as_secs()),
        Err(_) => None,
    }
}

/// `chrono::DateTime::<Utc>::from_timestamp(secs, 0)`: the UTC time `secs`
/// seconds after the Unix epoch. Stated: it exists exactly when that time
/// lies in chrono's calendar, and it is then the calendar time with those
/// Unix seconds.
#[verifier::external_body]
fn utc_from_timestamp(secs: i64) -> (r: Option<UtcDateTime>)
    ensures
        r is Some <==> seconds_in_range(secs as int),
        r matches Some(t) ==> t.wf() && t.unix_seconds() == secs,
{
    match chrono::DateTime::<Utc>::from_timestamp(secs, 0) {
        Some(dt) => Some(
            UtcDateTime {
                year: dt.year(),
                month: dt.month(),
                day: dt.day(),
                hour: dt.hour(),
                minute: dt.minute(),
                second: dt.second(),
            },
        ),
        None => None,
    }
}

/// The current UTC time to the second, as `chrono::Utc::now()` reads it
/// (the system clock's seconds past the Unix epoch, taken as a calendar
/// time); none where the clock reads before the epoch or past chrono's
/// calendar, where `Utc::now` panics.
pub fn utc_now() -> (r: Option<UtcDateTime>)
    ensures
        r matches Some(t) ==> t.wf() && t.unix_seconds() >= 0 && seconds_in_range(t.unix_seconds()),
{
    match clock_seconds() {
        None => None,
        Some(secs) => {
            if secs > i64::MAX as u64 {
                None
            } else {
                utc_from_timestamp(secs as i64)
            }
        },
    }
}

/// The Unix epoch, 1970-01-01 00:00:00 UTC.
pub fn unix_epoch() -> (t: UtcDateTime)
    ensures
        t.wf(),
        t.unix_seconds() == 0,
        seconds_in_range(0),
{
    let t = UtcDateTime { year: 1970, month: 1, day: 1, hour: 0, minute: 0, second: 0 };
    proof {
        assert(days_from_civil(1970, 1, 1) == 0);
        assert(civil_seconds(-262143, 1, 1, 0, 0, 0) < 0);
        assert(civil_seconds(262142, 12, 31, 23, 59, 59) > 0);
    }
    t
}

/// The start of the `interval`-hour block of the day that `t` falls in.
pub open spec fn spec_floor_to_hours(t: UtcDateTime, interval: int) -> UtcDateTime {
    UtcDateTime {
        year: t.year,
        month: t.month,
        day: t.day,
        hour: (t.hour as int - (t.hour as int) % interval) as u32,
        minute: 0,
        second: 0,
    }
}

pub fn floor_to_hours(t: &UtcDateTime, interval: u32) -> (r: UtcDateTime)
    requires
        t.wf(),
        interval > 0,
    ensures
        r == spec_floor_to_hours(*t, interval as int),
        r.wf(),
{
    proof {
        assert(t.hour % interval <= t.hour) by (nonlinear_arith)
            requires
                interval > 0,
        ;
    }
    UtcDateTime {
        year: t.year,
        month: t.month,
        day: t.day,
        hour: t.hour - t.hour % interval,
        minute: 0,
        second: 0,
    }
}

/// The time `hours` hours before `t`, floored to the start of its
/// `interval`-hour block. For this to stay inside chrono's calendar, `t`
/// must be at least that many hours after its first instant.
pub open spec fn spec_run_before(t: UtcDateTime, hours: int, interval: int, r: UtcDateTime) -> bool {
    exists|adjusted: UtcDateTime|
        #![trigger spec_floor_to_hours(adjusted, interval)]
        adjusted.wf() && adjusted.unix_seconds() == t.unix_seconds() - hours * 3600 && r
            == spec_floor_to_hours(adjusted, interval)
}

/// Moves `t` back by `hours` and floors it to a multiple of `interval`
/// hours.
pub fn run_before(t: &UtcDateTime, hours: u32, interval: u32) -> (r: UtcDateTime)
    requires
        t.wf(),
        interval > 0,
        seconds_in_range(t.unix_seconds() - hours * 3600),
    ensures
        r.wf(),
        spec_run_before(*t, hours as int, interval as int, r),
{
    let adjusted = shift_hours(t, -(hours as i64));
    floor_to_hours(&adjusted, interval)
}

/// Appends `%Y%m%d`.
pub fn push_ymd(s: &mut String, t: &UtcDateTime)
    ensures
        final(s)@ == old(s)@ + t.spec_ymd(),
{
    let ghost start = s@;
    if 0 <= t.year && t.year <= 9999 {
        push_zero_padded(s, t.year as u64, 4);
    } else if t.year < 0 {
        push_char(s, '-');
        let magnitude: u64 = (-(t.year as i64)) as u64;
        push_zero_padded(s, magnitude, 4);
    } else {
        push_char(s, '+');
        push_zero_padded(s, t.year as u64, 4);
    }
    push_zero_padded(s, t.month as u64, 2);
    push_zero_padded(s, t.day as u64, 2);
    proof {
        assert(s@ =~= start + t.spec_ymd());
    }
}

/// Appends the year as `format!("{year}")` does, then two-digit month and
/// day: the `{year}{month:02}{day:02}` of model file paths.
pub open spec fn spec_plain_ymd(t: UtcDateTime) -> Seq<char> {
    signed_decimal(t.year as int) + zero_padded(t.month as nat, 2) + zero_padded(t.day as nat, 2)
}

pub fn push_plain_ymd(s: &mut String, t: &UtcDateTime)
    ensures
        final(s)@ == old(s)@ + spec_plain_ymd(*t),
{
    let ghost start = s@;
    push_signed_decimal(s, t.year as i64);
    push_zero_padded(s, t.month as u64, 2);
    push_zero_padded(s, t.day as u64, 2);
    proof {
        assert(s@ =~= start + spec_plain_ymd(*t));
    }
}


/// A time at or after the Unix epoch can be moved back by up to a day.
pub proof fn lemma_recent_can_move_back(t: int, hours: int)
    requires
        t >= 0,
        seconds_in_range(t),
        0 <= hours <= 24,
    ensures
        seconds_in_range(t - hours * 3600),
{
    assert(civil_seconds(-262143, 1, 1, 0, 0, 0) < -86400);
}

/// The time that chrono's `NaiveDateTime::parse_from_str` reads from
/// `text` with the `strftime`-like `format`, or the text of its error.
pub uninterp spec fn naive_time_parse(text: Seq<char>, format: Seq<char>) -> Result<
    UtcDateTime,
    Seq<char>,
>;

/// `NaiveDateTime::parse_from_str(text, format)`, the result taken as a UTC
/// time and its error as the text it displays. Stated: the outcome is
/// `naive_time_parse` of the two texts, and a time it gives exists in the
/// calendar (a chrono value always does; a leap second reads as second
/// 59). How the format is matched is the crate's and is left to that name.
#[verifier::external_body]
pub(crate) fn parse_naive_time(text: &str, format: &str) -> (r: Result<UtcDateTime, String>)
    ensures
        match (r, naive_time_parse(text@, format@)) {
            (Ok(t), Ok(u)) => t == u && t.wf(),
            (Err(e), Err(m)) => e@ == m,
            _ => false,
        },
{
    match NaiveDateTime::parse_from_str(text, format) {
        Ok(t) => Ok(
            UtcDateTime {
                year: t.year(),
                month: t.month(),
                day: t.day(),
                hour: t.hour(),
                minute: t.minute(),
                second: t.second(),
            },
        ),
        Err(e) => Err(e.to_string()),
    }
}

/// Days from a fixed origin to March 1 of year `y` (years counted from
/// March, so that a leap day ends the year).
pub open spec fn march_year_days(y: int) -> int {
    365 * y + y / 4 - y / 100 + y / 400
}

/// Days from March 1 to the first day of month `mp` counted from March.
pub open spec fn march_month_days(mp: int) -> int {
    (153 * mp + 2) / 5
}

proof fn lemma_days_from_civil_parts(y: int, m: int, d: int)
    requires
        1 <= m <= 12,
    ensures
        days_from_civil(y, m, d) == march_year_days(if m <= 2 { y - 1 } else { y })
            + march_month_days(if m > 2 { m - 3 } else { m + 9 }) + d - 1 - 719468,
{
    let y2 = if m <= 2 { y - 1 } else { y };
    let era = y2 / 400;
    let yoe = y2 - era * 400;
    assert(0 <= yoe < 400);
    assert(y2 == 400 * era + yoe);
    assert(y2 / 4 == 100 * era + yoe / 4);
    assert(y2 / 100 == 4 * era + yoe / 100);
    assert(y2 / 400 == era);
}

proof fn lemma_march_year_step(y: int)
    ensures
        march_year_days(y + 1) - march_year_days(y) == if is_leap_year(y + 1) { 366int } else { 365int },
{
}

proof fn lemma_march_year_grows(x: int, y: int)
    requires
        x <= y,
    ensures
        march_year_days(y) - march_year_days(x) >= 365 * (y - x),
    decreases y - x,
{
    if x < y {
        lemma_march_year_grows(x, y - 1);
        lemma_march_year_step(y - 1);
    }
}

/// Earlier calendar dates have fewer days from the epoch.
proof fn lemma_days_strictly_increase(y1: int, m1: int, d1: int, y2: int, m2: int, d2: int)
    requires
        1 <= m1 <= 12,
        1 <= d1 <= days_in_month(y1, m1),
        1 <= m2 <= 12,
        1 <= d2 <= days_in_month(y2, m2),
        y1 < y2 || (y1 == y2 && m1 < m2) || (y1 == y2 && m1 == m2 && d1 < d2),
    ensures
        days_from_civil(y1, m1, d1) < days_from_civil(y2, m2, d2),
{
    lemma_days_from_civil_parts(y1, m1, d1);
    lemma_days_from_civil_parts(y2, m2, d2);
    let a = if m1 <= 2 { y1 - 1 } else { y1 };
    let b = if m2 <= 2 { y2 - 1 } else { y2 };
    let p = if m1 > 2 { m1 - 3 } else { m1 + 9 };
    let q = if m2 > 2 { m2 - 3 } else { m2 + 9 };
    assert(march_month_days(p) + d1 - 1 <= 365);
    assert(p < 11 ==> march_month_days(p) + d1 - 1 < march_month_days(p + 1));
    assert(p == 11 && !is_leap_year(a + 1) ==> march_month_days(p) + d1 - 1 <= 364);
    if a == b {
        assert(p < q || (p == q && d1 < d2));
        if p < q {
            assert(march_month_days(p + 1) <= march_month_days(q));
        }
    } else {
        assert(a < b);
        lemma_march_year_step(a);
        lemma_march_year_grows(a + 1, b);
        assert(march_month_days(q) >= 0);
    }
}

/// Two valid UTC times with the same Unix seconds are the same time.
pub proof fn lemma_unix_seconds_injective(a: UtcDateTime, b: UtcDateTime)
    requires
        a.wf(),
        b.wf(),
        a.unix_seconds() == b.unix_seconds(),
    ensures
        a == b,
{
    let da = days_from_civil(a.year as int, a.month as int, a.day as int);
    let db = days_from_civil(b.year as int, b.month as int, b.day as int);
    let ta = a.hour * 3600 + a.minute * 60 + a.second;
    let tb = b.hour * 3600 + b.minute * 60 + b.second;
    assert(0 <= ta < 86400 && 0 <= tb < 86400);
    if (a.year, a.month, a.day) != (b.year, b.month, b.day) {
        if a.year < b.year || (a.year == b.year && a.month < b.month) || (a.year == b.year
            && a.month == b.month && a.day < b.day) {
            lemma_days_strictly_increase(a.year as int, a.month as int, a.day as int, b.year as int, b.month as int, b.day as int);
        } else {
            lemma_days_strictly_increase(b.year as int, b.month as int, b.day as int, a.year as int, a.month as int, a.day as int);
        }
        assert(da != db);
        assert(da * 86400 + ta != db * 86400 + tb);
    }
    assert(da == db);
    assert(ta == tb);
}

/// The run `hours` before `t` is one time: two that meet `spec_run_before`
/// are equal.
pub proof fn lemma_run_before_unique(t: UtcDateTime, hours: int, interval: int, r1: UtcDateTime, r2: UtcDateTime)
    requires
        spec_run_before(t, hours, interval, r1),
        spec_run_before(t, hours, interval, r2),
    ensures
        r1 == r2,
{
    let a1 = choose|a: UtcDateTime|
        #![trigger spec_floor_to_hours(a, interval)]
        a.wf() && a.unix_seconds() == t.unix_seconds() - hours * 3600 && r1 == spec_floor_to_hours(a, interval);
    let a2 = choose|a: UtcDateTime|
        #![trigger spec_floor_to_hours(a, interval)]
        a.wf() && a.unix_seconds() == t.unix_seconds() - hours * 3600 && r2 == spec_floor_to_hours(a, interval);
    lemma_unix_seconds_injective(a1, a2);
}

} // verus!
