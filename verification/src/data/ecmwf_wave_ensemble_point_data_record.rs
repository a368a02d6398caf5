//! The checks on the members of an ECMWF ensemble before they are
//! summarised together.

use vstd::prelude::*;

use crate::data::ecmwf_field::ForecastMember;
use crate::data::ecmwf_wave_point_data_record::{date_text, push_date_text};
use crate::data::parseable_data_record::DataRecordParsingError;
use crate::text::push_str;
use crate::time::UtcDateTime;

verus! {

/// The first member, from `k` on, whose valid time differs from the first
/// member's.
pub open spec fn first_other_date(s: Seq<(ForecastMember, UtcDateTime)>, k: int) -> Option<int>
    decreases s.len() - k,
{
    if k < 0 || k >= s.len() {
        None
    } else if s[k].1 != s[0].1 {
        Some(k)
    } else {
        first_other_date(s, k + 1)
    }
}

/// What checking the members `s` (each record's member and valid time)
/// gives: none is an error; then members at different valid times, the
/// first that differs reported; then a deterministic record among them.
pub open spec fn members_checked(r: Result<(), DataRecordParsingError>, s: Seq<(ForecastMember, UtcDateTime)>) -> bool {
    if s.len() == 0 {
        r matches Err(DataRecordParsingError::InvalidData)
    } else {
        match first_other_date(s, 0) {
            Some(k) => r matches Err(DataRecordParsingError::ParseFailure(t)) && t@
                == "members have different valid times: "@ + date_text(s[0].1) + " and "@ + date_text(
                s[k].1,
            ),
            None => if exists|k: int| 0 <= k < s.len() && (#[trigger] s[k]).0 == ForecastMember::Deterministic {
                r matches Err(DataRecordParsingError::ParseFailure(t)) && t@
                    == "deterministic records are not ensemble members"@
            } else {
                r is Ok
            },
        }
    }
}

fn same_date(a: &UtcDateTime, b: &UtcDateTime) -> (r: bool)
    ensures
        r == (*a == *b),
{
    a.year == b.year && a.month == b.month && a.day == b.day && a.hour == b.hour && a.minute
        == b.minute && a.second == b.second
}

/// Whether the members, given as each record's member and valid time, can
/// be summarised together: there is at least one, all are at the same
/// valid time, and none is a deterministic forecast.
pub fn check_members(members: &Vec<(ForecastMember, UtcDateTime)>) -> (r: Result<(), DataRecordParsingError>)
    ensures
        members_checked(r, members@),
{
    let ghost s = members@;
    if members.len() == 0 {
        return Err(DataRecordParsingError::InvalidData);
    }
    let first = members[0].1;
    let mut k: usize = 0;
    while k < members.len()
        invariant
            k <= members.len(),
            s == members@,
            s.len() > 0,
            first == s[0].1,
            first_other_date(s, 0) == first_other_date(s, k as int),
        decreases members.len() - k,
    {
        if !same_date(&members[k].1, &first) {
            let mut t = String::new();
            push_str(&mut t, "members have different valid times: ");
            push_date_text(&mut t, &first);
            push_str(&mut t, " and ");
            push_date_text(&mut t, &members[k].1);
            proof {
                assert(t@ =~= "members have different valid times: "@ + date_text(s[0].1) + " and "@
                    + date_text(s[k as int].1));
            }
            return Err(DataRecordParsingError::ParseFailure(t));
        }
        k += 1;
    }
    let mut j: usize = 0;
    while j < members.len()
        invariant
            j <= members.len(),
            s == members@,
            s.len() > 0,
            first_other_date(s, 0) is None,
            forall|i: int| 0 <= i < j ==> (#[trigger] s[i]).0 != ForecastMember::Deterministic,
        decreases members.len() - j,
    {
        match members[j].0 {
            ForecastMember::Deterministic => {
                let mut t = String::new();
                push_str(&mut t, "deterministic records are not ensemble members");
                proof {
                    assert(s[j as int].0 == ForecastMember::Deterministic);
                    assert(t@ =~= "deterministic records are not ensemble members"@);
                }
                return Err(DataRecordParsingError::ParseFailure(t));
            },
            _ => {},
        }
        j += 1;
    }
    Ok(())
}

} // verus!
