//! Due dates of repeating goals.

use crate::text::{opt, str_eq};
use vstd::prelude::*;

verus! {

/// The seconds of a day.
pub const DAY: i64 = 86400;

/// The first and the last second that `chrono` can represent.
pub open spec fn is_time(secs: int) -> bool {
    -8_334_601_228_800 <= secs <= 8_210_266_876_799
}

/// The time in UTC, in seconds since the epoch. Calls `chrono::Utc::now` and
/// `DateTime::timestamp`; the result is some time that `chrono` can represent.
#[verifier::external_body]
pub(crate) fn utc_seconds() -> (r: i64)
    ensures
        is_time(r as int),
{
    chrono::Utc::now().timestamp()
}

/// A time in the notation of RFC 3339, in whole seconds and with a `Z`; `None`
/// for a time that cannot be represented.
pub uninterp spec fn rfc3339(secs: int) -> Option<Seq<char>>;

/// Calls `chrono::DateTime::from_timestamp` and `DateTime::to_rfc3339_opts` with
/// whole seconds and a `Z`. The text depends on the time alone and is named by
/// `rfc3339`; it is there for every time that `chrono` can represent.
#[verifier::external_body]
pub(crate) fn to_rfc3339(secs: i64) -> (r: Option<String>)
    ensures
        opt(r) == rfc3339(secs as int),
        is_time(secs as int) ==> r is Some,
{
    let t = chrono::DateTime::from_timestamp(secs, 0)?;
    Some(t.to_rfc3339_opts(chrono::SecondsFormat::Secs, true))
}

/// The days after which a goal with a repeat rule is due again.
pub open spec fn repeat_days(rule: Seq<char>) -> Option<int> {
    if rule == "daily"@ {
        Some(1)
    } else if rule == "weekly"@ {
        Some(7)
    } else if rule == "monthly"@ {
        Some(30)
    } else if rule == "yearly"@ {
        Some(365)
    } else {
        None
    }
}

/// The next due date of a goal that is done at a time: some days later; none for
/// a rule that is not known.
pub open spec fn due_after(rule: Seq<char>, now: int) -> Option<Seq<char>> {
    match repeat_days(rule) {
        Some(d) => rfc3339(now + d * 86400),
        None => None,
    }
}

/// The days after which a rule repeats.
pub fn days_of(rule: &str) -> (r: Option<i64>)
    ensures
        match r {
            Some(d) => repeat_days(rule@) == Some(d as int) && 0 < d <= 365,
            None => repeat_days(rule@) is None,
        },
{
    if str_eq(rule, "daily") {
        Some(1)
    } else if str_eq(rule, "weekly") {
        Some(7)
    } else if str_eq(rule, "monthly") {
        Some(30)
    } else if str_eq(rule, "yearly") {
        Some(365)
    } else {
        None
    }
}

/// The next due date of a goal that is done at a time.
pub fn next_due_at(rule: &str, now: i64) -> (r: Option<String>)
    requires
        is_time(now as int),
    ensures
        opt(r) == due_after(rule@, now as int),
{
    match days_of(rule) {
        Some(d) => to_rfc3339(now + d * DAY),
        None => None,
    }
}

/// The next due date of a goal that is done now.
pub fn next_due_for_repeat(rule: &str) -> (r: Option<String>)
    ensures
        exists|now: int| #[trigger] is_time(now) && opt(r) == due_after(rule@, now),
        r is Some ==> repeat_days(rule@) is Some,
{
    let now: i64 = utc_seconds();
    let r = next_due_at(rule, now);
    assert(is_time(now as int) && opt(r) == due_after(rule@, now as int));
    r
}

/// A known rule always leads to a later due date, an unknown one to none, as
/// long as that date can be represented.
pub proof fn law_known_rules_move_the_due_date(rule: Seq<char>)
    ensures
        repeat_days(rule) is Some ==> repeat_days(rule)->0 > 0,
        repeat_days(rule) is None ==> forall|now: int| #[trigger] due_after(rule, now) is None,
{
}

} // verus!
