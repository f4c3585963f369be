//! The decisions of the storage layer that do not touch SQLite: the identity
//! guard that keeps personal, development and test data apart, the days that
//! a daily schedule still lacks occurrences for, and the completion flip of a
//! binary occurrence.

use vstd::prelude::*;

use crate::config::{environment_label, environment_named, DataEnvironment};
use crate::date::{date_before, date_parts, is_valid_date, next_day, parts_before, CivilDate};

verus! {

/// The key under which a database stores its environment identity.
pub const ENVIRONMENT_KEY: &'static str = "data_environment";

/// What opening a database must do about its identity.
#[derive(Debug, Clone, Copy, PartialEq, Eq, Structural)]
pub enum IdentityAction {
    /// The stored identity is the expected one; nothing is written.
    Accept,
    /// Nothing is stored yet; the expected identity is recorded.
    Record(DataEnvironment),
}

/// Why a database may not be opened in the requested environment.
#[derive(Debug)]
pub enum IdentityError {
    /// The stored identity names no environment.
    Invalid(String),
    /// The stored identity names another environment.
    Mismatch { expected: DataEnvironment, actual: DataEnvironment },
}

/// What the guard allows for the identity stored in a database, if any: a
/// new database records the expected identity; an existing one is accepted
/// only when its identity is exactly the expected one, and is never
/// rewritten; `None` is a refusal.
pub open spec fn identity_decision(stored: Option<Seq<char>>, expected: DataEnvironment) -> Option<
    IdentityAction,
> {
    match stored {
        None => Some(IdentityAction::Record(expected)),
        Some(s) => if environment_named(s) == Some(expected) {
            Some(IdentityAction::Accept)
        } else {
            None
        },
    }
}

pub open spec fn stored_view(stored: Option<&str>) -> Option<Seq<char>> {
    match stored {
        Some(s) => Some(s@),
        None => None,
    }
}

/// The identity guard, with the reason for each refusal.
pub fn check_environment_identity(stored: Option<&str>, expected: DataEnvironment) -> (r: Result<
    IdentityAction,
    IdentityError,
>)
    ensures
        r is Ok <==> identity_decision(stored_view(stored), expected) is Some,
        r matches Ok(a) ==> identity_decision(stored_view(stored), expected) == Some(a),
        stored matches Some(s) ==> match environment_named(s@) {
            None => r matches Err(IdentityError::Invalid(v)) && v@ == s@,
            Some(actual) => actual != expected ==> (r matches Err(
                IdentityError::Mismatch { expected: e, actual: a },
            ) && e == expected && a == actual),
        },
{
    match stored {
        None => Ok(IdentityAction::Record(expected)),
        Some(s) => match DataEnvironment::parse(s) {
            Err(_) => Err(IdentityError::Invalid(s.to_string())),
            Ok(actual) => {
                if actual == expected {
                    Ok(IdentityAction::Accept)
                } else {
                    Err(IdentityError::Mismatch { expected, actual })
                }
            },
        },
    }
}

/// Opening a database never accepts data of another environment: the guard
/// accepts only the expected identity, records an identity only where none
/// is stored, and then only the expected one.
pub proof fn lemma_identity_guard_isolates(stored: Option<Seq<char>>, expected: DataEnvironment)
    ensures
        identity_decision(stored, expected) == Some(IdentityAction::Accept) ==> stored == Some(
            environment_label(expected),
        ),
        identity_decision(stored, expected) matches Some(IdentityAction::Record(e)) ==> stored is None
            && e == expected,
{
    reveal_strlit("personal");
    reveal_strlit("development");
    reveal_strlit("test");
}

/// The identity label of a stored value, when it is one of the three.
pub fn environment_identity(value: &str) -> (r: Option<&'static str>)
    ensures
        r matches Some(label) ==> environment_named(value@) matches Some(e) && label@
            == environment_label(e) && label@ == value@,
        r is None <==> environment_named(value@) is None,
{
    match DataEnvironment::parse(value) {
        Ok(environment) => {
            let label = environment.as_str();
            proof {
                reveal_strlit("personal");
                reveal_strlit("development");
                reveal_strlit("test");
            }
            Some(label)
        },
        Err(_) => None,
    }
}

/// The stored completion flag after a toggle: `1` for an occurrence stored as
/// `0`, and `0` for any other value.
pub open spec fn toggled(completed: i64) -> i64 {
    if completed == 0 {
        1
    } else {
        0
    }
}

pub fn toggled_completion(completed: i64) -> (r: i64)
    ensures
        r == toggled(completed),
{
    if completed == 0 {
        1
    } else {
        0
    }
}

/// Toggling a binary occurrence twice restores it.
pub proof fn lemma_toggle_twice(completed: i64)
    requires
        completed == 0 || completed == 1,
    ensures
        toggled(toggled(completed)) == completed,
{
}

/// The days that a daily schedule still lacks occurrences for, through
/// `today`: from its start, or the day after its latest occurrence if that is
/// later, to its end, or `today` if that is earlier. `None` when that range is
/// empty, and when the latest occurrence is the last representable day.
pub open spec fn pending_days(
    starts_on: CivilDate,
    ends_on: Option<CivilDate>,
    latest: Option<CivilDate>,
    today: CivilDate,
) -> Option<((int, int, int), (int, int, int))> {
    let start = date_parts(starts_on);
    let resume = match latest {
        None => Some(start),
        Some(l) => match next_day(l) {
            None => None,
            Some(n) => Some(if parts_before(start, n) { n } else { start }),
        },
    };
    let stop = match ends_on {
        Some(e) => if date_before(e, today) { date_parts(e) } else { date_parts(today) },
        None => date_parts(today),
    };
    match resume {
        None => None,
        Some(first) => if parts_before(stop, first) { None } else { Some((first, stop)) },
    }
}

/// The first and last day of `pending_days`.
pub fn pending_occurrence_days(
    starts_on: CivilDate,
    ends_on: Option<CivilDate>,
    latest: Option<CivilDate>,
    today: CivilDate,
) -> (r: Option<(CivilDate, CivilDate)>)
    ensures
        r is None <==> pending_days(starts_on, ends_on, latest, today) is None,
        r matches Some((first, last)) ==> pending_days(starts_on, ends_on, latest, today) == Some(
            (date_parts(first), date_parts(last)),
        ),
{
    let first = match latest {
        None => starts_on,
        Some(l) => match l.tomorrow() {
            None => {
                return None;
            },
            Some(n) => if starts_on.is_before(&n) {
                n
            } else {
                starts_on
            },
        },
    };
    let last = match ends_on {
        Some(e) => if e.is_before(&today) {
            e
        } else {
            today
        },
        None => today,
    };
    if last.is_before(&first) {
        None
    } else {
        Some((first, last))
    }
}

/// Materialization happens once: the pending days never start before the
/// schedule or end after `today` or the schedule's end, and once occurrences
/// exist through the last pending day, no day is pending any more.
pub proof fn lemma_pending_days_once(
    starts_on: CivilDate,
    ends_on: Option<CivilDate>,
    latest: Option<CivilDate>,
    today: CivilDate,
    through: CivilDate,
)
    requires
        is_valid_date(through.year_spec() as int, through.month_spec() as int, through.day_spec() as int),
        pending_days(starts_on, ends_on, latest, today) matches Some((first, last)) && date_parts(
            through,
        ) == last,
    ensures
        pending_days(starts_on, ends_on, latest, today) matches Some((first, last)) && !parts_before(
            first,
            date_parts(starts_on),
        ) && !parts_before(date_parts(today), last) && (ends_on matches Some(e) ==> !parts_before(
            date_parts(e),
            last,
        )),
        pending_days(starts_on, ends_on, Some(through), today) is None,
{
}

} // verus!
