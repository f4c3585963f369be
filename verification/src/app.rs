//! The view state of the application core and its read-only rules.

use vstd::prelude::*;

use crate::date::{date_before, CivilDate};
use crate::date::iso_date;
use crate::habit::{progress_percentage, DayProgress, ProjectedHabit, Routine, TodayHabit};
use crate::text::append_str;

verus! {

/// Why a change is refused on the viewed day.
#[derive(Debug, Clone, Copy, PartialEq, Eq, Structural)]
pub enum ReadOnlyDay {
    /// The viewed day is in the past.
    History(CivilDate),
    /// The viewed day is an upcoming preview.
    Future(CivilDate),
}

impl ReadOnlyDay {
    /// The message shown when a change is refused.
    pub fn message(&self) -> (r: String)
        ensures
            r@ == read_only_day_message(*self),
    {
        match self {
            ReadOnlyDay::History(date) => {
                let mut s = date.to_iso_string();
                append_str(&mut s, " is historical and read-only; press t to return to today");
                s
            },
            ReadOnlyDay::Future(date) => {
                let mut s = date.to_iso_string();
                append_str(&mut s, " is an upcoming read-only preview; press t to return to today");
                s
            },
        }
    }
}

pub open spec fn read_only_day_message(r: ReadOnlyDay) -> Seq<char> {
    match r {
        ReadOnlyDay::History(d) => iso_date(d) + " is historical and read-only; press t to return to today"@,
        ReadOnlyDay::Future(d) => iso_date(d) + " is an upcoming read-only preview; press t to return to today"@,
    }
}

/// What the application shows: the current day, the viewed day, the zone that
/// projected the current day, and the rows loaded for the viewed day.
#[derive(Debug)]
pub struct DayView {
    pub today: CivilDate,
    pub selected_date: CivilDate,
    pub timezone_name: String,
    pub habits: Vec<TodayHabit>,
    pub projected_habits: Vec<ProjectedHabit>,
    pub routines: Vec<Routine>,
    pub contributions: Vec<DayProgress>,
}

/// The number of completed habits among the first `n`.
pub open spec fn completed_among(habits: Seq<TodayHabit>, n: int) -> nat
    decreases n,
{
    if n <= 0 {
        0
    } else {
        completed_among(habits, n - 1) + if habits[n - 1].completed { 1nat } else { 0nat }
    }
}

pub open spec fn completed_total(habits: Seq<TodayHabit>) -> nat {
    completed_among(habits, habits.len() as int)
}

proof fn lemma_completed_among_bound(habits: Seq<TodayHabit>, n: int)
    requires
        0 <= n <= habits.len(),
    ensures
        completed_among(habits, n) <= n,
    decreases n,
{
    if n > 0 {
        lemma_completed_among_bound(habits, n - 1);
    }
}

/// Whether a change may be made on `selected` when the current day is
/// `today`: only the current day is writable.
pub open spec fn write_permission(selected: CivilDate, today: CivilDate) -> Result<(), ReadOnlyDay> {
    if selected == today {
        Ok(())
    } else if date_before(today, selected) {
        Err(ReadOnlyDay::Future(selected))
    } else {
        Err(ReadOnlyDay::History(selected))
    }
}

impl DayView {
    /// A view of `today` with nothing loaded yet.
    pub fn new(today: CivilDate, timezone_name: String) -> (r: DayView)
        ensures
            r.today == today,
            r.selected_date == today,
            r.timezone_name@ == timezone_name@,
            r.habits@.len() == 0,
            r.projected_habits@.len() == 0,
            r.routines@.len() == 0,
            r.contributions@.len() == 0,
    {
        DayView {
            today,
            selected_date: today,
            timezone_name,
            habits: Vec::new(),
            projected_habits: Vec::new(),
            routines: Vec::new(),
            contributions: Vec::new(),
        }
    }

    pub fn is_viewing_today(&self) -> (r: bool)
        ensures
            r == (self.selected_date == self.today),
    {
        self.selected_date.same_day(&self.today)
    }

    pub fn is_viewing_future(&self) -> (r: bool)
        ensures
            r == date_before(self.today, self.selected_date),
    {
        self.today.is_before(&self.selected_date)
    }

    /// The number of completed habits of the viewed day.
    pub fn completed_count(&self) -> (r: usize)
        ensures
            r == completed_total(self.habits@),
    {
        let mut count: usize = 0;
        let mut i: usize = 0;
        while i < self.habits.len()
            invariant
                i <= self.habits@.len(),
                count == completed_among(self.habits@, i as int),
            decreases self.habits@.len() - i,
        {
            proof {
                lemma_completed_among_bound(self.habits@, i as int);
            }
            if self.habits[i].completed {
                count = count + 1;
            }
            i = i + 1;
        }
        count
    }

    /// The percentage of the viewed day's habits that are completed, zero
    /// when none is scheduled.
    pub fn completion_percentage(&self) -> (r: u16)
        requires
            completed_total(self.habits@) * 100 <= usize::MAX,
        ensures
            r == progress_percentage(self.habits@.len() as usize, completed_total(self.habits@) as usize),
            r <= 100,
    {
        proof {
            lemma_completed_among_bound(self.habits@, self.habits@.len() as int);
        }
        let progress = DayProgress {
            date: self.today,
            scheduled: self.habits.len(),
            completed: self.completed_count(),
        };
        progress.percentage()
    }

    /// Refuses a change unless the viewed day is the current day.
    pub fn require_today(&self) -> (r: Result<(), ReadOnlyDay>)
        ensures
            r == write_permission(self.selected_date, self.today),
    {
        if self.is_viewing_today() {
            Ok(())
        } else if self.is_viewing_future() {
            Err(ReadOnlyDay::Future(self.selected_date))
        } else {
            Err(ReadOnlyDay::History(self.selected_date))
        }
    }

    /// Moves to a newly observed current day and zone. Returns whether
    /// anything changed; a view that followed the current day keeps
    /// following it, a view of another day stays there. Afterwards the view
    /// holds the observed day and zone, so observing them again changes
    /// nothing.
    pub fn roll_over(&mut self, today: CivilDate, timezone_name: &str) -> (changed: bool)
        ensures
            changed == !(today == old(self).today && timezone_name@ == old(self).timezone_name@),
            final(self).today == today,
            final(self).timezone_name@ == timezone_name@,
            final(self).today == (if changed { today } else { old(self).today }),
            final(self).selected_date == (if changed && old(self).selected_date == old(
                self,
            ).today {
                today
            } else {
                old(self).selected_date
            }),
            final(self).timezone_name@ == (if changed { timezone_name@ } else {
                old(self).timezone_name@
            }),
            final(self).habits == old(self).habits,
            final(self).projected_habits == old(self).projected_habits,
            final(self).routines == old(self).routines,
            final(self).contributions == old(self).contributions,
    {
        if today.same_day(&self.today) && crate::text::str_eq(
            timezone_name,
            self.timezone_name.as_str(),
        ) {
            return false;
        }
        let was_viewing_today = self.is_viewing_today();
        self.today = today;
        if was_viewing_today {
            self.selected_date = today;
        }
        self.timezone_name = timezone_name.to_string();
        true
    }

    /// Views another day.
    pub fn select_date(&mut self, date: CivilDate)
        ensures
            final(self).selected_date == date,
            final(self).today == old(self).today,
            final(self).timezone_name@ == old(self).timezone_name@,
            final(self).habits == old(self).habits,
            final(self).projected_habits == old(self).projected_habits,
            final(self).routines == old(self).routines,
            final(self).contributions == old(self).contributions,
    {
        self.selected_date = date;
    }
}

/// Only the current day is writable: a refusal names the viewed day, and says
/// whether it lies in the future or in the past.
pub proof fn lemma_only_today_is_writable(selected: CivilDate, today: CivilDate)
    ensures
        write_permission(selected, today) is Ok <==> selected == today,
        write_permission(selected, today) matches Err(ReadOnlyDay::Future(d)) ==> d == selected
            && date_before(today, selected),
        write_permission(selected, today) matches Err(ReadOnlyDay::History(d)) ==> d == selected
            && !date_before(today, selected) && selected != today,
{
}

} // verus!
