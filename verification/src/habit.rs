//! Habit and routine names, the rows of a day, and daily progress.

use vstd::prelude::*;

use crate::date::CivilDate;
use crate::text::{
    append_decimal, append_str, contains_control, decimal, has_control, is_white_space,
    lemma_trim_idempotent, lemma_trim_shape, trim, trim_chars,
};

verus! {

pub const MAX_HABIT_NAME_CHARS: usize = 80;

pub const MAX_ROUTINE_NAME_CHARS: usize = 40;

/// A name that `parse` accepts with the given maximum: what is left after
/// trimming is non-empty, at most `maximum` characters long and free of
/// control characters.
pub open spec fn name_accepted(trimmed: Seq<char>, maximum: nat) -> bool {
    &&& trimmed.len() > 0
    &&& trimmed.len() <= maximum
    &&& !has_control(trimmed)
}

/// A stored name: accepted, and equal to its own trimming.
pub open spec fn is_normalized_name(s: Seq<char>, maximum: nat) -> bool {
    name_accepted(s, maximum) && trim_chars(s) == s
}

/// Why a name is refused, checked in this order: empty after trimming, too
/// long, holding a control character.
pub enum NameRefusal {
    Empty,
    TooLong,
    ControlCharacter,
}

pub open spec fn name_refusal(trimmed: Seq<char>, maximum: nat) -> Option<NameRefusal> {
    if trimmed.len() == 0 {
        Some(NameRefusal::Empty)
    } else if trimmed.len() > maximum {
        Some(NameRefusal::TooLong)
    } else if has_control(trimmed) {
        Some(NameRefusal::ControlCharacter)
    } else {
        None
    }
}

/// The name of a habit: trimmed, non-empty, at most eighty characters and
/// free of control characters.
#[derive(Debug)]
pub struct HabitName(String);

impl Clone for HabitName {
    fn clone(&self) -> (r: Self)
        ensures
            r@ == self@,
    {
        proof {
            use_type_invariant(self);
        }
        HabitName(self.0.clone())
    }
}

impl View for HabitName {
    type V = Seq<char>;

    closed spec fn view(&self) -> Seq<char> {
        self.0@
    }
}

#[derive(Debug, Clone, PartialEq, Eq, Structural)]
pub enum HabitNameError {
    Empty,
    TooLong { maximum: usize },
    ControlCharacter,
}

impl HabitName {
    #[verifier::type_invariant]
    spec fn wf(self) -> bool {
        is_normalized_name(self.0@, MAX_HABIT_NAME_CHARS as nat)
    }

    /// Trims `value` and accepts it as a habit name, or says why not.
    pub fn parse(value: &str) -> (r: Result<HabitName, HabitNameError>)
        ensures
            r is Ok <==> name_accepted(trim_chars(value@), MAX_HABIT_NAME_CHARS as nat),
            r matches Ok(name) ==> name@ == trim_chars(value@),
            r matches Err(e) ==> match name_refusal(trim_chars(value@), MAX_HABIT_NAME_CHARS as nat) {
                Some(NameRefusal::Empty) => e == HabitNameError::Empty,
                Some(NameRefusal::TooLong) => e == (HabitNameError::TooLong {
                    maximum: MAX_HABIT_NAME_CHARS,
                }),
                Some(NameRefusal::ControlCharacter) => e == HabitNameError::ControlCharacter,
                None => false,
            },
    {
        let trimmed = trim(value);
        proof {
            lemma_trim_idempotent(value@);
        }
        let length = trimmed.as_str().unicode_len();
        if length == 0 {
            return Err(HabitNameError::Empty);
        }
        if length > MAX_HABIT_NAME_CHARS {
            return Err(HabitNameError::TooLong { maximum: MAX_HABIT_NAME_CHARS });
        }
        if contains_control(trimmed.as_str()) {
            return Err(HabitNameError::ControlCharacter);
        }
        Ok(HabitName(trimmed))
    }

    /// The name's text.
    pub fn as_str(&self) -> (r: &str)
        ensures
            r@ == self@,
            is_normalized_name(r@, MAX_HABIT_NAME_CHARS as nat),
    {
        proof {
            use_type_invariant(self);
        }
        self.0.as_str()
    }
}

impl HabitNameError {
    /// The message shown for this error.
    pub fn message(&self) -> (r: String)
        ensures
            r@ == habit_name_error_message(*self),
    {
        let mut s = String::new();
        match self {
            HabitNameError::Empty => append_str(&mut s, "habit name cannot be empty"),
            HabitNameError::TooLong { maximum } => {
                append_str(&mut s, "habit name cannot exceed ");
                append_decimal(&mut s, *maximum as u64);
                append_str(&mut s, " characters");
            },
            HabitNameError::ControlCharacter => append_str(
                &mut s,
                "habit name cannot contain control characters",
            ),
        }
        s
    }
}

pub open spec fn habit_name_error_message(e: HabitNameError) -> Seq<char> {
    match e {
        HabitNameError::Empty => "habit name cannot be empty"@,
        HabitNameError::TooLong { maximum } => "habit name cannot exceed "@ + decimal(
            maximum as nat,
        ) + " characters"@,
        HabitNameError::ControlCharacter => "habit name cannot contain control characters"@,
    }
}

/// The name of a routine: trimmed, non-empty, at most forty characters and
/// free of control characters.
#[derive(Debug)]
pub struct RoutineName(String);

impl Clone for RoutineName {
    fn clone(&self) -> (r: Self)
        ensures
            r@ == self@,
    {
        proof {
            use_type_invariant(self);
        }
        RoutineName(self.0.clone())
    }
}

impl View for RoutineName {
    type V = Seq<char>;

    closed spec fn view(&self) -> Seq<char> {
        self.0@
    }
}

#[derive(Debug, Clone, PartialEq, Eq, Structural)]
pub enum RoutineNameError {
    Empty,
    TooLong { maximum: usize },
    ControlCharacter,
}

impl RoutineName {
    #[verifier::type_invariant]
    spec fn wf(self) -> bool {
        is_normalized_name(self.0@, MAX_ROUTINE_NAME_CHARS as nat)
    }

    /// Trims `value` and accepts it as a routine name, or says why not.
    pub fn parse(value: &str) -> (r: Result<RoutineName, RoutineNameError>)
        ensures
            r is Ok <==> name_accepted(trim_chars(value@), MAX_ROUTINE_NAME_CHARS as nat),
            r matches Ok(name) ==> name@ == trim_chars(value@),
            r matches Err(e) ==> match name_refusal(trim_chars(value@), MAX_ROUTINE_NAME_CHARS as nat) {
                Some(NameRefusal::Empty) => e == RoutineNameError::Empty,
                Some(NameRefusal::TooLong) => e == (RoutineNameError::TooLong {
                    maximum: MAX_ROUTINE_NAME_CHARS,
                }),
                Some(NameRefusal::ControlCharacter) => e == RoutineNameError::ControlCharacter,
                None => false,
            },
    {
        let trimmed = trim(value);
        proof {
            lemma_trim_idempotent(value@);
        }
        let length = trimmed.as_str().unicode_len();
        if length == 0 {
            return Err(RoutineNameError::Empty);
        }
        if length > MAX_ROUTINE_NAME_CHARS {
            return Err(RoutineNameError::TooLong { maximum: MAX_ROUTINE_NAME_CHARS });
        }
        if contains_control(trimmed.as_str()) {
            return Err(RoutineNameError::ControlCharacter);
        }
        Ok(RoutineName(trimmed))
    }

    /// The name's text.
    pub fn as_str(&self) -> (r: &str)
        ensures
            r@ == self@,
            is_normalized_name(r@, MAX_ROUTINE_NAME_CHARS as nat),
    {
        proof {
            use_type_invariant(self);
        }
        self.0.as_str()
    }
}

impl RoutineNameError {
    /// The message shown for this error.
    pub fn message(&self) -> (r: String)
        ensures
            r@ == routine_name_error_message(*self),
    {
        let mut s = String::new();
        match self {
            RoutineNameError::Empty => append_str(&mut s, "routine name cannot be empty"),
            RoutineNameError::TooLong { maximum } => {
                append_str(&mut s, "routine name cannot exceed ");
                append_decimal(&mut s, *maximum as u64);
                append_str(&mut s, " characters");
            },
            RoutineNameError::ControlCharacter => append_str(
                &mut s,
                "routine name cannot contain control characters",
            ),
        }
        s
    }
}

pub open spec fn routine_name_error_message(e: RoutineNameError) -> Seq<char> {
    match e {
        RoutineNameError::Empty => "routine name cannot be empty"@,
        RoutineNameError::TooLong { maximum } => "routine name cannot exceed "@ + decimal(
            maximum as nat,
        ) + " characters"@,
        RoutineNameError::ControlCharacter => "routine name cannot contain control characters"@,
    }
}

/// Parsing the text of an accepted habit name gives the same name back.
pub proof fn lemma_habit_name_reparses(s: Seq<char>)
    requires
        name_accepted(trim_chars(s), MAX_HABIT_NAME_CHARS as nat),
    ensures
        name_accepted(trim_chars(trim_chars(s)), MAX_HABIT_NAME_CHARS as nat),
        trim_chars(trim_chars(s)) == trim_chars(s),
{
    lemma_trim_idempotent(s);
}

/// Parsing the text of an accepted routine name gives the same name back.
pub proof fn lemma_routine_name_reparses(s: Seq<char>)
    requires
        name_accepted(trim_chars(s), MAX_ROUTINE_NAME_CHARS as nat),
    ensures
        name_accepted(trim_chars(trim_chars(s)), MAX_ROUTINE_NAME_CHARS as nat),
        trim_chars(trim_chars(s)) == trim_chars(s),
{
    lemma_trim_idempotent(s);
}

/// An accepted name neither starts nor ends with white space.
pub proof fn lemma_accepted_name_has_no_outer_space(s: Seq<char>, maximum: nat)
    requires
        name_accepted(trim_chars(s), maximum),
    ensures
        !is_white_space(trim_chars(s)[0]),
        !is_white_space(trim_chars(s).last()),
{
    lemma_trim_shape(s);
}

/// A routine as the application shows it.
#[derive(Debug)]
pub struct Routine {
    pub id: i64,
    pub name: String,
}

/// The mathematical value of a routine.
pub struct RoutineView {
    pub id: i64,
    pub name: Seq<char>,
}

impl View for Routine {
    type V = RoutineView;

    open spec fn view(&self) -> RoutineView {
        RoutineView { id: self.id, name: self.name@ }
    }
}

/// The views of a list of routines.
pub open spec fn routine_views(rs: Seq<Routine>) -> Seq<RoutineView> {
    rs.map_values(|r: Routine| r@)
}

impl Clone for Routine {
    fn clone(&self) -> (r: Self)
        ensures
            r@ == self@,
    {
        Routine { id: self.id, name: self.name.clone() }
    }
}

/// A habit scheduled on the viewed day, with its occurrence row.
#[derive(Debug, Clone)]
pub struct TodayHabit {
    pub occurrence_id: i64,
    pub habit_id: i64,
    pub name: String,
    pub completed: bool,
    pub routines: Vec<Routine>,
}

/// A habit that a future day's schedule will produce.
#[derive(Debug, Clone)]
pub struct ProjectedHabit {
    pub habit_id: i64,
    pub name: String,
    pub routines: Vec<Routine>,
}

/// How many habits were scheduled on a day, and how many were completed.
#[derive(Debug, Clone, Copy, PartialEq, Eq, Structural)]
pub struct DayProgress {
    pub date: CivilDate,
    pub scheduled: usize,
    pub completed: usize,
}

/// The completion percentage of a day: `completed * 100` (saturating at the
/// largest `usize`) divided by `scheduled`, zero for an unscheduled day, and
/// narrowed to `u16`.
pub open spec fn progress_percentage(scheduled: usize, completed: usize) -> u16 {
    if scheduled == 0 {
        0
    } else {
        let scaled = if completed * 100 > usize::MAX {
            usize::MAX as int
        } else {
            completed * 100
        };
        (scaled / (scheduled as int)) as u16
    }
}

impl DayProgress {
    /// The day's completion percentage.
    pub fn percentage(&self) -> (r: u16)
        ensures
            r == progress_percentage(self.scheduled, self.completed),
            self.completed <= self.scheduled ==> r <= 100,
    {
        let scaled: usize = if self.completed > usize::MAX / 100 {
            usize::MAX
        } else {
            self.completed * 100
        };
        if self.scheduled == 0 {
            0
        } else {
            let q = scaled / self.scheduled;
            proof {
                if self.completed <= self.scheduled {
                    assert(self.completed * 100 <= self.scheduled * 100) by (nonlinear_arith)
                        requires
                            self.completed <= self.scheduled,
                    ;
                    assert((scaled as int) / (self.scheduled as int) <= 100) by (nonlinear_arith)
                        requires
                            scaled <= self.scheduled * 100,
                            self.scheduled > 0,
                    ;
                }
            }
            q as u16
        }
    }
}

} // verus!
