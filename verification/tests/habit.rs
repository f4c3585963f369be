use ippo::date::CivilDate;
use ippo::habit::{
    DayProgress, HabitName, HabitNameError, RoutineName, RoutineNameError, MAX_HABIT_NAME_CHARS,
    MAX_ROUTINE_NAME_CHARS,
};

#[test]
fn habit_name_is_trimmed_and_validated() {
    assert_eq!(HabitName::parse("  read  ").unwrap().as_str(), "read");
    assert_eq!(HabitName::parse("   ").unwrap_err(), HabitNameError::Empty);
    assert!(matches!(
        HabitName::parse(&"a".repeat(MAX_HABIT_NAME_CHARS + 1)),
        Err(HabitNameError::TooLong { .. })
    ));
}

#[test]
fn routine_name_is_trimmed_and_validated() {
    assert_eq!(
        RoutineName::parse("  morning  ").unwrap().as_str(),
        "morning"
    );
    assert_eq!(
        RoutineName::parse("   ").unwrap_err(),
        RoutineNameError::Empty
    );
    assert!(matches!(
        RoutineName::parse(&"a".repeat(MAX_ROUTINE_NAME_CHARS + 1)),
        Err(RoutineNameError::TooLong { .. })
    ));
}

#[test]
fn day_progress_preserves_percentage_intensity() {
    let progress = DayProgress {
        date: CivilDate::new(2026, 8, 24).unwrap(),
        scheduled: 8,
        completed: 3,
    };

    assert_eq!(progress.percentage(), 37);
    assert_eq!(
        DayProgress {
            date: progress.date,
            scheduled: 0,
            completed: 0,
        }
        .percentage(),
        0
    );
}

#[test]
fn names_at_the_limit_are_accepted_and_one_more_is_refused() {
    let at_limit = "b".repeat(MAX_HABIT_NAME_CHARS);
    assert_eq!(HabitName::parse(&at_limit).unwrap().as_str(), at_limit);
    assert_eq!(
        HabitName::parse(&"b".repeat(MAX_HABIT_NAME_CHARS + 1)).unwrap_err(),
        HabitNameError::TooLong { maximum: 80 }
    );
    let routine = "c".repeat(MAX_ROUTINE_NAME_CHARS);
    assert_eq!(RoutineName::parse(&routine).unwrap().as_str(), routine);
    assert_eq!(
        RoutineName::parse(&"c".repeat(41)).unwrap_err(),
        RoutineNameError::TooLong { maximum: 40 }
    );
}

#[test]
fn surrounding_spaces_do_not_count_toward_the_limit() {
    let padded = format!("   {}\t\n", "d".repeat(MAX_HABIT_NAME_CHARS));
    assert_eq!(HabitName::parse(&padded).unwrap().as_str().chars().count(), 80);
}

#[test]
fn control_characters_are_refused_inside_a_name() {
    assert_eq!(
        HabitName::parse("read\u{7}books").unwrap_err(),
        HabitNameError::ControlCharacter
    );
    assert_eq!(
        RoutineName::parse("eve\u{9f}ning").unwrap_err(),
        RoutineNameError::ControlCharacter
    );
    // A tab inside a name is a control character; at the ends it is trimmed.
    assert_eq!(
        HabitName::parse("a\tb").unwrap_err(),
        HabitNameError::ControlCharacter
    );
    assert_eq!(HabitName::parse("\tab\t").unwrap().as_str(), "ab");
}

#[test]
fn unicode_white_space_is_trimmed() {
    assert_eq!(
        HabitName::parse("\u{3000}\u{a0}walk\u{2003}\u{85}").unwrap().as_str(),
        "walk"
    );
    assert_eq!(
        HabitName::parse("\u{2028}\u{202f}").unwrap_err(),
        HabitNameError::Empty
    );
    // Characters that are not white space stay.
    assert_eq!(HabitName::parse("\u{200b}x").unwrap().as_str(), "\u{200b}x");
}

#[test]
fn an_accepted_name_parses_back_to_itself() {
    for raw in ["  read  ", "stretch", "\u{3000}drink water ", "ü ber"] {
        let name = HabitName::parse(raw).unwrap();
        let again = HabitName::parse(name.as_str()).unwrap();
        assert_eq!(again.as_str(), name.as_str());
    }
    let routine = RoutineName::parse(" evening ").unwrap();
    assert_eq!(
        RoutineName::parse(routine.as_str()).unwrap().as_str(),
        "evening"
    );
}

#[test]
fn name_errors_have_their_messages() {
    assert_eq!(HabitNameError::Empty.message(), "habit name cannot be empty");
    assert_eq!(
        HabitNameError::TooLong { maximum: 80 }.message(),
        "habit name cannot exceed 80 characters"
    );
    assert_eq!(
        HabitNameError::ControlCharacter.message(),
        "habit name cannot contain control characters"
    );
    assert_eq!(RoutineNameError::Empty.message(), "routine name cannot be empty");
    assert_eq!(
        RoutineNameError::TooLong { maximum: 40 }.message(),
        "routine name cannot exceed 40 characters"
    );
    assert_eq!(
        RoutineNameError::ControlCharacter.message(),
        "routine name cannot contain control characters"
    );
}

#[test]
fn percentage_rounds_down_and_saturates() {
    let date = CivilDate::new(2026, 1, 1).unwrap();
    let p = |scheduled, completed| DayProgress { date, scheduled, completed }.percentage();
    assert_eq!(p(3, 1), 33);
    assert_eq!(p(3, 2), 66);
    assert_eq!(p(4, 4), 100);
    assert_eq!(p(1, 0), 0);
    // completed * 100 saturates at usize::MAX before the division.
    assert_eq!(p(usize::MAX, usize::MAX), 1);
}
