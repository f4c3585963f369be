use ippo::app::DayView;
use ippo::date::CivilDate;
use ippo::habit::{DayProgress, ProjectedHabit, Routine, TodayHabit};
use ippo::tui::footer::{footer_hints, footer_notice};
use ippo::tui::groups::{habit_entries, habit_groups, HabitEntry};
use ippo::tui::layout::{centered_box, DashboardView, LayoutMode};
use ippo::tui::state::{Command, InputMode, KeyCode, KeyPress, TuiState};
use ippo::tui::view::{
    calendar_title, contribution_grid, contribution_weeks, environment_badge, guidance,
    scheduled_habit_label, status_headline, today_title, Guidance,
};

fn key(code: KeyCode) -> KeyPress {
    KeyPress { code, control: false, alt: false }
}

fn date(y: i16, m: i8, d: i8) -> CivilDate {
    CivilDate::new(y, m, d).unwrap()
}

fn habit(occurrence_id: i64, habit_id: i64, name: &str, completed: bool, routines: Vec<Routine>) -> TodayHabit {
    TodayHabit {
        occurrence_id,
        habit_id,
        name: name.to_string(),
        completed,
        routines,
    }
}

fn routine(id: i64, name: &str) -> Routine {
    Routine { id, name: name.to_string() }
}

fn view(habits: Vec<TodayHabit>, routines: Vec<Routine>) -> DayView {
    let today = date(2026, 8, 23);
    let mut v = DayView::new(today, "UTC".to_string());
    v.habits = habits;
    v.routines = routines;
    v
}

#[test]
fn layout_breakpoints_are_explicit() {
    assert_eq!(LayoutMode::for_width(63), LayoutMode::Narrow);
    assert_eq!(LayoutMode::for_width(64), LayoutMode::Medium);
    assert_eq!(LayoutMode::for_width(95), LayoutMode::Medium);
    assert_eq!(LayoutMode::for_width(96), LayoutMode::Wide);
}

#[test]
fn tab_cycles_through_the_focused_views() {
    let v = view(Vec::new(), Vec::new());
    let mut state = TuiState::new();
    assert!(matches!(state.handle_key(key(KeyCode::Tab), &v), Command::Stay));
    assert_eq!(state.view, DashboardView::Calendar);
    state.handle_key(key(KeyCode::Tab), &v);
    assert_eq!(state.view, DashboardView::Contributions);
    state.handle_key(key(KeyCode::Tab), &v);
    assert_eq!(state.view, DashboardView::Today);
}

#[test]
fn quitting_keys_quit_and_ctrl_c_quits_from_dialogs() {
    let v = view(Vec::new(), Vec::new());
    let mut state = TuiState::new();
    assert!(matches!(state.handle_key(key(KeyCode::Char('q')), &v), Command::Quit));
    assert!(matches!(state.handle_key(key(KeyCode::Esc), &v), Command::Quit));
    state.handle_key(key(KeyCode::Char('n')), &v);
    assert!(matches!(state.mode, InputMode::CreatingHabit { .. }));
    // In a dialog, q is text and Esc closes it.
    assert!(matches!(state.handle_key(key(KeyCode::Char('q')), &v), Command::Stay));
    let ctrl_c = KeyPress { code: KeyCode::Char('c'), control: true, alt: false };
    assert!(matches!(state.handle_key(ctrl_c, &v), Command::Quit));
    state.handle_key(key(KeyCode::Esc), &v);
    assert!(matches!(state.mode, InputMode::Normal));
}

#[test]
fn creation_dialog_reports_validation_without_closing() {
    let v = view(Vec::new(), Vec::new());
    let mut state = TuiState::new();
    state.handle_key(key(KeyCode::Char('n')), &v);
    let command = state.handle_key(key(KeyCode::Enter), &v);
    match &command {
        Command::CreateHabit(name) => assert_eq!(name, ""),
        other => panic!("unexpected {:?}", other),
    }
    state.apply_outcome(&command, Err("habit name cannot be empty".to_string()), &v);
    match &state.mode {
        InputMode::CreatingHabit { value, error } => {
            assert_eq!(value, "");
            assert_eq!(error.as_deref(), Some("habit name cannot be empty"));
        }
        other => panic!("unexpected {:?}", other),
    }
}

#[test]
fn typing_edits_the_name_and_creation_selects_the_new_habit() {
    let v = view(Vec::new(), Vec::new());
    let mut state = TuiState::new();
    state.handle_key(key(KeyCode::Char('n')), &v);
    for c in "reaX".chars() {
        state.handle_key(key(KeyCode::Char(c)), &v);
    }
    state.handle_key(key(KeyCode::Backspace), &v);
    state.handle_key(key(KeyCode::Char('d')), &v);
    let alt_x = KeyPress { code: KeyCode::Char('x'), control: false, alt: true };
    state.handle_key(alt_x, &v);
    let command = state.handle_key(key(KeyCode::Enter), &v);
    match &command {
        Command::CreateHabit(name) => assert_eq!(name, "read"),
        other => panic!("unexpected {:?}", other),
    }
    let after = view(vec![habit(1, 1, "read", false, Vec::new())], Vec::new());
    state.apply_outcome(&command, Ok(()), &after);
    assert!(matches!(state.mode, InputMode::Normal));
    assert_eq!(state.selected, 0);
    let notice = state.notice.as_ref().unwrap();
    assert_eq!(notice.message, "created ‘read’");
    assert!(!notice.is_error);
}

#[test]
fn the_name_field_stops_at_its_limit() {
    let v = view(Vec::new(), Vec::new());
    let mut state = TuiState::new();
    state.handle_key(key(KeyCode::Char('r')), &v);
    for _ in 0..50 {
        state.handle_key(key(KeyCode::Char('m')), &v);
    }
    match &state.mode {
        InputMode::CreatingRoutine { value, .. } => assert_eq!(value.chars().count(), 40),
        other => panic!("unexpected {:?}", other),
    }
}

#[test]
fn completing_a_habit_moves_it_below_unchecked_habits_and_advances_focus() {
    let before = view(
        vec![
            habit(1, 1, "first", false, Vec::new()),
            habit(2, 2, "second", false, Vec::new()),
            habit(3, 3, "third", false, Vec::new()),
        ],
        Vec::new(),
    );
    let mut state = TuiState::new();
    state.selected = 1;
    let command = state.handle_key(key(KeyCode::Char(' ')), &before);
    match &command {
        Command::Toggle { occurrence_id, was_completed, previous_selection, .. } => {
            assert_eq!(*occurrence_id, 2);
            assert!(!*was_completed);
            assert_eq!(*previous_selection, 1);
        }
        other => panic!("unexpected {:?}", other),
    }
    // Completed occurrences follow unchecked ones after the reload.
    let after = view(
        vec![
            habit(1, 1, "first", false, Vec::new()),
            habit(3, 3, "third", false, Vec::new()),
            habit(2, 2, "second", true, Vec::new()),
        ],
        Vec::new(),
    );
    state.apply_outcome(&command, Ok(()), &after);
    let names: Vec<_> = after.habits.iter().map(|h| h.name.as_str()).collect();
    assert_eq!(names, ["first", "third", "second"]);
    assert_eq!(after.habits[state.selected].name, "third");
    assert_eq!(state.notice.as_ref().unwrap().message, "updated ‘second’");
}

#[test]
fn unchecking_a_completed_habit_keeps_it_selected() {
    let both = view(
        vec![
            habit(1, 1, "first", false, Vec::new()),
            habit(2, 2, "second", false, Vec::new()),
        ],
        Vec::new(),
    );
    let mut state = TuiState::new();
    state.selected = 0;
    let command = state.handle_key(key(KeyCode::Char(' ')), &both);
    let first_done = view(
        vec![
            habit(2, 2, "second", false, Vec::new()),
            habit(1, 1, "first", true, Vec::new()),
        ],
        Vec::new(),
    );
    state.apply_outcome(&command, Ok(()), &first_done);
    assert_eq!(first_done.habits[state.selected].name, "second");

    state.selected = 1;
    let command = state.handle_key(key(KeyCode::Char(' ')), &first_done);
    let unchecked = view(
        vec![
            habit(1, 1, "first", false, Vec::new()),
            habit(2, 2, "second", false, Vec::new()),
        ],
        Vec::new(),
    );
    state.apply_outcome(&command, Ok(()), &unchecked);

    assert_eq!(unchecked.habits[state.selected].name, "first");
    assert!(!unchecked.habits[state.selected].completed);
}

#[test]
fn checking_the_last_unchecked_row_falls_back_to_an_earlier_one() {
    let before = view(
        vec![
            habit(1, 1, "a", false, Vec::new()),
            habit(2, 2, "b", false, Vec::new()),
        ],
        Vec::new(),
    );
    let mut state = TuiState::new();
    state.selected = 1;
    let command = state.handle_key(key(KeyCode::Char(' ')), &before);
    let after = view(
        vec![habit(1, 1, "a", false, Vec::new()), habit(2, 2, "b", true, Vec::new())],
        Vec::new(),
    );
    state.apply_outcome(&command, Ok(()), &after);
    assert_eq!(state.selected, 0);
    // With everything complete the toggled row stays selected.
    let mut state = TuiState::new();
    let single = view(vec![habit(5, 5, "only", false, Vec::new())], Vec::new());
    let command = state.handle_key(key(KeyCode::Char(' ')), &single);
    let done = view(vec![habit(5, 5, "only", true, Vec::new())], Vec::new());
    state.apply_outcome(&command, Ok(()), &done);
    assert_eq!(state.selected, 0);
}

#[test]
fn a_habit_can_appear_in_multiple_routine_groups_without_double_counting() {
    let routines = vec![routine(10, "morning"), routine(11, "recovery")];
    let v = view(
        vec![habit(1, 1, "stretch", false, routines.clone())],
        routines.clone(),
    );
    let entries = habit_entries(&v.habits, &v.routines);
    assert_eq!(entries.len(), 2);
    assert_eq!(v.habits.len(), 1);
    assert_eq!(v.completed_count(), 0);
    let groups = habit_groups(&v.habits, &v.routines);
    let names: Vec<_> = groups.iter().map(|g| g.name.as_str()).collect();
    assert_eq!(names, ["morning", "recovery"]);
}

#[test]
fn groups_follow_routine_order_then_ungrouped() {
    let morning = routine(10, "morning");
    let evening = routine(11, "evening");
    let orphan = routine(12, "orphan");
    let habits = vec![
        habit(1, 1, "read", false, vec![evening.clone()]),
        habit(2, 2, "walk", false, Vec::new()),
        habit(3, 3, "tea", false, vec![orphan.clone(), morning.clone()]),
    ];
    let groups = habit_groups(&habits, &vec![morning.clone(), evening.clone()]);
    let summary: Vec<_> = groups
        .iter()
        .map(|g| (g.name.as_str(), g.routine_id, g.habit_indices.clone()))
        .collect();
    assert_eq!(
        summary,
        [
            ("morning", Some(10), vec![2]),
            ("evening", Some(11), vec![0]),
            ("orphan", Some(12), vec![2]),
            ("ungrouped", None, vec![1]),
        ]
    );
    let entries = habit_entries(&habits, &vec![morning, evening]);
    assert_eq!(
        entries,
        [
            HabitEntry { habit_index: 2, routine_id: Some(10) },
            HabitEntry { habit_index: 0, routine_id: Some(11) },
            HabitEntry { habit_index: 2, routine_id: Some(12) },
            HabitEntry { habit_index: 1, routine_id: None },
        ]
    );
}

#[test]
fn routine_creation_and_habit_settings_assign_a_real_group() {
    let morning = routine(7, "morning");
    let v = view(vec![habit(1, 4, "read", false, Vec::new())], vec![morning.clone()]);
    let mut state = TuiState::new();
    state.handle_key(key(KeyCode::Char('e')), &v);
    state.handle_key(key(KeyCode::Tab), &v);
    state.handle_key(key(KeyCode::Char(' ')), &v);
    let command = state.handle_key(key(KeyCode::Enter), &v);
    match &command {
        Command::UpdateHabitSettings { habit_id, name, routine_ids } => {
            assert_eq!(*habit_id, 4);
            assert_eq!(name, "read");
            assert_eq!(routine_ids, &vec![7]);
        }
        other => panic!("unexpected {:?}", other),
    }
    let after = view(vec![habit(1, 4, "read", false, vec![morning.clone()])], vec![morning]);
    state.apply_outcome(&command, Ok(()), &after);
    assert!(matches!(state.mode, InputMode::Normal));
    assert_eq!(state.notice.as_ref().unwrap().message, "saved ‘read’");
}

#[test]
fn the_settings_dialog_edits_name_and_routines() {
    let routines = vec![routine(1, "a"), routine(2, "b")];
    let v = view(vec![habit(9, 3, "x", false, vec![routine(2, "b")])], routines);
    let mut state = TuiState::new();
    state.handle_key(key(KeyCode::Char('e')), &v);
    match &state.mode {
        InputMode::EditingHabit { routines, .. } => {
            let marks: Vec<_> = routines.iter().map(|c| c.selected).collect();
            assert_eq!(marks, [false, true]);
        }
        other => panic!("unexpected {:?}", other),
    }
    // k and j type into the name while it has the focus.
    state.handle_key(key(KeyCode::Char('k')), &v);
    state.handle_key(key(KeyCode::Tab), &v);
    state.handle_key(key(KeyCode::Down), &v);
    state.handle_key(key(KeyCode::Down), &v);
    state.handle_key(key(KeyCode::Char(' ')), &v);
    state.handle_key(key(KeyCode::Up), &v);
    state.handle_key(key(KeyCode::Char(' ')), &v);
    let command = state.handle_key(key(KeyCode::Enter), &v);
    match &command {
        Command::UpdateHabitSettings { name, routine_ids, .. } => {
            assert_eq!(name, "xk");
            assert_eq!(routine_ids, &vec![1]);
        }
        other => panic!("unexpected {:?}", other),
    }
    state.apply_outcome(&command, Err("database failure".to_string()), &v);
    match &state.mode {
        InputMode::EditingHabit { error, .. } => {
            assert_eq!(error.as_deref(), Some("database failure"))
        }
        other => panic!("unexpected {:?}", other),
    }
}

#[test]
fn calendar_navigation_loads_read_only_history_and_returns_to_today() {
    let mut v = view(vec![habit(1, 1, "read", false, Vec::new())], Vec::new());
    let mut state = TuiState::new();
    let command = state.handle_key(key(KeyCode::Char('h')), &v);
    match &command {
        Command::SelectDate(d) => assert_eq!(*d, date(2026, 8, 22)),
        other => panic!("unexpected {:?}", other),
    }
    v.select_date(date(2026, 8, 22));
    v.habits.clear();
    state.apply_outcome(&command, Ok(()), &v);
    assert!(!v.is_viewing_today());
    assert_eq!(
        state.notice.as_ref().unwrap().message,
        "viewing 2026-08-22 · read-only"
    );

    state.handle_key(key(KeyCode::Char('n')), &v);
    assert!(matches!(state.mode, InputMode::Normal));
    let notice = state.notice.as_ref().unwrap();
    assert!(notice.is_error);
    assert_eq!(notice.message, "2026-08-22 is read-only history · press t for today");

    let command = state.handle_key(key(KeyCode::Char('t')), &v);
    match &command {
        Command::SelectDate(d) => assert_eq!(*d, v.today),
        other => panic!("unexpected {:?}", other),
    }
    v.select_date(v.today);
    state.apply_outcome(&command, Ok(()), &v);
    assert!(v.is_viewing_today());
    assert_eq!(state.notice.as_ref().unwrap().message, "returned to today");
}

#[test]
fn future_days_are_previews() {
    let mut v = view(Vec::new(), Vec::new());
    let mut state = TuiState::new();
    let command = state.handle_key(key(KeyCode::Char('l')), &v);
    v.select_date(date(2026, 8, 24));
    state.apply_outcome(&command, Ok(()), &v);
    assert!(v.is_viewing_future());
    assert_eq!(
        state.notice.as_ref().unwrap().message,
        "viewing 2026-08-24 · upcoming preview"
    );
    state.handle_key(key(KeyCode::Char('r')), &v);
    assert_eq!(
        state.notice.as_ref().unwrap().message,
        "2026-08-24 is an upcoming preview · press t for today"
    );
    assert!(matches!(state.mode, InputMode::Normal));
}

#[test]
fn month_keys_shift_the_viewed_month_and_clamp_the_day() {
    let mut v = view(Vec::new(), Vec::new());
    v.select_date(date(2024, 3, 31));
    let mut state = TuiState::new();
    match state.handle_key(key(KeyCode::Char('[')), &v) {
        Command::SelectDate(d) => assert_eq!(d, date(2024, 2, 29)),
        other => panic!("unexpected {:?}", other),
    }
    v.select_date(date(2025, 12, 15));
    match state.handle_key(key(KeyCode::Char(']')), &v) {
        Command::SelectDate(d) => assert_eq!(d, date(2026, 1, 15)),
        other => panic!("unexpected {:?}", other),
    }
}

#[test]
fn moving_the_selection_stays_within_the_rows() {
    let v = view(
        vec![habit(1, 1, "a", false, Vec::new()), habit(2, 2, "b", false, Vec::new())],
        Vec::new(),
    );
    let mut state = TuiState::new();
    state.handle_key(key(KeyCode::Up), &v);
    assert_eq!(state.selected, 0);
    state.handle_key(key(KeyCode::Char('j')), &v);
    state.handle_key(key(KeyCode::Down), &v);
    assert_eq!(state.selected, 1);
    state.handle_key(key(KeyCode::Char('k')), &v);
    assert_eq!(state.selected, 0);
}

#[test]
fn refresh_outcomes_reset_the_selection_or_report_errors() {
    let mut state = TuiState::new();
    state.selected = 3;
    assert!(!state.apply_refresh(Ok(false)));
    assert_eq!(state.selected, 3);
    assert!(state.apply_refresh(Ok(true)));
    assert_eq!(state.selected, 0);
    assert_eq!(state.notice.as_ref().unwrap().message, "a new day has begun");
    assert!(state.apply_refresh(Err("boom".to_string())));
    assert!(state.notice.as_ref().unwrap().is_error);
}

#[test]
fn the_day_view_counts_completion_and_guards_writes() {
    let mut v = view(
        vec![
            habit(1, 1, "a", true, Vec::new()),
            habit(2, 2, "b", false, Vec::new()),
            habit(3, 3, "c", true, Vec::new()),
        ],
        Vec::new(),
    );
    assert_eq!(v.completed_count(), 2);
    assert_eq!(v.completion_percentage(), 66);
    assert!(v.require_today().is_ok());
    v.select_date(date(2026, 8, 22));
    assert_eq!(
        v.require_today().unwrap_err().message(),
        "2026-08-22 is historical and read-only; press t to return to today"
    );
    v.select_date(date(2026, 9, 1));
    assert_eq!(
        v.require_today().unwrap_err().message(),
        "2026-09-01 is an upcoming read-only preview; press t to return to today"
    );
    v.contributions.push(DayProgress { date: date(2026, 8, 23), scheduled: 1, completed: 1 });
    assert_eq!(v.contributions.len(), 1);
}

#[test]
fn a_new_day_moves_a_view_that_followed_today() {
    let mut v = view(Vec::new(), Vec::new());
    assert!(!v.roll_over(date(2026, 8, 23), "UTC"));
    assert!(v.roll_over(date(2026, 8, 24), "UTC"));
    assert_eq!(v.today, date(2026, 8, 24));
    assert_eq!(v.selected_date, date(2026, 8, 24));
    v.select_date(date(2026, 8, 1));
    assert!(v.roll_over(date(2026, 8, 24), "Europe/Oslo"));
    assert_eq!(v.selected_date, date(2026, 8, 1));
    assert_eq!(v.timezone_name, "Europe/Oslo");
}

#[test]
fn dialogs_are_centered_within_the_area() {
    assert_eq!(centered_box(0, 0, 120, 36, 70, 7), (25, 14, 70, 7));
    assert_eq!(centered_box(0, 0, 10, 3, 70, 7), (2, 1, 6, 1));
    assert_eq!(centered_box(5, 2, 0, 0, 70, 7), (5, 2, 1, 1));
}

#[test]
fn empty_dashboard_has_no_seeded_activity() {
    let v = view(Vec::new(), Vec::new());
    assert_eq!(environment_badge("development").0, "DEVELOPMENT");
    let headline = status_headline(false, v.completion_percentage(), v.completed_count(), v.habits.len());
    assert!(headline.starts_with("0%"));
    assert_eq!(guidance(false, true, 0, 0), Guidance::FirstStep);
    assert!(v.habits.is_empty());
    assert!(v.projected_habits.is_empty());
    assert!(v.routines.is_empty());
    assert!(v.contributions.is_empty());
}

#[test]
fn create_input_adds_a_real_habit_and_space_toggles_it() {
    let empty = view(Vec::new(), Vec::new());
    let mut state = TuiState::new();
    state.handle_key(key(KeyCode::Char('n')), &empty);
    for character in "read".chars() {
        state.handle_key(key(KeyCode::Char(character)), &empty);
    }
    let command = state.handle_key(key(KeyCode::Enter), &empty);
    match &command {
        Command::CreateHabit(name) => assert_eq!(name, "read"),
        other => panic!("unexpected {:?}", other),
    }
    let created = view(vec![habit(1, 1, "read", false, Vec::new())], Vec::new());
    state.apply_outcome(&command, Ok(()), &created);
    assert_eq!(created.habits[0].name, "read");
    assert!(!created.habits[0].completed);

    let command = state.handle_key(key(KeyCode::Char(' ')), &created);
    match &command {
        Command::Toggle { occurrence_id, was_completed, .. } => {
            assert_eq!(*occurrence_id, 1);
            assert!(!*was_completed);
        }
        other => panic!("unexpected {:?}", other),
    }
    let toggled = view(vec![habit(1, 1, "read", true, Vec::new())], Vec::new());
    state.apply_outcome(&command, Ok(()), &toggled);
    assert!(toggled.habits[0].completed);
    assert_eq!(toggled.completion_percentage(), 100);
}

#[test]
fn future_date_renders_a_grouped_upcoming_preview() {
    let evening = routine(3, "evening");
    let mut v = view(vec![habit(1, 1, "read", false, vec![evening.clone()])], vec![evening.clone()]);
    let mut state = TuiState::new();
    let command = state.handle_key(key(KeyCode::Char('l')), &v);
    match &command {
        Command::SelectDate(d) => assert_eq!(*d, date(2026, 8, 24)),
        other => panic!("unexpected {:?}", other),
    }
    v.select_date(date(2026, 8, 24));
    v.habits.clear();
    v.projected_habits = vec![ProjectedHabit {
        habit_id: 1,
        name: "read".to_string(),
        routines: vec![evening],
    }];
    state.apply_outcome(&command, Ok(()), &v);

    assert!(today_title(&v).contains("UPCOMING · 2026-08-24"));
    assert_eq!(guidance(true, false, 0, 1), Guidance::Upcoming);
    let groups = habit_groups(&v.projected_habits, &v.routines);
    assert_eq!(groups[0].name.to_uppercase(), "EVENING");
    assert_eq!(v.projected_habits[groups[0].habit_indices[0]].name, "read");
    assert_eq!(scheduled_habit_label(v.projected_habits.len()), "1 habit scheduled");
    assert_eq!(state.notice.as_ref().unwrap().message, "viewing 2026-08-24 · upcoming preview");
    assert!(v.habits.is_empty());
}

#[test]
fn contribution_panel_renders_persisted_completion_intensity() {
    let mut v = view(vec![habit(1, 1, "read", true, Vec::new())], Vec::new());
    v.contributions = vec![DayProgress { date: v.today, scheduled: 1, completed: 1 }];
    let weeks = contribution_weeks(60);
    let grid = contribution_grid(v.today, weeks, &v.contributions);
    assert!(grid.iter().flatten().any(|glyph| glyph.symbol == "█"));
}

#[test]
fn narrow_dashboard_keeps_empty_state_and_create_action_visible() {
    let v = view(Vec::new(), Vec::new());
    let state = TuiState::new();
    assert_eq!(LayoutMode::for_width(52), LayoutMode::Narrow);
    let headline = status_headline(false, v.completion_percentage(), 0, 0);
    assert!(headline.starts_with("0%"));
    let hints = footer_hints(&state.mode, 52, v.is_viewing_today());
    assert!(hints.iter().any(|hint| hint.label.contains("new")));
    assert_eq!(footer_notice(&state, &v, 52), None);
}

#[test]
fn compact_terminals_can_focus_calendar_and_contribution_views() {
    let v = view(vec![habit(1, 1, "read", false, Vec::new())], Vec::new());
    let mut state = TuiState::new();
    state.handle_key(key(KeyCode::Tab), &v);
    assert_eq!(state.view, DashboardView::Calendar);
    assert!(calendar_title(v.selected_date).contains("AUGUST 2026"));
    state.handle_key(key(KeyCode::Tab), &v);
    assert_eq!(state.view, DashboardView::Contributions);
    assert_eq!(contribution_weeks(50), 23);
}

#[test]
fn each_group_holds_exactly_its_habits_in_ascending_order() {
    let a = routine(1, "a");
    let b = routine(2, "b");
    let late = routine(9, "late");
    let extra = routine(7, "extra");
    let habits = vec![
        habit(1, 1, "h0", false, vec![b.clone(), late.clone()]),
        habit(2, 2, "h1", false, Vec::new()),
        habit(3, 3, "h2", false, vec![extra.clone(), b.clone()]),
        habit(4, 4, "h3", true, vec![late.clone()]),
        habit(5, 5, "h4", false, Vec::new()),
    ];
    let groups = habit_groups(&habits, &vec![a, b]);
    let summary: Vec<_> = groups
        .iter()
        .map(|g| (g.routine_id, g.habit_indices.clone()))
        .collect();
    // "a" has no habits and gets no group; "late" appears before "extra".
    assert_eq!(
        summary,
        [(Some(2), vec![0, 2]), (Some(9), vec![0, 3]), (Some(7), vec![2]), (None, vec![1, 4])]
    );
    assert_eq!(groups[3].name, "ungrouped");
}
