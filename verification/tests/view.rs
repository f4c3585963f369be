use ippo::app::DayView;
use ippo::date::CivilDate;
use ippo::habit::{DayProgress, ProjectedHabit, TodayHabit};
use ippo::tui::footer::{footer_hints, footer_notice};
use ippo::tui::groups::{entry_line, HabitGroup};
use ippo::tui::state::{date_notice_text, InputMode, Notice, SettingsFocus, TuiState};
use ippo::tui::view::{
    calendar_summary, choice_marks, contribution_grid, contribution_strip, environment_badge, group_tally,
    name_hint, progress_for, scroll_start, settings_headings, settings_hint, today_title, Tone,
};

fn date(y: i16, m: i8, d: i8) -> CivilDate {
    CivilDate::new(y, m, d).unwrap()
}

fn done(name: &str, completed: bool) -> TodayHabit {
    TodayHabit {
        occurrence_id: 1,
        habit_id: 1,
        name: name.to_string(),
        completed,
        routines: Vec::new(),
    }
}

#[test]
fn the_recent_strip_ends_today() {
    let today = date(2026, 8, 23);
    let progress = vec![
        DayProgress { date: date(2026, 8, 23), scheduled: 1, completed: 1 },
        DayProgress { date: date(2026, 8, 21), scheduled: 2, completed: 0 },
    ];
    let strip = contribution_strip(today, 3, &progress);
    let cells: Vec<_> = strip.iter().map(|g| (g.symbol, g.tone)).collect();
    assert_eq!(
        cells,
        [("░", Tone::VermilionDark), ("·", Tone::Stone), ("█", Tone::MossStrong)]
    );
    assert!(contribution_strip(today, 0, &progress).is_empty());
}

#[test]
fn the_contribution_grid_runs_monday_to_sunday_up_to_this_week() {
    // 2026-08-19 is a Wednesday; the grid's last column is the week of
    // Monday 2026-08-17, and its first column starts on Monday 2026-07-27.
    let today = date(2026, 8, 19);
    let progress = vec![
        DayProgress { date: date(2026, 7, 27), scheduled: 2, completed: 1 },
        DayProgress { date: date(2026, 8, 19), scheduled: 1, completed: 1 },
        DayProgress { date: date(2026, 8, 20), scheduled: 1, completed: 1 },
    ];
    let grid = contribution_grid(today, 4, &progress);
    assert_eq!(grid.len(), 7);
    assert!(grid.iter().all(|row| row.len() == 4));
    assert_eq!((grid[0][0].symbol, grid[0][0].tone), ("▓", Tone::Gold));
    assert_eq!((grid[1][0].symbol, grid[1][0].tone), ("·", Tone::Stone));
    assert_eq!((grid[2][3].symbol, grid[2][3].tone), ("█", Tone::MossStrong));
    for weekday in 3..7 {
        assert_eq!((grid[weekday][3].symbol, grid[weekday][3].tone), ("·", Tone::VermilionDark));
    }
}

#[test]
fn group_tallies_count_completed_members() {
    let habits = vec![done("read", true), done("walk", false), done("stretch", true)];
    assert_eq!(group_tally(&habits, &vec![0, 1]), "  [1 / 2]");
    assert_eq!(group_tally(&habits, &vec![0, 2]), "  [2 / 2]");
    assert_eq!(group_tally(&habits, &Vec::new()), "  [0 / 0]");
}

#[test]
fn scrolling_keeps_the_selected_line_visible() {
    assert_eq!(scroll_start(10, 5), 6);
    assert_eq!(scroll_start(4, 5), 0);
    assert_eq!(scroll_start(3, 5), 0);
    assert_eq!(scroll_start(4, 0), 4);
}

#[test]
fn date_notices_and_titles_follow_the_selected_day() {
    let today = date(2026, 8, 23);
    let mut v = DayView::new(today, "UTC".to_string());
    assert_eq!(date_notice_text(&v), "returned to today");
    assert_eq!(today_title(&v), " 今日  TODAY ");
    v.select_date(date(2026, 8, 20));
    assert_eq!(date_notice_text(&v), "viewing 2026-08-20 · read-only");
    assert_eq!(today_title(&v), " 履歴  2026-08-20 ");
    v.select_date(date(2026, 8, 25));
    assert_eq!(date_notice_text(&v), "viewing 2026-08-25 · upcoming preview");
    assert_eq!(today_title(&v), " 予定  UPCOMING · 2026-08-25 ");
}

#[test]
fn calendar_summaries_report_the_selected_day() {
    let today = date(2026, 8, 23);
    let mut v = DayView::new(today, "UTC".to_string());
    v.contributions = vec![DayProgress { date: date(2026, 8, 20), scheduled: 4, completed: 1 }];
    assert_eq!(calendar_summary(&v), "2026-08-23  ·  no habits");
    v.select_date(date(2026, 8, 20));
    assert_eq!(calendar_summary(&v), "2026-08-20  ·  25%  [1/4]");
    assert_eq!(progress_for(&v.contributions, date(2026, 8, 20)).map(|p| p.completed), Some(1));
    v.select_date(date(2026, 8, 25));
    v.projected_habits = vec![ProjectedHabit {
        habit_id: 3,
        name: "read".to_string(),
        routines: Vec::new(),
    }];
    assert_eq!(calendar_summary(&v), "2026-08-25  ·  1 habit scheduled");
}

fn hint_pairs(hints: Vec<ippo::tui::footer::KeyHint>) -> Vec<(&'static str, &'static str)> {
    hints.into_iter().map(|h| (h.key, h.label)).collect()
}

#[test]
fn the_footer_offers_the_keys_of_the_current_mode() {
    let mut state = TuiState::new();
    assert_eq!(
        hint_pairs(footer_hints(&state.mode, 120, true)),
        [
            ("n", " new   "),
            ("r", " routine   "),
            ("e", " edit   "),
            ("space", " toggle   "),
            ("h/l", " date   "),
            ("tab", " view"),
        ]
    );
    assert_eq!(
        hint_pairs(footer_hints(&state.mode, 120, false)),
        [("h/l", " date   "), ("t", " today   "), ("tab", " view")]
    );
    assert_eq!(
        hint_pairs(footer_hints(&state.mode, 40, true)),
        [("n", " new  "), ("r", " routine  "), ("e", " edit  "), ("space", " done  "), ("tab", " view")]
    );
    assert_eq!(
        hint_pairs(footer_hints(&state.mode, 63, false)),
        [("h/l", " date  "), ("t", " today  "), ("tab", " view")]
    );
    state.mode = InputMode::CreatingRoutine { value: String::new(), error: None };
    assert_eq!(
        hint_pairs(footer_hints(&state.mode, 120, true)),
        [("enter", " create   "), ("esc", " cancel")]
    );
}

#[test]
fn the_footer_message_shows_notices_and_the_viewed_day() {
    let today = date(2026, 8, 23);
    let mut v = DayView::new(today, "UTC".to_string());
    let mut state = TuiState::new();
    assert_eq!(footer_notice(&state, &v, 120), Some(("SQLite · LOCAL".to_string(), Tone::Stone)));
    assert_eq!(footer_notice(&state, &v, 63), None);
    state.notice = Some(Notice { message: "could not save".to_string(), is_error: true });
    assert_eq!(footer_notice(&state, &v, 120), Some(("could not save".to_string(), Tone::Vermilion)));
    state.notice = Some(Notice { message: "saved".to_string(), is_error: false });
    assert_eq!(footer_notice(&state, &v, 120), Some(("saved".to_string(), Tone::Moss)));
    v.select_date(date(2026, 8, 20));
    state.notice = None;
    assert_eq!(
        footer_notice(&state, &v, 120),
        Some(("viewing 2026-08-20 · read-only".to_string(), Tone::Moss))
    );
    state.notice = Some(Notice { message: "history is read-only".to_string(), is_error: true });
    assert_eq!(footer_notice(&state, &v, 120), Some(("history is read-only".to_string(), Tone::Moss)));
    state.mode = InputMode::CreatingHabit { value: String::new(), error: None };
    assert_eq!(footer_notice(&state, &v, 120), None);
}

#[test]
fn the_selected_row_is_found_below_its_group_heading() {
    let group = |name: &str, habit_indices: Vec<usize>| HabitGroup {
        name: name.to_string(),
        routine_id: None,
        habit_indices,
    };
    let groups = vec![group("morning", vec![0, 1]), group("ungrouped", vec![2, 3, 4])];
    assert_eq!(entry_line(&groups, 0), 1);
    assert_eq!(entry_line(&groups, 1), 2);
    assert_eq!(entry_line(&groups, 2), 4);
    assert_eq!(entry_line(&groups, 4), 6);
    assert_eq!(entry_line(&groups, 5), 0);
    assert_eq!(entry_line(&Vec::new(), 0), 0);
}

#[test]
fn the_header_badge_names_the_data_environment() {
    assert_eq!(environment_badge("personal"), ("LOCAL · PERSONAL", Tone::Moss));
    assert_eq!(environment_badge("development"), ("DEVELOPMENT", Tone::Gold));
}

#[test]
fn dialog_hints_show_errors_or_what_is_left() {
    assert_eq!(name_hint(&"read".to_string(), 80, &None), ("76 characters remaining".to_string(), Tone::Stone));
    assert_eq!(name_hint(&"ab".to_string(), 1, &None), ("0 characters remaining".to_string(), Tone::Stone));
    assert_eq!(name_hint(&"é".to_string(), 3, &None), ("2 characters remaining".to_string(), Tone::Stone));
    let error = Some("habit name cannot be empty".to_string());
    assert_eq!(name_hint(&String::new(), 80, &error), ("habit name cannot be empty".to_string(), Tone::Vermilion));
    assert_eq!(settings_hint(&None), ("Tab changes field · Enter saves".to_string(), Tone::Stone));
    assert_eq!(settings_hint(&error), ("habit name cannot be empty".to_string(), Tone::Vermilion));
}

#[test]
fn the_settings_dialog_marks_the_focused_field_and_the_cursor() {
    assert_eq!(
        settings_headings(SettingsFocus::Name),
        (("› NAME", true), ("  ROUTINES", false))
    );
    assert_eq!(
        settings_headings(SettingsFocus::Routines),
        (("  NAME", false), ("› ROUTINES  [space toggles]", true))
    );
    assert_eq!(choice_marks(SettingsFocus::Routines, 1, 1, true), ("›", "●", Tone::Moss));
    assert_eq!(choice_marks(SettingsFocus::Routines, 0, 1, false), (" ", "○", Tone::Stone));
    assert_eq!(choice_marks(SettingsFocus::Name, 1, 1, false), (" ", "○", Tone::Stone));
}
