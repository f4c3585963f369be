use ippo::date::{days_in_month, CivilDate};
use ippo::habit::DayProgress;
use ippo::tui::view::{
    calendar_lines, calendar_title, contribution_cell, contribution_weeks, guidance, month_name,
    recent_day_count, remaining_hint, scheduled_habit_label, status_headline, Guidance, Tone,
};

fn date(y: i16, m: i8, d: i8) -> CivilDate {
    CivilDate::new(y, m, d).unwrap()
}

#[test]
fn invalid_dates_are_refused() {
    assert!(CivilDate::new(2023, 2, 29).is_none());
    assert!(CivilDate::new(2024, 2, 29).is_some());
    assert!(CivilDate::new(1900, 2, 29).is_none());
    assert!(CivilDate::new(2000, 2, 29).is_some());
    assert!(CivilDate::new(10000, 1, 1).is_none());
    assert!(CivilDate::new(2024, 13, 1).is_none());
    assert!(CivilDate::new(2024, 4, 31).is_none());
    assert_eq!(days_in_month(-4, 2), 29);
}

#[test]
fn dates_print_as_iso_days() {
    assert_eq!(date(2026, 8, 3).to_iso_string(), "2026-08-03");
    assert_eq!(date(7, 1, 1).to_iso_string(), "0007-01-01");
    assert_eq!(date(-44, 3, 15).to_iso_string(), "-000044-03-15");
    let jiff_text = jiff::civil::date(-44, 3, 15).to_string();
    assert_eq!(jiff_text, "-000044-03-15");
}

#[test]
fn neighbouring_days_cross_month_and_year_ends() {
    assert_eq!(date(2024, 2, 28).tomorrow(), Some(date(2024, 2, 29)));
    assert_eq!(date(2025, 12, 31).tomorrow(), Some(date(2026, 1, 1)));
    assert_eq!(date(2024, 3, 1).yesterday(), Some(date(2024, 2, 29)));
    assert_eq!(date(2026, 1, 1).yesterday(), Some(date(2025, 12, 31)));
    assert_eq!(date(9999, 12, 31).tomorrow(), None);
    assert_eq!(date(-9999, 1, 1).yesterday(), None);
}

#[test]
fn weekday_comes_from_the_calendar() {
    assert_eq!(date(1970, 1, 1).monday_zero_offset(), 3);
    assert_eq!(date(2026, 8, 24).monday_zero_offset(), 0);
    assert_eq!(date(2000, 2, 29).monday_zero_offset(), 1);
    assert_eq!(date(2000, 3, 1).monday_zero_offset(), 2);
    assert_eq!(date(0, 1, 1).monday_zero_offset(), 5);
    assert_eq!(date(-1, 12, 31).monday_zero_offset(), 4);
    assert_eq!(date(-9999, 1, 1).monday_zero_offset(), 0);
    assert_eq!(date(9999, 12, 31).monday_zero_offset(), 4);
}

#[test]
fn shifting_months_clamps_to_month_end() {
    assert_eq!(date(2026, 1, 31).shift_month(1), date(2026, 2, 28));
    assert_eq!(date(2026, 1, 15).shift_month(-1), date(2025, 12, 15));
    assert_eq!(date(-1, 1, 10).shift_month(-1), date(-2, 12, 10));
    assert!(date(2026, 8, 1).is_before(&date(2026, 8, 2)));
    assert!(!date(2026, 8, 2).is_before(&date(2026, 8, 2)));
}

#[test]
fn month_names_and_labels() {
    assert_eq!(month_name(8), "AUGUST");
    assert_eq!(month_name(12), "DECEMBER");
    assert_eq!(scheduled_habit_label(1), "1 habit scheduled");
    assert_eq!(scheduled_habit_label(0), "0 habits scheduled");
    assert_eq!(scheduled_habit_label(12), "12 habits scheduled");
    assert_eq!(calendar_title(date(2026, 8, 23)), " 暦  ‹ AUGUST 2026 › ");
    assert_eq!(status_headline(false, 0, 0, 0), "0%  0 of 0 complete");
    assert_eq!(status_headline(true, 0, 0, 1), "1 habit scheduled");
    assert_eq!(remaining_hint(80, 4), "76 characters remaining");
    assert_eq!(guidance(false, true, 0, 0), Guidance::FirstStep);
    assert_eq!(guidance(false, true, 2, 2), Guidance::Complete);
    assert_eq!(guidance(false, false, 0, 2), Guidance::History);
    assert_eq!(guidance(true, false, 0, 2), Guidance::Upcoming);
}

#[test]
fn contribution_cells_distinguish_future_missing_zero_and_progress() {
    let today = date(2026, 8, 23);
    let p = |scheduled, completed| DayProgress { date: today, scheduled, completed };
    let future = contribution_cell(date(2026, 8, 24), today, Some(&p(1, 1)));
    assert_eq!((future.symbol, future.tone), ("·", Tone::VermilionDark));
    let missing = contribution_cell(today, today, None);
    assert_eq!((missing.symbol, missing.tone), ("·", Tone::Stone));
    let zero = contribution_cell(today, today, Some(&p(3, 0)));
    assert_eq!((zero.symbol, zero.tone), ("░", Tone::VermilionDark));
    let low = contribution_cell(today, today, Some(&p(4, 1)));
    assert_eq!((low.symbol, low.tone), ("▒", Tone::Indigo));
    let mid = contribution_cell(today, today, Some(&p(2, 1)));
    assert_eq!((mid.symbol, mid.tone), ("▓", Tone::Gold));
    let full = contribution_cell(today, today, Some(&p(1, 1)));
    assert_eq!((full.symbol, full.tone), ("█", Tone::MossStrong));
    assert_eq!(contribution_weeks(120), 26);
    assert_eq!(contribution_weeks(10), 4);
    assert_eq!(contribution_weeks(30), 13);
    assert_eq!(recent_day_count(50), 42);
    assert_eq!(recent_day_count(20), 18);
    assert_eq!(recent_day_count(1), 0);
}

#[test]
fn the_month_grid_starts_on_the_right_weekday() {
    // August 2026 starts on a Saturday and has 31 days.
    let today = date(2026, 8, 23);
    let progress = vec![DayProgress { date: date(2026, 8, 10), scheduled: 2, completed: 2 }];
    let weeks = calendar_lines(today, today, &progress);
    assert_eq!(weeks.len(), 6);
    let first: Vec<_> = weeks[0].iter().map(|c| c.text.as_str()).collect();
    assert_eq!(first, ["    ", "    ", "    ", "    ", "    ", " 1  ", " 2  "]);
    assert_eq!(weeks[0][5].tone, Tone::Stone);
    assert_eq!(weeks[2][0].text, "10  ");
    assert_eq!(weeks[2][0].tone, Tone::MossStrong);
    assert_eq!(weeks[3][6].text, "23  ");
    assert_eq!(weeks[3][6].tone, Tone::Selected);
    assert_eq!(weeks[4][0].tone, Tone::VermilionDark);
    assert_eq!(weeks[5][0].text, "31  ");
    // February 2021 fits in four weeks.
    assert_eq!(calendar_lines(date(2021, 2, 1), today, &Vec::new()).len(), 4);
}

#[test]
fn stepping_a_day_back_and_forth_returns() {
    for d in [
        date(2024, 3, 1),
        date(2026, 1, 1),
        date(2026, 8, 23),
        date(2000, 12, 31),
        date(-9999, 1, 2),
    ] {
        assert_eq!(d.yesterday().unwrap().tomorrow(), Some(d));
        if let Some(next) = d.tomorrow() {
            assert_eq!(next.yesterday(), Some(d));
        }
    }
}

#[test]
fn month_shifts_report_whether_they_fit() {
    assert!(date(2026, 8, 23).can_shift_month(-1));
    assert!(date(2730, 1, 1).can_shift_month(1));
    assert!(!date(2730, 12, 1).can_shift_month(1));
    assert!(!date(2731, 1, 1).can_shift_month(1));
    assert!(!date(-2731, 1, 1).can_shift_month(-1));
}

#[test]
fn walking_back_and_forward_returns_and_saturates_at_the_ends() {
    let d = date(2026, 8, 23);
    assert_eq!(d.days_earlier(370), date(2025, 8, 18));
    assert_eq!(d.days_earlier(370).days_later(370), d);
    assert_eq!(date(2024, 2, 28).days_later(2), date(2024, 3, 1));
    assert_eq!(date(-9999, 1, 3).days_earlier(5), date(-9999, 1, 1));
    assert_eq!(date(9999, 12, 30).days_later(5), date(9999, 12, 31));
}

#[test]
fn consecutive_days_have_consecutive_weekdays() {
    let mut d = date(2023, 12, 25);
    for _ in 0..800 {
        let next = d.tomorrow().unwrap();
        assert_eq!(next.monday_zero_offset(), (d.monday_zero_offset() + 1) % 7);
        d = next;
    }
}
