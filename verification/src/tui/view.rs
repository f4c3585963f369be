//! The text and tones that the dashboard draws.

use vstd::prelude::*;

use crate::date::{
    date_before, date_parts, day_number, days_in_month_of, parts_before, days_backward, days_forward, is_valid_date, iso_date,
    lemma_date_parts_determine, lemma_days_backward_number, lemma_days_forward_number,
    lemma_days_round_trip,
    lemma_days_forward_step, weekday_monday_offset, CivilDate,
};
use crate::habit::{progress_percentage, DayProgress, TodayHabit};
use crate::app::DayView;
use crate::tui::state::SettingsFocus;
use crate::text::{
    append_decimal, append_signed_decimal, append_str, decimal, signed_decimal, str_eq,
};

verus! {

/// The colour roles of the palette that text is drawn in.
#[derive(Debug, Clone, Copy, PartialEq, Eq, Structural)]
pub enum Tone {
    /// Dim vermilion: future days and zero-completion days.
    VermilionDark,
    /// Stone grey: days with no data, muted text.
    Stone,
    /// Indigo: low completion.
    Indigo,
    /// Gold: middling completion.
    Gold,
    /// Bold moss: high completion.
    MossStrong,
    /// Washi paper: ordinary text.
    Washi,
    /// The selected day of the calendar.
    Selected,
    /// Vermilion: errors.
    Vermilion,
    /// Moss: confirmations and the viewed day's notices.
    Moss,
}

pub open spec fn month_label(month: int) -> Seq<char> {
    if month == 1 {
        "JANUARY"@
    } else if month == 2 {
        "FEBRUARY"@
    } else if month == 3 {
        "MARCH"@
    } else if month == 4 {
        "APRIL"@
    } else if month == 5 {
        "MAY"@
    } else if month == 6 {
        "JUNE"@
    } else if month == 7 {
        "JULY"@
    } else if month == 8 {
        "AUGUST"@
    } else if month == 9 {
        "SEPTEMBER"@
    } else if month == 10 {
        "OCTOBER"@
    } else if month == 11 {
        "NOVEMBER"@
    } else {
        "DECEMBER"@
    }
}

/// The upper-case English name of a month.
pub fn month_name(month: i8) -> (r: &'static str)
    requires
        1 <= month <= 12,
    ensures
        r@ == month_label(month as int),
{
    match month {
        1 => "JANUARY",
        2 => "FEBRUARY",
        3 => "MARCH",
        4 => "APRIL",
        5 => "MAY",
        6 => "JUNE",
        7 => "JULY",
        8 => "AUGUST",
        9 => "SEPTEMBER",
        10 => "OCTOBER",
        11 => "NOVEMBER",
        _ => "DECEMBER",
    }
}

pub open spec fn scheduled_label(count: nat) -> Seq<char> {
    decimal(count) + " habit"@ + (if count == 1 { ""@ } else { "s"@ }) + " scheduled"@
}

/// `N habit scheduled` or `N habits scheduled`.
pub fn scheduled_habit_label(count: usize) -> (r: String)
    ensures
        r@ == scheduled_label(count as nat),
{
    let mut s = String::new();
    append_decimal(&mut s, count as u64);
    append_str(&mut s, " habit");
    if count != 1 {
        append_str(&mut s, "s");
    } else {
        append_str(&mut s, "");
    }
    append_str(&mut s, " scheduled");
    s
}

/// The tone of a day's completion percentage.
pub open spec fn intensity_tone(percentage: u16) -> Tone {
    if percentage == 0 {
        Tone::VermilionDark
    } else if percentage <= 33 {
        Tone::Indigo
    } else if percentage <= 66 {
        Tone::Gold
    } else {
        Tone::MossStrong
    }
}

pub fn contribution_text_style(percentage: u16) -> (r: Tone)
    ensures
        r == intensity_tone(percentage),
{
    if percentage == 0 {
        Tone::VermilionDark
    } else if percentage <= 33 {
        Tone::Indigo
    } else if percentage <= 66 {
        Tone::Gold
    } else {
        Tone::MossStrong
    }
}

/// A cell of the contribution graph.
#[derive(Debug, Clone, Copy)]
pub struct Glyph {
    pub symbol: &'static str,
    pub tone: Tone,
}

/// How strongly a cell is drawn: `0` for a future day, `1` for a day without
/// data, `2` for a zero-completion day and `3` to `5` for rising completion.
pub open spec fn cell_level(date: CivilDate, today: CivilDate, progress: Option<DayProgress>) -> int {
    if date_before(today, date) {
        0
    } else {
        match progress {
            None => 1,
            Some(p) => {
                let pct = progress_percentage(p.scheduled, p.completed);
                if pct == 0 {
                    2
                } else if pct <= 33 {
                    3
                } else if pct <= 66 {
                    4
                } else {
                    5
                }
            },
        }
    }
}

pub open spec fn level_symbol(level: int) -> Seq<char> {
    if level <= 1 {
        "·"@
    } else if level == 2 {
        "░"@
    } else if level == 3 {
        "▒"@
    } else if level == 4 {
        "▓"@
    } else {
        "█"@
    }
}

pub open spec fn cell_tone(date: CivilDate, today: CivilDate, progress: Option<DayProgress>) -> Tone {
    if date_before(today, date) {
        Tone::VermilionDark
    } else {
        match progress {
            None => Tone::Stone,
            Some(p) => intensity_tone(progress_percentage(p.scheduled, p.completed)),
        }
    }
}

/// The contribution cell of `date`: a dot for a future day or a day without
/// data (told apart by tone), a shade that deepens with the completion
/// percentage otherwise.
pub fn contribution_cell(date: CivilDate, today: CivilDate, progress: Option<&DayProgress>) -> (r: Glyph)
    ensures
        r.symbol@ == level_symbol(cell_level(date, today, match progress { Some(p) => Some(*p), None => None })),
        r.tone == cell_tone(date, today, match progress { Some(p) => Some(*p), None => None }),
{
    if today.is_before(&date) {
        return Glyph { symbol: "·", tone: Tone::VermilionDark };
    }
    match progress {
        None => Glyph { symbol: "·", tone: Tone::Stone },
        Some(progress) => {
            let percentage = progress.percentage();
            let symbol = if percentage == 0 {
                "░"
            } else if percentage <= 33 {
                "▒"
            } else if percentage <= 66 {
                "▓"
            } else {
                "█"
            };
            Glyph { symbol, tone: contribution_text_style(percentage) }
        },
    }
}

/// A more completed day is never drawn weaker than a less completed one, and
/// future days, days without data and zero-completion days each have their
/// own level.
pub proof fn lemma_intensity_monotone(date: CivilDate, today: CivilDate, a: DayProgress, b: DayProgress)
    requires
        !date_before(today, date),
        progress_percentage(a.scheduled, a.completed) <= progress_percentage(b.scheduled, b.completed),
    ensures
        cell_level(date, today, Some(a)) <= cell_level(date, today, Some(b)),
        cell_level(date, today, None) < cell_level(date, today, Some(a)),
        date_before(today, date) ==> cell_level(date, today, Some(a)) == 0,
{
}

/// The glyph of a contribution cell, given whether its day is in the future
/// and its day record.
pub open spec fn glyph_for(future: bool, progress: Option<DayProgress>) -> (Seq<char>, Tone) {
    if future {
        (level_symbol(0), Tone::VermilionDark)
    } else {
        match progress {
            None => (level_symbol(1), Tone::Stone),
            Some(p) => {
                let pct = progress_percentage(p.scheduled, p.completed);
                (
                    level_symbol(if pct == 0 { 2 } else if pct <= 33 { 3 } else if pct <= 66 { 4 } else { 5 }),
                    intensity_tone(pct),
                )
            },
        }
    }
}

/// The glyph of the day `t` of the contribution graph.
pub open spec fn glyph_on(today: CivilDate, contributions: Seq<DayProgress>, t: (int, int, int)) -> (Seq<char>, Tone) {
    glyph_for(
        parts_before(date_parts(today), t),
        progress_on_day(contributions, t.0, t.1, t.2, contributions.len() as int),
    )
}

pub open spec fn glyph_view(g: Glyph) -> (Seq<char>, Tone) {
    (g.symbol@, g.tone)
}

/// The glyph of a day, as `contribution_cell` draws it.
fn glyph_of(date: CivilDate, today: CivilDate, contributions: &Vec<DayProgress>) -> (r: Glyph)
    ensures
        glyph_view(r) == glyph_on(today, contributions@, date_parts(date)),
{
    let progress = progress_for(contributions, date);
    proof {
        lemma_progress_on_day(
            contributions@,
            date.year_spec() as int,
            date.month_spec() as int,
            date.day_spec() as int,
            contributions@.len() as int,
        );
    }
    match progress {
        Some(p) => contribution_cell(date, today, Some(&p)),
        None => contribution_cell(date, today, None),
    }
}

/// The dates of `count` consecutive days from `start` (saturating at the
/// last representable day).
fn consecutive_days(start: CivilDate, count: usize) -> (r: Vec<CivilDate>)
    ensures
        r@.len() == count,
        forall|k: int| 0 <= k < count ==> date_parts(#[trigger] r@[k]) == days_forward(date_parts(start), k as nat),
{
    let mut days: Vec<CivilDate> = Vec::new();
    let mut current = start;
    let mut k: usize = 0;
    while k < count
        invariant
            k <= count,
            days@.len() == k,
            forall|j: int| 0 <= j < k ==> date_parts(#[trigger] days@[j]) == days_forward(date_parts(start), j as nat),
            date_parts(current) == days_forward(date_parts(start), k as nat),
        decreases count - k,
    {
        days.push(current);
        proof {
            lemma_days_forward_step(date_parts(start), k as nat);
        }
        match current.tomorrow() {
            Some(next) => {
                current = next;
            },
            None => {},
        }
        k = k + 1;
    }
    days
}

/// The day of cell `k` of a strip of `days` cells for the current day
/// `today`, as `contribution_strip` lays the strip out.
pub open spec fn strip_day(today: CivilDate, days: int, k: int) -> (int, int, int) {
    days_forward(days_backward(date_parts(today), (if days > 0 { days - 1 } else { 0 }) as nat), k as nat)
}

/// The strip runs through consecutive days and ends with the current day:
/// cell `k` is the day `days - 1 - k` days before it, wherever the calendar
/// has room for the strip's days before the current day.
pub proof fn lemma_strip_ends_today(today: CivilDate, days: int, k: int)
    requires
        is_valid_date(today.year_spec() as int, today.month_spec() as int, today.day_spec() as int),
        0 <= k < days,
        day_number(today.year_spec() as int, today.month_spec() as int, today.day_spec() as int) - days
            >= day_number(-9999, 1, 1),
    ensures
        ({
            let t = strip_day(today, days, k);
            &&& is_valid_date(t.0, t.1, t.2)
            &&& day_number(t.0, t.1, t.2) == day_number(
                today.year_spec() as int,
                today.month_spec() as int,
                today.day_spec() as int,
            ) - (days - 1 - k)
        }),
        strip_day(today, days, days - 1) == date_parts(today),
{
    lemma_days_backward_number(date_parts(today), (days - 1) as nat);
    let start = days_backward(date_parts(today), (days - 1) as nat);
    lemma_days_forward_number(start, k as nat);
    lemma_days_round_trip(date_parts(today), (days - 1) as nat);
}

/// The strip of a short contribution panel: the `days` days that end with
/// the current day, oldest first.
pub fn contribution_strip(today: CivilDate, days: usize, contributions: &Vec<DayProgress>) -> (r: Vec<Glyph>)
    requires
        days <= u32::MAX,
    ensures
        r@.len() == days,
        forall|k: int| 0 <= k < days ==> glyph_view(#[trigger] r@[k]) == glyph_on(
            today,
            contributions@,
            strip_day(today, days as int, k),
        ),
{
    let back: u32 = if days > 0 {
        (days - 1) as u32
    } else {
        0
    };
    let start = today.days_earlier(back);
    let dates = consecutive_days(start, days);
    let mut cells: Vec<Glyph> = Vec::new();
    let mut k: usize = 0;
    while k < days
        invariant
            k <= days,
            dates@.len() == days,
            date_parts(start) == days_backward(date_parts(today), back as nat),
            back == (if days > 0 { days - 1 } else { 0 }),
            forall|j: int| 0 <= j < days ==> date_parts(#[trigger] dates@[j]) == days_forward(date_parts(start), j as nat),
            cells@.len() == k,
            forall|j: int| 0 <= j < k ==> glyph_view(#[trigger] cells@[j]) == glyph_on(
                today,
                contributions@,
                days_forward(date_parts(start), j as nat),
            ),
        decreases days - k,
    {
        cells.push(glyph_of(dates[k], today, contributions));
        k = k + 1;
    }
    cells
}

/// The day of cell `(w, c)` of a contribution grid of `weeks` columns for the
/// current day `today`, as `contribution_grid` lays the grid out.
pub open spec fn grid_day(today: CivilDate, weeks: int, w: int, c: int) -> (int, int, int) {
    let end = days_forward(
        date_parts(today),
        (6 - weekday_monday_offset(today.year_spec() as int, today.month_spec() as int, today.day_spec() as int)) as nat,
    );
    let start = days_backward(end, (weeks * 7 - 1) as nat);
    days_forward(start, (c * 7 + w) as nat)
}

/// The grid of a tall contribution panel: seven rows, Monday first, of
/// `weeks` columns; the last column is the current week, so the grid ends on
/// the Sunday of the current week.
pub fn contribution_grid(today: CivilDate, weeks: usize, contributions: &Vec<DayProgress>) -> (r: Vec<Vec<Glyph>>)
    requires
        1 <= weeks <= 1000,
    ensures
        r@.len() == 7,
        forall|w: int| 0 <= w < 7 ==> (#[trigger] r@[w])@.len() == weeks,
        forall|w: int, c: int| 0 <= w < 7 && 0 <= c < weeks ==> glyph_view(#[trigger] r@[w]@[c]) == glyph_on(
            today,
            contributions@,
            grid_day(today, weeks as int, w, c),
        ),
{
    let offset = today.monday_zero_offset();
    let end = today.days_later((6 - offset) as u32);
    let start = end.days_earlier((weeks * 7 - 1) as u32);
    let dates = consecutive_days(start, weeks * 7);
    let mut rows: Vec<Vec<Glyph>> = Vec::new();
    let mut w: usize = 0;
    while w < 7
        invariant
            w <= 7,
            1 <= weeks <= 1000,
            dates@.len() == weeks * 7,
            forall|j: int| 0 <= j < weeks * 7 ==> date_parts(#[trigger] dates@[j]) == days_forward(date_parts(start), j as nat),
            rows@.len() == w,
            forall|x: int| 0 <= x < w ==> (#[trigger] rows@[x])@.len() == weeks,
            forall|x: int, c: int| 0 <= x < w && 0 <= c < weeks ==> glyph_view(#[trigger] rows@[x]@[c]) == glyph_on(
                today,
                contributions@,
                days_forward(date_parts(start), (c * 7 + x) as nat),
            ),
        decreases 7 - w,
    {
        let mut row: Vec<Glyph> = Vec::new();
        let mut c: usize = 0;
        while c < weeks
            invariant
                c <= weeks,
                w < 7,
                1 <= weeks <= 1000,
                dates@.len() == weeks * 7,
                forall|j: int| 0 <= j < weeks * 7 ==> date_parts(#[trigger] dates@[j]) == days_forward(date_parts(start), j as nat),
                row@.len() == c,
                forall|y: int| 0 <= y < c ==> glyph_view(#[trigger] row@[y]) == glyph_on(
                    today,
                    contributions@,
                    days_forward(date_parts(start), (y * 7 + w) as nat),
                ),
            decreases weeks - c,
        {
            assert(c * 7 + w < weeks * 7) by (nonlinear_arith)
                requires
                    c < weeks,
                    w < 7,
            ;
            row.push(glyph_of(dates[c * 7 + w], today, contributions));
            c = c + 1;
        }
        rows.push(row);
        w = w + 1;
    }
    rows
}

/// Each row of the contribution grid holds one weekday, Monday first, and its
/// columns are consecutive weeks that end with the current week: cell
/// `(w, c)` is weekday `w` of the week `weeks - 1 - c` weeks before the
/// current one. This holds wherever the calendar has room for the grid's
/// weeks before the current day and for the rest of its week after it.
pub proof fn lemma_grid_rows_are_weekdays(today: CivilDate, weeks: int, w: int, c: int)
    requires
        is_valid_date(today.year_spec() as int, today.month_spec() as int, today.day_spec() as int),
        1 <= weeks,
        0 <= w < 7,
        0 <= c < weeks,
        day_number(today.year_spec() as int, today.month_spec() as int, today.day_spec() as int) + 6
            <= day_number(9999, 12, 31),
        day_number(today.year_spec() as int, today.month_spec() as int, today.day_spec() as int) - 7
            * weeks >= day_number(-9999, 1, 1),
    ensures
        ({
            let t = grid_day(today, weeks, w, c);
            let n = day_number(today.year_spec() as int, today.month_spec() as int, today.day_spec() as int);
            let wd = weekday_monday_offset(today.year_spec() as int, today.month_spec() as int, today.day_spec() as int);
            &&& is_valid_date(t.0, t.1, t.2)
            &&& weekday_monday_offset(t.0, t.1, t.2) == w
            &&& day_number(t.0, t.1, t.2) == n - wd - 7 * (weeks - 1 - c) + w
        }),
{
    let y = today.year_spec() as int;
    let m = today.month_spec() as int;
    let d = today.day_spec() as int;
    let n = day_number(y, m, d);
    let wd = weekday_monday_offset(y, m, d);
    vstd::arithmetic::div_mod::lemma_fundamental_div_mod(n + 2, 7);
    vstd::arithmetic::div_mod::lemma_mod_bound(n + 2, 7);
    let q = (n + 2) / 7;
    assert(n + 2 == 7 * q + wd);
    lemma_days_forward_number(date_parts(today), (6 - wd) as nat);
    let end = days_forward(date_parts(today), (6 - wd) as nat);
    lemma_days_backward_number(end, (weeks * 7 - 1) as nat);
    let start = days_backward(end, (weeks * 7 - 1) as nat);
    assert(day_number(start.0, start.1, start.2) == n - wd - 7 * (weeks - 1) - 1 + 1);
    assert(c * 7 + w <= weeks * 7 - 1) by (nonlinear_arith)
        requires
            c < weeks,
            w < 7,
    ;
    lemma_days_forward_number(start, (c * 7 + w) as nat);
    let t = days_forward(start, (c * 7 + w) as nat);
    assert(day_number(t.0, t.1, t.2) + 2 == (q - (weeks - 1 - c)) * 7 + w) by (nonlinear_arith)
        requires
            day_number(t.0, t.1, t.2) == n - wd - 7 * (weeks - 1) + c * 7 + w,
            n + 2 == 7 * q + wd,
    ;
    vstd::arithmetic::div_mod::lemma_fundamental_div_mod_converse(
        day_number(t.0, t.1, t.2) + 2,
        7,
        q - (weeks - 1 - c),
        w,
    );
}

/// The days of the strip shown in a short contribution panel: two columns
/// less than the panel's width, at most 42.
pub fn recent_day_count(width: u16) -> (r: usize)
    ensures
        r == (if width >= 2 { if width - 2 <= 42 { width - 2 } else { 42 } } else { 0 }),
{
    let days: u16 = if width >= 2 {
        width - 2
    } else {
        0
    };
    if days <= 42 {
        days as usize
    } else {
        42
    }
}

/// The number of weeks in a tall contribution panel: one per two columns
/// after a margin of four, between 4 and 26.
pub fn contribution_weeks(width: u16) -> (r: usize)
    ensures
        ({
            let w = if width >= 4 { (width - 4) / 2 } else { 0 };
            r == (if w < 4 { 4 } else if w > 26 { 26 } else { w })
        }),
{
    let w: u16 = if width >= 4 {
        (width - 4) / 2
    } else {
        0
    };
    if w < 4 {
        4
    } else if w > 26 {
        26
    } else {
        w as usize
    }
}

/// The last day record for `date` among the contributions.
pub open spec fn progress_on(contributions: Seq<DayProgress>, date: CivilDate, n: int) -> Option<DayProgress>
    decreases n,
{
    if n <= 0 {
        None
    } else if contributions[n - 1].date == date {
        Some(contributions[n - 1])
    } else {
        progress_on(contributions, date, n - 1)
    }
}

/// The record of `date` among the contributions (the last one, where a date
/// appears twice).
pub fn progress_for(contributions: &Vec<DayProgress>, date: CivilDate) -> (r: Option<DayProgress>)
    ensures
        r == progress_on(contributions@, date, contributions@.len() as int),
{
    let mut n = contributions.len();
    while n > 0
        invariant
            n <= contributions@.len(),
            progress_on(contributions@, date, contributions@.len() as int) == progress_on(contributions@, date, n as int),
        decreases n,
    {
        if contributions[n - 1].date.same_day(&date) {
            return Some(contributions[n - 1]);
        }
        n = n - 1;
    }
    None
}

/// One cell of the month grid.
#[derive(Debug)]
pub struct CalendarCell {
    pub text: String,
    pub tone: Tone,
}

pub struct CellView {
    pub text: Seq<char>,
    pub tone: Tone,
}

impl View for CalendarCell {
    type V = CellView;

    open spec fn view(&self) -> CellView {
        CellView { text: self.text@, tone: self.tone }
    }
}

/// The label of a day number: right-aligned in two columns, then two spaces.
pub open spec fn day_label(day: int) -> Seq<char> {
    (if day < 10 { " "@ } else { ""@ }) + decimal(day as nat) + "  "@
}

/// The cell at position `cell` (week-major, Monday first) of the month of
/// `selected`, whose first day falls on weekday `offset` and which has
/// `days` days.
pub open spec fn calendar_cell(
    selected: CivilDate,
    today: CivilDate,
    contributions: Seq<DayProgress>,
    offset: int,
    days: int,
    cell: int,
) -> CellView {
    if cell < offset || cell >= offset + days {
        CellView { text: "    "@, tone: Tone::Washi }
    } else {
        let day = cell - offset + 1;
        let text = day_label(day);
        let y = selected.year_spec() as int;
        let m = selected.month_spec() as int;
        let is_selected = day == selected.day_spec() as int;
        let is_future = y == today.year_spec() && m == today.month_spec() && day > today.day_spec() as int || (
        y == today.year_spec() && m > today.month_spec()) || y > today.year_spec();
        CellView {
            text,
            tone: if is_selected {
                Tone::Selected
            } else if is_future {
                Tone::VermilionDark
            } else {
                match progress_on_day(contributions, y, m, day, contributions.len() as int) {
                    Some(p) => intensity_tone(progress_percentage(p.scheduled, p.completed)),
                    None => if cell % 7 >= 5 { Tone::Stone } else { Tone::Washi },
                }
            },
        }
    }
}

/// The last day record for the given day among the contributions.
pub open spec fn progress_on_day(contributions: Seq<DayProgress>, y: int, m: int, d: int, n: int) -> Option<DayProgress>
    decreases n,
{
    if n <= 0 {
        None
    } else if contributions[n - 1].date.year_spec() == y && contributions[n - 1].date.month_spec() == m
        && contributions[n - 1].date.day_spec() == d {
        Some(contributions[n - 1])
    } else {
        progress_on_day(contributions, y, m, d, n - 1)
    }
}

/// The weeks of the month grid: the week rows among six that hold a day of
/// the month, each of seven cells.
pub open spec fn calendar_weeks(
    selected: CivilDate,
    today: CivilDate,
    contributions: Seq<DayProgress>,
    offset: int,
    days: int,
    weeks: int,
) -> Seq<Seq<CellView>>
    decreases weeks,
{
    if weeks <= 0 {
        Seq::empty()
    } else {
        let earlier = calendar_weeks(selected, today, contributions, offset, days, weeks - 1);
        let week = weeks - 1;
        if week * 7 + 6 < offset || week * 7 >= offset + days {
            earlier
        } else {
            earlier.push(
                Seq::new(7, |d: int| calendar_cell(selected, today, contributions, offset, days, week * 7 + d)),
            )
        }
    }
}

pub open spec fn week_views(weeks: Seq<Vec<CalendarCell>>) -> Seq<Seq<CellView>> {
    weeks.map_values(|w: Vec<CalendarCell>| w@.map_values(|c: CalendarCell| c@))
}

fn day_text(day: i8) -> (r: String)
    requires
        1 <= day <= 31,
    ensures
        r@ == day_label(day as int),
{
    let mut s = String::new();
    if day < 10 {
        append_str(&mut s, " ");
    } else {
        append_str(&mut s, "");
    }
    append_decimal(&mut s, day as u64);
    append_str(&mut s, "  ");
    s
}

/// The month grid of the selected date's month, toned by selection, by the
/// current day and by each day's completion.
pub fn calendar_lines(selected: CivilDate, today: CivilDate, contributions: &Vec<DayProgress>) -> (r: Vec<Vec<CalendarCell>>)
    ensures
        week_views(r@) == calendar_weeks(
            selected,
            today,
            contributions@,
            weekday_monday_offset(selected.year_spec() as int, selected.month_spec() as int, 1),
            crate::date::days_in_month_of(selected.year_spec() as int, selected.month_spec() as int),
            6,
        ),
{
    let year = selected.year();
    let month = selected.month();
    let first = match CivilDate::new(year, month, 1) {
        Some(first) => first,
        None => selected,
    };
    let offset = first.monday_zero_offset() as usize;
    let days = selected.days_in_month() as usize;
    let ghost off = offset as int;
    let ghost ds = days as int;
    let mut weeks: Vec<Vec<CalendarCell>> = Vec::new();
    let mut week: usize = 0;
    while week < 6
        invariant
            week <= 6,
            off == offset as int,
            ds == days as int,
            0 <= offset <= 6,
            28 <= days <= 31,
            year == selected.year_spec(),
            month == selected.month_spec(),
            -9999 <= year <= 9999,
            1 <= month <= 12,
            off == weekday_monday_offset(year as int, month as int, 1),
            ds == crate::date::days_in_month_of(year as int, month as int),
            week_views(weeks@) == calendar_weeks(selected, today, contributions@, off, ds, week as int),
        decreases 6 - week,
    {
        let mut cells: Vec<CalendarCell> = Vec::new();
        let mut has_day = false;
        let mut weekday: usize = 0;
        while weekday < 7
            invariant
                weekday <= 7,
                week < 6,
                off == offset as int,
                ds == days as int,
                0 <= offset <= 6,
                28 <= days <= 31,
                year == selected.year_spec(),
                month == selected.month_spec(),
                -9999 <= year <= 9999,
                1 <= month <= 12,
                ds == crate::date::days_in_month_of(year as int, month as int),
                cells@.map_values(|c: CalendarCell| c@) =~= Seq::new(
                    weekday as nat,
                    |d: int| calendar_cell(selected, today, contributions@, off, ds, week * 7 + d),
                ),
                has_day == (weekday > 0 && week * 7 < off + ds && week * 7 + weekday - 1 >= off),
            decreases 7 - weekday,
        {
            let cell = week * 7 + weekday;
            let ghost before = cells@;
            assert((week * 7 + weekday) % 7 == weekday as int) by (nonlinear_arith)
                requires
                    weekday < 7,
            ;
            if cell < offset || cell >= offset + days {
                let mut text = String::new();
                append_str(&mut text, "    ");
                cells.push(CalendarCell { text, tone: Tone::Washi });
            } else {
                has_day = true;
                let day = (cell - offset + 1) as i8;
                let text = day_text(day);
                proof {
                    lemma_progress_on_day(contributions@, year as int, month as int, day as int, contributions@.len() as int);
                    assert(day as int == cell - offset + 1);
                }
                let tone = match CivilDate::new(year, month, day) {
                    Some(date) => {
                        proof {
                            lemma_date_parts_determine(date, selected);
                        }
                        if date.same_day(&selected) {
                            Tone::Selected
                        } else if today.is_before(&date) {
                            Tone::VermilionDark
                        } else {
                            let found = progress_for(contributions, date);
                            match found {
                                Some(p) => contribution_text_style(p.percentage()),
                                None => if weekday >= 5 {
                                    Tone::Stone
                                } else {
                                    Tone::Washi
                                },
                            }
                        }
                    },
                    None => {
                        assert(false);
                        Tone::Washi
                    },
                };
                cells.push(CalendarCell { text, tone });
            }
            assert(cells@.map_values(|c: CalendarCell| c@) =~= before.map_values(|c: CalendarCell| c@).push(
                calendar_cell(selected, today, contributions@, off, ds, week * 7 + weekday),
            ));
            weekday = weekday + 1;
        }
        let ghost before = weeks@;
        if has_day {
            weeks.push(cells);
            assert(week_views(weeks@) =~= week_views(before).push(
                Seq::new(7, |d: int| calendar_cell(selected, today, contributions@, off, ds, week * 7 + d)),
            ));
        }
        week = week + 1;
    }
    weeks
}

proof fn lemma_progress_on_day(contributions: Seq<DayProgress>, y: int, m: int, d: int, n: int)
    requires
        0 <= n <= contributions.len(),
    ensures
        forall|date: CivilDate| date.year_spec() == y && date.month_spec() == m && date.day_spec() == d
            ==> #[trigger] progress_on(contributions, date, n) == progress_on_day(contributions, y, m, d, n),
    decreases n,
{
    if n > 0 {
        lemma_progress_on_day(contributions, y, m, d, n - 1);
        assert forall|date: CivilDate| date.year_spec() == y && date.month_spec() == m
            && date.day_spec() == d implies #[trigger] progress_on(contributions, date, n)
            == progress_on_day(contributions, y, m, d, n) by {
            lemma_date_parts_determine(contributions[n - 1].date, date);
            assert(progress_on(contributions, date, n - 1) == progress_on_day(contributions, y, m, d, n - 1));
            if contributions[n - 1].date == date {
                assert(progress_on(contributions, date, n) == Some(contributions[n - 1]));
                assert(progress_on_day(contributions, y, m, d, n) == Some(contributions[n - 1]));
            } else {
                assert(progress_on(contributions, date, n) == progress_on(contributions, date, n - 1));
                assert(progress_on_day(contributions, y, m, d, n) == progress_on_day(contributions, y, m, d, n - 1));
            }
        }
    }
}

/// A week row of the month grid: seven cells from position `week * 7`.
pub open spec fn calendar_row(
    selected: CivilDate,
    today: CivilDate,
    contributions: Seq<DayProgress>,
    offset: int,
    days: int,
    week: int,
) -> Seq<CellView> {
    Seq::new(7, |x: int| calendar_cell(selected, today, contributions, offset, days, week * 7 + x))
}

proof fn lemma_calendar_weeks_len(
    selected: CivilDate,
    today: CivilDate,
    contributions: Seq<DayProgress>,
    offset: int,
    days: int,
    n: int,
)
    requires
        0 <= offset <= 6,
        0 <= n,
        n == 0 || (n - 1) * 7 < offset + days,
    ensures
        calendar_weeks(selected, today, contributions, offset, days, n).len() == n,
    decreases n,
{
    if n > 0 {
        lemma_calendar_weeks_len(selected, today, contributions, offset, days, n - 1);
    }
}

proof fn lemma_calendar_week_at(
    selected: CivilDate,
    today: CivilDate,
    contributions: Seq<DayProgress>,
    offset: int,
    days: int,
    n: int,
    k: int,
)
    requires
        0 <= offset <= 6,
        0 <= k < n,
        k * 7 < offset + days,
    ensures
        k < calendar_weeks(selected, today, contributions, offset, days, n).len(),
        calendar_weeks(selected, today, contributions, offset, days, n)[k] == calendar_row(
            selected,
            today,
            contributions,
            offset,
            days,
            k,
        ),
    decreases n,
{
    let earlier = calendar_weeks(selected, today, contributions, offset, days, n - 1);
    let week = n - 1;
    if k == n - 1 {
        lemma_calendar_weeks_len(selected, today, contributions, offset, days, n - 1);
        let row = Seq::new(
            7,
            |x: int| calendar_cell(selected, today, contributions, offset, days, week * 7 + x),
        );
        assert(row =~= calendar_row(selected, today, contributions, offset, days, week));
        assert(calendar_weeks(selected, today, contributions, offset, days, n) == earlier.push(row));
    } else {
        lemma_calendar_week_at(selected, today, contributions, offset, days, n - 1, k);
    }
}

/// The month grid highlights the selected day and no other: the cell of day
/// `d` of the viewed month has the selected tone exactly when `d` is the
/// selected date's day, whatever the current day and the day records.
pub proof fn lemma_calendar_highlights_the_selected_day(
    selected: CivilDate,
    today: CivilDate,
    contributions: Seq<DayProgress>,
    d: int,
)
    requires
        is_valid_date(selected.year_spec() as int, selected.month_spec() as int, selected.day_spec() as int),
        1 <= d <= days_in_month_of(selected.year_spec() as int, selected.month_spec() as int),
    ensures
        ({
            let y = selected.year_spec() as int;
            let m = selected.month_spec() as int;
            let offset = weekday_monday_offset(y, m, 1);
            let days = days_in_month_of(y, m);
            let weeks = calendar_weeks(selected, today, contributions, offset, days, 6);
            let i = offset + d - 1;
            &&& i / 7 < weeks.len()
            &&& (weeks[i / 7][i % 7].tone == Tone::Selected <==> d == selected.day_spec())
        }),
{
    lemma_calendar_columns_are_weekdays(selected, today, contributions, d);
    let y = selected.year_spec() as int;
    let m = selected.month_spec() as int;
    let offset = weekday_monday_offset(y, m, 1);
    let days = days_in_month_of(y, m);
    let i = offset + d - 1;
    vstd::arithmetic::div_mod::lemma_fundamental_div_mod(i, 7);
    vstd::arithmetic::div_mod::lemma_mod_bound(i, 7);
    vstd::arithmetic::div_mod::lemma_mod_bound(day_number(y, m, 1) + 2, 7);
    assert(i / 7 < 6 && (i / 7) * 7 < offset + days) by (nonlinear_arith)
        requires
            i == 7 * (i / 7) + i % 7,
            0 <= i % 7 < 7,
            0 <= offset <= 6,
            days <= 31,
            i == offset + d - 1,
            1 <= d <= days,
    ;
    lemma_calendar_week_at(selected, today, contributions, offset, days, 6, i / 7);
    assert((i / 7) * 7 + i % 7 == i);
    let cell = calendar_cell(selected, today, contributions, offset, days, i);
    match progress_on_day(contributions, y, m, d, contributions.len() as int) {
        Some(p) => {
            assert(intensity_tone(progress_percentage(p.scheduled, p.completed)) != Tone::Selected);
        },
        None => {},
    }
}

/// The headline of a day that is not in the future reads `P%  C of T
/// complete`: the percentage, then the completed count before ` of ` and the
/// total after it. A future day's headline is its scheduled-habit label.
pub proof fn lemma_headline_reads_completed_of_total(percentage: u16, completed: nat, total: nat)
    ensures
        headline(false, percentage, completed, total) == decimal(percentage as nat) + "%  "@ + decimal(
            completed,
        ) + " of "@ + decimal(total) + " complete"@,
        headline(true, percentage, completed, total) == decimal(total) + " habit"@ + (if total == 1 {
            ""@
        } else {
            "s"@
        }) + " scheduled"@,
{
}

/// Every day of the viewed month appears in the month grid with its label,
/// in the column of its weekday (Monday first): day `d` sits at position
/// `offset + d - 1`, row by row, after the `offset` blank cells before the
/// first of the month.
pub proof fn lemma_calendar_columns_are_weekdays(
    selected: CivilDate,
    today: CivilDate,
    contributions: Seq<DayProgress>,
    d: int,
)
    requires
        is_valid_date(selected.year_spec() as int, selected.month_spec() as int, selected.day_spec() as int),
        1 <= d <= days_in_month_of(selected.year_spec() as int, selected.month_spec() as int),
    ensures
        ({
            let y = selected.year_spec() as int;
            let m = selected.month_spec() as int;
            let offset = weekday_monday_offset(y, m, 1);
            let days = days_in_month_of(y, m);
            let weeks = calendar_weeks(selected, today, contributions, offset, days, 6);
            let i = offset + d - 1;
            &&& i / 7 < weeks.len()
            &&& weeks[i / 7].len() == 7
            &&& weeks[i / 7][i % 7].text == day_label(d)
            &&& i % 7 == weekday_monday_offset(y, m, d)
        }),
{
    let y = selected.year_spec() as int;
    let m = selected.month_spec() as int;
    let offset = weekday_monday_offset(y, m, 1);
    let days = days_in_month_of(y, m);
    let i = offset + d - 1;
    let n1 = day_number(y, m, 1);
    vstd::arithmetic::div_mod::lemma_fundamental_div_mod(n1 + 2, 7);
    vstd::arithmetic::div_mod::lemma_mod_bound(n1 + 2, 7);
    vstd::arithmetic::div_mod::lemma_fundamental_div_mod(i, 7);
    vstd::arithmetic::div_mod::lemma_mod_bound(i, 7);
    let q = (n1 + 2) / 7;
    assert(day_number(y, m, d) == n1 + d - 1);
    assert(day_number(y, m, d) + 2 == (q + i / 7) * 7 + i % 7) by (nonlinear_arith)
        requires
            n1 + 2 == 7 * q + offset,
            i == 7 * (i / 7) + i % 7,
            i == offset + d - 1,
            day_number(y, m, d) == n1 + d - 1,
    ;
    vstd::arithmetic::div_mod::lemma_fundamental_div_mod_converse(
        day_number(y, m, d) + 2,
        7,
        q + i / 7,
        i % 7,
    );
    assert(i / 7 < 6 && (i / 7) * 7 < offset + days) by (nonlinear_arith)
        requires
            i == 7 * (i / 7) + i % 7,
            0 <= i % 7 < 7,
            0 <= offset <= 6,
            days <= 31,
            i == offset + d - 1,
            1 <= d <= days,
    ;
    lemma_calendar_week_at(selected, today, contributions, offset, days, 6, i / 7);
    assert((i / 7) * 7 + i % 7 == i);
}

/// The headline of the status panel.
pub open spec fn headline(viewing_future: bool, percentage: u16, completed: nat, total: nat) -> Seq<char> {
    if viewing_future {
        scheduled_label(total)
    } else {
        decimal(percentage as nat) + "%  "@ + decimal(completed) + " of "@ + decimal(total)
            + " complete"@
    }
}

/// `P%  C of T complete`, or the number of scheduled habits of a future day.
pub fn status_headline(viewing_future: bool, percentage: u16, completed: usize, total: usize) -> (r: String)
    ensures
        r@ == headline(viewing_future, percentage, completed as nat, total as nat),
{
    if viewing_future {
        return scheduled_habit_label(total);
    }
    let mut s = String::new();
    append_decimal(&mut s, percentage as u64);
    append_str(&mut s, "%  ");
    append_decimal(&mut s, completed as u64);
    append_str(&mut s, " of ");
    append_decimal(&mut s, total as u64);
    append_str(&mut s, " complete");
    s
}

/// The line of guidance under the progress gauge.
#[derive(Debug, Clone, Copy, PartialEq, Eq, Structural)]
pub enum Guidance {
    /// A future day: progress begins when the day starts.
    Upcoming,
    /// A past day: read-only, `t` returns to today.
    History,
    /// Nothing scheduled today: `n` creates a habit.
    FirstStep,
    /// Every habit of today is complete.
    Complete,
    /// Habits remain.
    Continue,
}

pub open spec fn guidance_for(viewing_future: bool, viewing_today: bool, completed: nat, total: nat) -> Guidance {
    if viewing_future {
        Guidance::Upcoming
    } else if !viewing_today {
        Guidance::History
    } else if total == 0 {
        Guidance::FirstStep
    } else if completed == total {
        Guidance::Complete
    } else {
        Guidance::Continue
    }
}

pub fn guidance(viewing_future: bool, viewing_today: bool, completed: usize, total: usize) -> (r: Guidance)
    ensures
        r == guidance_for(viewing_future, viewing_today, completed as nat, total as nat),
{
    if viewing_future {
        Guidance::Upcoming
    } else if !viewing_today {
        Guidance::History
    } else if total == 0 {
        Guidance::FirstStep
    } else if completed == total {
        Guidance::Complete
    } else {
        Guidance::Continue
    }
}

/// The title of the today panel.
pub open spec fn today_panel_title(v: DayView) -> Seq<char> {
    if v.selected_date == v.today {
        " 今日  TODAY "@
    } else if date_before(v.today, v.selected_date) {
        " 予定  UPCOMING · "@ + iso_date(v.selected_date) + " "@
    } else {
        " 履歴  "@ + iso_date(v.selected_date) + " "@
    }
}

pub fn today_title(v: &DayView) -> (r: String)
    ensures
        r@ == today_panel_title(*v),
{
    if v.selected_date.same_day(&v.today) {
        let mut s = String::new();
        append_str(&mut s, " 今日  TODAY ");
        s
    } else if v.today.is_before(&v.selected_date) {
        let mut s = String::new();
        append_str(&mut s, " 予定  UPCOMING · ");
        append_str(&mut s, v.selected_date.to_iso_string().as_str());
        append_str(&mut s, " ");
        s
    } else {
        let mut s = String::new();
        append_str(&mut s, " 履歴  ");
        append_str(&mut s, v.selected_date.to_iso_string().as_str());
        append_str(&mut s, " ");
        s
    }
}

/// The title of the calendar panel: the selected month and year.
pub open spec fn calendar_panel_title(d: CivilDate) -> Seq<char> {
    " 暦  ‹ "@ + month_label(d.month_spec() as int) + " "@ + signed_decimal(d.year_spec() as int)
        + " › "@
}

pub fn calendar_title(d: CivilDate) -> (r: String)
    ensures
        r@ == calendar_panel_title(d),
{
    let mut s = String::new();
    append_str(&mut s, " 暦  ‹ ");
    append_str(&mut s, month_name(d.month()));
    append_str(&mut s, " ");
    append_signed_decimal(&mut s, d.year() as i64);
    append_str(&mut s, " › ");
    s
}

/// The summary line under the calendar.
pub open spec fn calendar_summary_text(v: DayView) -> Seq<char> {
    let d = iso_date(v.selected_date);
    if date_before(v.today, v.selected_date) {
        d + "  ·  "@ + scheduled_label(v.projected_habits@.len())
    } else {
        match progress_on(v.contributions@, v.selected_date, v.contributions@.len() as int) {
            None => d + "  ·  no habits"@,
            Some(p) => d + "  ·  "@ + decimal(progress_percentage(p.scheduled, p.completed) as nat)
                + "%  ["@ + decimal(p.completed as nat) + "/"@ + decimal(p.scheduled as nat) + "]"@,
        }
    }
}

pub fn calendar_summary(v: &DayView) -> (r: String)
    ensures
        r@ == calendar_summary_text(*v),
{
    let mut s = v.selected_date.to_iso_string();
    if v.today.is_before(&v.selected_date) {
        append_str(&mut s, "  ·  ");
        let label = scheduled_habit_label(v.projected_habits.len());
        append_str(&mut s, label.as_str());
        return s;
    }
    match progress_for(&v.contributions, v.selected_date) {
        None => append_str(&mut s, "  ·  no habits"),
        Some(p) => {
            append_str(&mut s, "  ·  ");
            append_decimal(&mut s, p.percentage() as u64);
            append_str(&mut s, "%  [");
            append_decimal(&mut s, p.completed as u64);
            append_str(&mut s, "/");
            append_decimal(&mut s, p.scheduled as u64);
            append_str(&mut s, "]");
        },
    }
    s
}

/// The number of completed habits among the listed indices.
pub open spec fn completed_at(habits: Seq<TodayHabit>, indices: Seq<usize>, n: int) -> nat
    decreases n,
{
    if n <= 0 {
        0
    } else {
        completed_at(habits, indices, n - 1) + if habits[indices[n - 1] as int].completed {
            1nat
        } else {
            0nat
        }
    }
}

/// The tally of a routine group, `  [C / T]`: completed habits of the group
/// and habits in it.
pub fn group_tally(habits: &Vec<TodayHabit>, indices: &Vec<usize>) -> (r: String)
    requires
        forall|k: int| 0 <= k < indices@.len() ==> #[trigger] indices@[k] < habits@.len(),
    ensures
        r@ == "  ["@ + decimal(completed_at(habits@, indices@, indices@.len() as int)) + " / "@
            + decimal(indices@.len()) + "]"@,
{
    let mut completed: usize = 0;
    let mut i: usize = 0;
    while i < indices.len()
        invariant
            i <= indices@.len(),
            forall|k: int| 0 <= k < indices@.len() ==> #[trigger] indices@[k] < habits@.len(),
            completed == completed_at(habits@, indices@, i as int),
            completed <= i,
        decreases indices@.len() - i,
    {
        if habits[indices[i]].completed {
            completed = completed + 1;
        }
        i = i + 1;
    }
    let mut s = String::new();
    append_str(&mut s, "  [");
    append_decimal(&mut s, completed as u64);
    append_str(&mut s, " / ");
    append_decimal(&mut s, indices.len() as u64);
    append_str(&mut s, "]");
    s
}

/// The first line shown of a list whose selected line must stay visible in
/// `visible` lines.
pub fn scroll_start(selected_line: usize, visible: usize) -> (r: usize)
    ensures
        r == (if visible == 0 { selected_line as int } else if selected_line + 1 >= visible {
            selected_line + 1 - visible
        } else {
            0
        }),
{
    let room = if visible > 0 {
        visible - 1
    } else {
        0
    };
    if selected_line >= room {
        selected_line - room
    } else {
        0
    }
}

/// The hint under a name field: how many characters are left.
pub fn remaining_hint(maximum: usize, used: usize) -> (r: String)
    requires
        used <= maximum,
    ensures
        r@ == decimal((maximum - used) as nat) + " characters remaining"@,
{
    let mut s = String::new();
    append_decimal(&mut s, (maximum - used) as u64);
    append_str(&mut s, " characters remaining");
    s
}

/// The label at the right of the header: the personal data environment, or
/// development for any other.
pub open spec fn environment_badge_text(environment: Seq<char>) -> (Seq<char>, Tone) {
    if environment == "personal"@ {
        ("LOCAL · PERSONAL"@, Tone::Moss)
    } else {
        ("DEVELOPMENT"@, Tone::Gold)
    }
}

pub fn environment_badge(environment: &str) -> (r: (&'static str, Tone))
    ensures
        (r.0@, r.1) == environment_badge_text(environment@),
{
    if str_eq(environment, "personal") {
        ("LOCAL · PERSONAL", Tone::Moss)
    } else {
        ("DEVELOPMENT", Tone::Gold)
    }
}

/// The line under a name field: its error, or how many more characters fit.
pub open spec fn name_hint_text(value: Seq<char>, maximum: nat, error: Option<Seq<char>>) -> (
    Seq<char>,
    Tone,
) {
    match error {
        Some(e) => (e, Tone::Vermilion),
        None => {
            let used = if value.len() <= maximum {
                value.len()
            } else {
                maximum
            };
            (decimal((maximum - used) as nat) + " characters remaining"@, Tone::Stone)
        },
    }
}

pub fn name_hint(value: &String, maximum: usize, error: &Option<String>) -> (r: (String, Tone))
    ensures
        (r.0@, r.1) == name_hint_text(
            value@,
            maximum as nat,
            match error {
                Some(e) => Some(e@),
                None => None,
            },
        ),
{
    match error {
        Some(e) => (e.clone(), Tone::Vermilion),
        None => {
            let length = value.as_str().unicode_len();
            let used = if length <= maximum {
                length
            } else {
                maximum
            };
            (remaining_hint(maximum, used), Tone::Stone)
        },
    }
}

/// The line at the bottom of the settings dialog: its error, or the keys.
pub fn settings_hint(error: &Option<String>) -> (r: (String, Tone))
    ensures
        (r.0@, r.1) == (match error {
            Some(e) => (e@, Tone::Vermilion),
            None => ("Tab changes field · Enter saves"@, Tone::Stone),
        }),
{
    match error {
        Some(e) => (e.clone(), Tone::Vermilion),
        None => ("Tab changes field · Enter saves".to_string(), Tone::Stone),
    }
}

/// The two headings of the settings dialog, each with whether it carries the
/// focus: the focused field is marked with `›`, and the routine list's
/// heading then also says how to toggle a routine.
pub open spec fn settings_heading_texts(focus: SettingsFocus) -> ((Seq<char>, bool), (Seq<char>, bool)) {
    match focus {
        SettingsFocus::Name => (("› NAME"@, true), ("  ROUTINES"@, false)),
        SettingsFocus::Routines => (("  NAME"@, false), ("› ROUTINES  [space toggles]"@, true)),
    }
}

pub fn settings_headings(focus: SettingsFocus) -> (r: ((&'static str, bool), (&'static str, bool)))
    ensures
        ((r.0.0@, r.0.1), (r.1.0@, r.1.1)) == settings_heading_texts(focus),
{
    match focus {
        SettingsFocus::Name => (("› NAME", true), ("  ROUTINES", false)),
        SettingsFocus::Routines => (("  NAME", false), ("› ROUTINES  [space toggles]", true)),
    }
}

/// The marks of routine `index` in the settings dialog: the cursor `›` where
/// the routine list has the focus and the cursor is on this routine, and a
/// filled marker in moss for a routine the habit belongs to, an open one in
/// stone otherwise.
pub open spec fn choice_mark_texts(
    focus: SettingsFocus,
    index: int,
    routine_cursor: int,
    selected: bool,
) -> (Seq<char>, Seq<char>, Tone) {
    (
        if focus == SettingsFocus::Routines && index == routine_cursor {
            "›"@
        } else {
            " "@
        },
        if selected {
            "●"@
        } else {
            "○"@
        },
        if selected {
            Tone::Moss
        } else {
            Tone::Stone
        },
    )
}

pub fn choice_marks(focus: SettingsFocus, index: usize, routine_cursor: usize, selected: bool) -> (r: (
    &'static str,
    &'static str,
    Tone,
))
    ensures
        (r.0@, r.1@, r.2) == choice_mark_texts(focus, index as int, routine_cursor as int, selected),
{
    let cursor = if focus == SettingsFocus::Routines && index == routine_cursor {
        "›"
    } else {
        " "
    };
    if selected {
        (cursor, "●", Tone::Moss)
    } else {
        (cursor, "○", Tone::Stone)
    }
}

} // verus!
