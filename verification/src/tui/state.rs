//! The dashboard's key-handling state machine.
//!
//! A key press moves the dashboard state and names at most one command for
//! the application core (create, update, toggle, view another day, quit).
//! The terminal loop performs the command and hands its outcome back, which
//! settles the selection, the dialog and the notice.

use vstd::prelude::*;

use crate::app::DayView;
use crate::date::{date_before, iso_date, next_day, previous_day, shifted_month, month_shift_fits, CivilDate};
use crate::habit::{routine_views, Routine, RoutineView, TodayHabit, MAX_HABIT_NAME_CHARS, MAX_ROUTINE_NAME_CHARS};
use crate::text::{append_str, pop_char, push_char, trim, trim_chars};
use crate::tui::groups::{entries_of, grouped, habit_entries, has_routine, listed, HabitEntry};
use crate::tui::layout::{next_view, DashboardView};

verus! {

/// A key as the dashboard reads it.
#[derive(Debug, Clone, Copy, PartialEq, Eq, Structural)]
pub enum KeyCode {
    Char(char),
    Enter,
    Esc,
    Backspace,
    Tab,
    Up,
    Down,
    Left,
    Right,
    Other,
}

/// A key press with the modifiers that the dashboard distinguishes.
#[derive(Debug, Clone, Copy, PartialEq, Eq, Structural)]
pub struct KeyPress {
    pub code: KeyCode,
    pub control: bool,
    pub alt: bool,
}

/// Which field of the habit settings dialog has the focus.
#[derive(Debug, Clone, Copy, PartialEq, Eq, Structural)]
pub enum SettingsFocus {
    Name,
    Routines,
}

/// A routine in the settings dialog, with whether the habit belongs to it.
#[derive(Debug)]
pub struct RoutineChoice {
    pub routine: Routine,
    pub selected: bool,
}

/// What the dashboard is doing with the keyboard.
#[derive(Debug)]
pub enum InputMode {
    Normal,
    CreatingHabit { value: String, error: Option<String> },
    CreatingRoutine { value: String, error: Option<String> },
    EditingHabit {
        habit_id: i64,
        name: String,
        routines: Vec<RoutineChoice>,
        focus: SettingsFocus,
        routine_cursor: usize,
        error: Option<String>,
    },
}

/// A one-line message in the footer.
#[derive(Debug)]
pub struct Notice {
    pub message: String,
    pub is_error: bool,
}

/// The dashboard's state apart from the application core.
#[derive(Debug)]
pub struct TuiState {
    pub selected: usize,
    pub view: DashboardView,
    pub mode: InputMode,
    pub notice: Option<Notice>,
}

/// What the application core is asked to do.
#[derive(Debug)]
pub enum Command {
    /// Nothing.
    Stay,
    /// Leave the dashboard.
    Quit,
    CreateHabit(String),
    CreateRoutine(String),
    UpdateHabitSettings { habit_id: i64, name: String, routine_ids: Vec<i64> },
    Toggle {
        occurrence_id: i64,
        routine_id: Option<i64>,
        habit_name: String,
        was_completed: bool,
        previous_selection: usize,
    },
    SelectDate(CivilDate),
}

pub struct ChoiceView {
    pub routine: RoutineView,
    pub selected: bool,
}

#[verifier::ext_equal]
pub enum ModeView {
    Normal,
    CreatingHabit { value: Seq<char>, error: Option<Seq<char>> },
    CreatingRoutine { value: Seq<char>, error: Option<Seq<char>> },
    EditingHabit {
        habit_id: i64,
        name: Seq<char>,
        routines: Seq<ChoiceView>,
        focus: SettingsFocus,
        routine_cursor: usize,
        error: Option<Seq<char>>,
    },
}

pub struct NoticeView {
    pub message: Seq<char>,
    pub is_error: bool,
}

#[verifier::ext_equal]
pub struct StateView {
    pub selected: usize,
    pub view: DashboardView,
    pub mode: ModeView,
    pub notice: Option<NoticeView>,
}

#[verifier::ext_equal]
pub enum CommandView {
    Stay,
    Quit,
    CreateHabit(Seq<char>),
    CreateRoutine(Seq<char>),
    UpdateHabitSettings { habit_id: i64, name: Seq<char>, routine_ids: Seq<i64> },
    Toggle {
        occurrence_id: i64,
        routine_id: Option<i64>,
        habit_name: Seq<char>,
        was_completed: bool,
        previous_selection: usize,
    },
    SelectDate(int, int, int),
}

pub open spec fn text_view(o: Option<String>) -> Option<Seq<char>> {
    match o {
        Some(s) => Some(s@),
        None => None,
    }
}

pub open spec fn choice_views(cs: Seq<RoutineChoice>) -> Seq<ChoiceView> {
    cs.map_values(|c: RoutineChoice| ChoiceView { routine: c.routine@, selected: c.selected })
}

pub open spec fn date_triple(d: CivilDate) -> (int, int, int) {
    (d.year_spec() as int, d.month_spec() as int, d.day_spec() as int)
}

impl View for InputMode {
    type V = ModeView;

    open spec fn view(&self) -> ModeView {
        match self {
            InputMode::Normal => ModeView::Normal,
            InputMode::CreatingHabit { value, error } => ModeView::CreatingHabit {
                value: value@,
                error: text_view(*error),
            },
            InputMode::CreatingRoutine { value, error } => ModeView::CreatingRoutine {
                value: value@,
                error: text_view(*error),
            },
            InputMode::EditingHabit { habit_id, name, routines, focus, routine_cursor, error } =>
                ModeView::EditingHabit {
                habit_id: *habit_id,
                name: name@,
                routines: choice_views(routines@),
                focus: *focus,
                routine_cursor: *routine_cursor,
                error: text_view(*error),
            },
        }
    }
}

pub open spec fn notice_view(n: Option<Notice>) -> Option<NoticeView> {
    match n {
        Some(n) => Some(NoticeView { message: n.message@, is_error: n.is_error }),
        None => None,
    }
}

impl View for TuiState {
    type V = StateView;

    open spec fn view(&self) -> StateView {
        StateView {
            selected: self.selected,
            view: self.view,
            mode: self.mode@,
            notice: notice_view(self.notice),
        }
    }
}

impl View for Command {
    type V = CommandView;

    open spec fn view(&self) -> CommandView {
        match self {
            Command::Stay => CommandView::Stay,
            Command::Quit => CommandView::Quit,
            Command::CreateHabit(name) => CommandView::CreateHabit(name@),
            Command::CreateRoutine(name) => CommandView::CreateRoutine(name@),
            Command::UpdateHabitSettings { habit_id, name, routine_ids } =>
                CommandView::UpdateHabitSettings {
                habit_id: *habit_id,
                name: name@,
                routine_ids: routine_ids@,
            },
            Command::Toggle {
                occurrence_id,
                routine_id,
                habit_name,
                was_completed,
                previous_selection,
            } => CommandView::Toggle {
                occurrence_id: *occurrence_id,
                routine_id: *routine_id,
                habit_name: habit_name@,
                was_completed: *was_completed,
                previous_selection: *previous_selection,
            },
            Command::SelectDate(d) => {
                let (y, m, dd) = date_triple(*d);
                CommandView::SelectDate(y, m, dd)
            },
        }
    }
}

// ---------------------------------------------------------------------------
// The transition table.
// ---------------------------------------------------------------------------

/// The rows of the today panel for a view.
pub open spec fn view_entries(v: DayView) -> Seq<HabitEntry> {
    entries_of(grouped(v.habits@, routine_views(v.routines@)))
}

pub open spec fn viewing_today(v: DayView) -> bool {
    v.selected_date == v.today
}

pub open spec fn viewing_future(v: DayView) -> bool {
    date_before(v.today, v.selected_date)
}

/// The error notice for a change refused on a read-only day.
pub open spec fn read_only_message(v: DayView) -> Seq<char> {
    if viewing_future(v) {
        iso_date(v.selected_date) + " is an upcoming preview · press t for today"@
    } else {
        iso_date(v.selected_date) + " is read-only history · press t for today"@
    }
}

pub open spec fn with_notice(s: StateView, n: Option<NoticeView>) -> StateView {
    StateView { notice: n, ..s }
}

pub open spec fn read_only(s: StateView, v: DayView) -> StateView {
    with_notice(s, Some(NoticeView { message: read_only_message(v), is_error: true }))
}

pub open spec fn enter_mode(s: StateView, m: ModeView) -> StateView {
    StateView { mode: m, notice: None, ..s }
}

/// The settings dialog for habit `h`: its id and name, and every routine of
/// the list, marked where the habit belongs to it.
pub open spec fn settings_for(h: TodayHabit, routines: Seq<Routine>) -> ModeView {
    ModeView::EditingHabit {
        habit_id: h.habit_id,
        name: h.name@,
        routines: Seq::new(
            routines.len(),
            |i: int|
                ChoiceView {
                    routine: routines[i]@,
                    selected: has_routine(routine_views(h.routines@), routines[i].id),
                },
        ),
        focus: SettingsFocus::Name,
        routine_cursor: 0,
        error: None,
    }
}

pub open spec fn select_day(s: StateView, target: Option<(int, int, int)>) -> (StateView, CommandView) {
    match target {
        Some((y, m, d)) => (s, CommandView::SelectDate(y, m, d)),
        None => (s, CommandView::Stay),
    }
}

pub open spec fn normal_step(s: StateView, key: KeyPress, v: DayView) -> (StateView, CommandView) {
    let entries = view_entries(v);
    match key.code {
        KeyCode::Char('q') | KeyCode::Esc => (s, CommandView::Quit),
        KeyCode::Tab => (StateView { view: next_view(s.view), notice: None, ..s }, CommandView::Stay),
        KeyCode::Char('n') => if viewing_today(v) {
            (
                enter_mode(s, ModeView::CreatingHabit { value: Seq::empty(), error: None }),
                CommandView::Stay,
            )
        } else {
            (read_only(s, v), CommandView::Stay)
        },
        KeyCode::Char('r') => if viewing_today(v) {
            (
                enter_mode(s, ModeView::CreatingRoutine { value: Seq::empty(), error: None }),
                CommandView::Stay,
            )
        } else {
            (read_only(s, v), CommandView::Stay)
        },
        KeyCode::Char('e') => if !viewing_today(v) {
            (read_only(s, v), CommandView::Stay)
        } else if s.selected < entries.len() {
            (
                enter_mode(s, settings_for(v.habits@[entries[s.selected as int].habit_index as int], v.routines@)),
                CommandView::Stay,
            )
        } else {
            (s, CommandView::Stay)
        },
        KeyCode::Up | KeyCode::Char('k') => if entries.len() > 0 {
            (
                StateView { selected: if s.selected > 0 { (s.selected - 1) as usize } else { 0 }, ..s },
                CommandView::Stay,
            )
        } else {
            (s, CommandView::Stay)
        },
        KeyCode::Down | KeyCode::Char('j') => if entries.len() > 0 {
            (
                StateView {
                    selected: if s.selected + 1 < entries.len() {
                        (s.selected + 1) as usize
                    } else {
                        (entries.len() - 1) as usize
                    },
                    ..s
                },
                CommandView::Stay,
            )
        } else {
            (s, CommandView::Stay)
        },
        KeyCode::Left | KeyCode::Char('h') => select_day(s, previous_day(v.selected_date)),
        KeyCode::Right | KeyCode::Char('l') => select_day(s, next_day(v.selected_date)),
        KeyCode::Char('[') => select_day(s, Some(shifted_month(v.selected_date, -1))),
        KeyCode::Char(']') => select_day(s, Some(shifted_month(v.selected_date, 1))),
        KeyCode::Char('t') => select_day(s, Some(date_triple(v.today))),
        KeyCode::Char(' ') => if s.selected < entries.len() {
            let entry = entries[s.selected as int];
            let h = v.habits@[entry.habit_index as int];
            (
                s,
                CommandView::Toggle {
                    occurrence_id: h.occurrence_id,
                    routine_id: entry.routine_id,
                    habit_name: h.name@,
                    was_completed: h.completed,
                    previous_selection: s.selected,
                },
            )
        } else {
            (s, CommandView::Stay)
        },
        _ => (s, CommandView::Stay),
    }
}

/// The value and error of a name field after a key: `Backspace` removes the
/// last character, a plain character is added while fewer than `maximum`
/// are present; either clears the error.
pub open spec fn edited_field(value: Seq<char>, error: Option<Seq<char>>, key: KeyPress, maximum: nat) -> Option<(Seq<char>, Option<Seq<char>>)> {
    match key.code {
        KeyCode::Backspace => Some(
            (if value.len() > 0 { value.drop_last() } else { value }, None),
        ),
        KeyCode::Char(c) => if !key.control && !key.alt && value.len() < maximum {
            Some((value.push(c), None))
        } else {
            None
        },
        _ => None,
    }
}

pub open spec fn name_dialog_step(s: StateView, key: KeyPress, habit: bool, value: Seq<char>, error: Option<Seq<char>>) -> (StateView, CommandView) {
    let maximum = if habit { MAX_HABIT_NAME_CHARS as nat } else { MAX_ROUTINE_NAME_CHARS as nat };
    match key.code {
        KeyCode::Esc => (StateView { mode: ModeView::Normal, notice: None, ..s }, CommandView::Stay),
        KeyCode::Enter => (s, if habit { CommandView::CreateHabit(value) } else { CommandView::CreateRoutine(value) }),
        _ => match edited_field(value, error, key, maximum) {
            Some((value, error)) => (
                StateView {
                    mode: if habit {
                        ModeView::CreatingHabit { value, error }
                    } else {
                        ModeView::CreatingRoutine { value, error }
                    },
                    ..s
                },
                CommandView::Stay,
            ),
            None => (s, CommandView::Stay),
        },
    }
}

/// The ids of the chosen routines, in list order.
pub open spec fn chosen_ids(cs: Seq<ChoiceView>) -> Seq<i64>
    decreases cs.len(),
{
    if cs.len() == 0 {
        Seq::empty()
    } else if cs.last().selected {
        chosen_ids(cs.drop_last()).push(cs.last().routine.id)
    } else {
        chosen_ids(cs.drop_last())
    }
}

pub open spec fn settings_step(s: StateView, key: KeyPress) -> (StateView, CommandView) {
    match s.mode {
        ModeView::EditingHabit { habit_id, name, routines, focus, routine_cursor, error } => {
            let edit = |name: Seq<char>, routines: Seq<ChoiceView>, focus: SettingsFocus, routine_cursor: usize, error: Option<Seq<char>>|
                StateView {
                    mode: ModeView::EditingHabit { habit_id, name, routines, focus, routine_cursor, error },
                    ..s
                };
            let on_routines = focus == SettingsFocus::Routines;
            if key.code == KeyCode::Esc {
                (StateView { mode: ModeView::Normal, notice: None, ..s }, CommandView::Stay)
            } else if key.code == KeyCode::Tab {
                (
                    edit(name, routines, if focus == SettingsFocus::Name { SettingsFocus::Routines } else { SettingsFocus::Name }, routine_cursor, None),
                    CommandView::Stay,
                )
            } else if key.code == KeyCode::Enter {
                (
                    s,
                    CommandView::UpdateHabitSettings { habit_id, name, routine_ids: chosen_ids(routines) },
                )
            } else if key.code == KeyCode::Backspace && !on_routines {
                (
                    edit(if name.len() > 0 { name.drop_last() } else { name }, routines, focus, routine_cursor, None),
                    CommandView::Stay,
                )
            } else if key.code == KeyCode::Char(' ') && on_routines {
                (
                    edit(
                        name,
                        if routine_cursor < routines.len() {
                            routines.update(
                                routine_cursor as int,
                                ChoiceView {
                                    routine: routines[routine_cursor as int].routine,
                                    selected: !routines[routine_cursor as int].selected,
                                },
                            )
                        } else {
                            routines
                        },
                        focus,
                        routine_cursor,
                        None,
                    ),
                    CommandView::Stay,
                )
            } else if (key.code == KeyCode::Up || key.code == KeyCode::Char('k')) && on_routines {
                (
                    edit(name, routines, focus, if routine_cursor > 0 { (routine_cursor - 1) as usize } else { 0 }, error),
                    CommandView::Stay,
                )
            } else if (key.code == KeyCode::Down || key.code == KeyCode::Char('j')) && on_routines {
                (
                    if routines.len() > 0 {
                        edit(
                            name,
                            routines,
                            focus,
                            if routine_cursor + 1 < routines.len() { (routine_cursor + 1) as usize } else { (routines.len() - 1) as usize },
                            error,
                        )
                    } else {
                        s
                    },
                    CommandView::Stay,
                )
            } else if key.code is Char && !on_routines && !key.control && !key.alt
                && name.len() < MAX_HABIT_NAME_CHARS {
                (
                    edit(name.push(key.code->Char_0), routines, focus, routine_cursor, None),
                    CommandView::Stay,
                )
            } else {
                (s, CommandView::Stay)
            }
        },
        _ => (s, CommandView::Stay),
    }
}

/// The transition table of the dashboard: `Ctrl+C` always quits; otherwise
/// the key is read by the open dialog, or by the dashboard itself.
pub open spec fn key_step(s: StateView, key: KeyPress, v: DayView) -> (StateView, CommandView) {
    if key.code == KeyCode::Char('c') && key.control {
        (s, CommandView::Quit)
    } else {
        match s.mode {
            ModeView::CreatingHabit { value, error } => name_dialog_step(s, key, true, value, error),
            ModeView::CreatingRoutine { value, error } => name_dialog_step(s, key, false, value, error),
            ModeView::EditingHabit { .. } => settings_step(s, key),
            ModeView::Normal => normal_step(s, key, v),
        }
    }
}

/// Whether a month key can be handled: the month arithmetic that `[` and `]`
/// use stays in range.
pub open spec fn month_keys_fit(s: StateView, key: KeyPress, v: DayView) -> bool {
    (s.mode == ModeView::Normal && !(key.code == KeyCode::Char('c') && key.control)) ==> (
    (key.code == KeyCode::Char('[') ==> month_shift_fits(v.selected_date, -1))
        && (key.code == KeyCode::Char(']') ==> month_shift_fits(v.selected_date, 1)))
}

// ---------------------------------------------------------------------------
// Key handling.
// ---------------------------------------------------------------------------

fn text(literal: &str) -> (r: String)
    ensures
        r@ == literal@,
{
    literal.to_string()
}

/// The notice for a change refused on a read-only day.
fn read_only_notice(v: &DayView) -> (n: Notice)
    ensures
        n.message@ == read_only_message(*v),
        n.is_error,
{
    let mut message = v.selected_date.to_iso_string();
    if v.today.is_before(&v.selected_date) {
        append_str(&mut message, " is an upcoming preview · press t for today");
    } else {
        append_str(&mut message, " is read-only history · press t for today");
    }
    Notice { message, is_error: true }
}

fn chosen_routine_ids(routines: &Vec<RoutineChoice>) -> (r: Vec<i64>)
    ensures
        r@ == chosen_ids(choice_views(routines@)),
{
    let ghost cv = choice_views(routines@);
    let mut ids: Vec<i64> = Vec::new();
    let mut i: usize = 0;
    while i < routines.len()
        invariant
            i <= routines@.len(),
            cv == choice_views(routines@),
            ids@ == chosen_ids(cv.take(i as int)),
        decreases routines@.len() - i,
    {
        assert(cv.take(i + 1).drop_last() =~= cv.take(i as int));
        if routines[i].selected {
            ids.push(routines[i].routine.id);
        }
        i = i + 1;
    }
    assert(cv.take(routines@.len() as int) =~= cv);
    ids
}

fn settings_dialog(h: &TodayHabit, routines: &Vec<Routine>) -> (m: InputMode)
    ensures
        m@ == settings_for(*h, routines@),
{
    let mut choices: Vec<RoutineChoice> = Vec::new();
    let mut i: usize = 0;
    while i < routines.len()
        invariant
            i <= routines@.len(),
            choice_views(choices@) =~= Seq::new(
                i as nat,
                |k: int|
                    ChoiceView {
                        routine: routines@[k]@,
                        selected: has_routine(routine_views(h.routines@), routines@[k].id),
                    },
            ),
        decreases routines@.len() - i,
    {
        let selected = listed(&h.routines, routines[i].id);
        let ghost before = choices@;
        let choice = RoutineChoice { routine: routines[i].clone(), selected };
        choices.push(choice);
        assert(choice_views(choices@) =~= choice_views(before).push(
            ChoiceView { routine: choice.routine@, selected },
        ));
        i = i + 1;
    }
    let m = InputMode::EditingHabit {
        habit_id: h.habit_id,
        name: h.name.clone(),
        routines: choices,
        focus: SettingsFocus::Name,
        routine_cursor: 0,
        error: None,
    };
    assert(m@ =~~= settings_for(*h, routines@));
    m
}

impl TuiState {
    /// The dashboard at rest on the today view.
    pub fn new() -> (r: TuiState)
        ensures
            r@ == (StateView {
                selected: 0,
                view: DashboardView::Today,
                mode: ModeView::Normal,
                notice: None,
            }),
    {
        TuiState { selected: 0, view: DashboardView::Today, mode: InputMode::Normal, notice: None }
    }

    /// Reads one key press, given what the application shows.
    pub fn handle_key(&mut self, key: KeyPress, v: &DayView) -> (cmd: Command)
        requires
            month_keys_fit(old(self)@, key, *v),
        ensures
            (final(self)@, cmd@) == key_step(old(self)@, key, *v),
    {
        if key.code == KeyCode::Char('c') && key.control {
            return Command::Quit;
        }
        let ghost before = self@;
        let mut mode = InputMode::Normal;
        std::mem::swap(&mut mode, &mut self.mode);
        assert(before == StateView { mode: mode@, ..self@ });
        match mode {
            InputMode::CreatingHabit { value, error } => self.name_dialog_key(key, true, value, error),
            InputMode::CreatingRoutine { value, error } => self.name_dialog_key(
                key,
                false,
                value,
                error,
            ),
            InputMode::EditingHabit { habit_id, name, routines, focus, routine_cursor, error } =>
                self.settings_key(key, habit_id, name, routines, focus, routine_cursor, error),
            InputMode::Normal => self.normal_key(key, v),
        }
    }

    fn name_dialog_key(
        &mut self,
        key: KeyPress,
        habit: bool,
        value: String,
        error: Option<String>,
    ) -> (cmd: Command)
        requires
            old(self).mode is Normal,
        ensures
            ({
                let m = if habit {
                    ModeView::CreatingHabit { value: value@, error: text_view(error) }
                } else {
                    ModeView::CreatingRoutine { value: value@, error: text_view(error) }
                };
                (final(self)@, cmd@) == name_dialog_step(
                    StateView { mode: m, ..old(self)@ },
                    key,
                    habit,
                    value@,
                    text_view(error),
                )
            }),
    {
        let maximum = if habit {
            MAX_HABIT_NAME_CHARS
        } else {
            MAX_ROUTINE_NAME_CHARS
        };
        let mut value = value;
        let mut error = error;
        match key.code {
            KeyCode::Esc => {
                self.notice = None;
                return Command::Stay;
            },
            KeyCode::Enter => {
                let name = value.clone();
                self.mode = if habit {
                    InputMode::CreatingHabit { value, error }
                } else {
                    InputMode::CreatingRoutine { value, error }
                };
                return if habit {
                    Command::CreateHabit(name)
                } else {
                    Command::CreateRoutine(name)
                };
            },
            KeyCode::Backspace => {
                pop_char(&mut value);
                error = None;
            },
            KeyCode::Char(c) => {
                if !key.control && !key.alt && value.as_str().unicode_len() < maximum {
                    push_char(&mut value, c);
                    error = None;
                }
            },
            _ => {},
        }
        self.mode = if habit {
            InputMode::CreatingHabit { value, error }
        } else {
            InputMode::CreatingRoutine { value, error }
        };
        Command::Stay
    }

    fn settings_key(
        &mut self,
        key: KeyPress,
        habit_id: i64,
        name: String,
        routines: Vec<RoutineChoice>,
        focus: SettingsFocus,
        routine_cursor: usize,
        error: Option<String>,
    ) -> (cmd: Command)
        requires
            old(self).mode is Normal,
        ensures
            ({
                let m = ModeView::EditingHabit {
                    habit_id,
                    name: name@,
                    routines: choice_views(routines@),
                    focus,
                    routine_cursor,
                    error: text_view(error),
                };
                (final(self)@, cmd@) == settings_step(StateView { mode: m, ..old(self)@ }, key)
            }),
    {
        let ghost s0 = StateView {
            mode: ModeView::EditingHabit {
                habit_id,
                name: name@,
                routines: choice_views(routines@),
                focus,
                routine_cursor,
                error: text_view(error),
            },
            ..self@
        };
        let mut name = name;
        let mut routines = routines;
        let mut focus = focus;
        let mut routine_cursor = routine_cursor;
        let mut error = error;
        let on_routines = focus == SettingsFocus::Routines;
        let mut command = Command::Stay;
        if key.code == KeyCode::Esc {
            self.notice = None;
            return Command::Stay;
        } else if key.code == KeyCode::Tab {
            focus = if focus == SettingsFocus::Name {
                SettingsFocus::Routines
            } else {
                SettingsFocus::Name
            };
            error = None;
        } else if key.code == KeyCode::Enter {
            command =
            Command::UpdateHabitSettings {
                habit_id,
                name: name.clone(),
                routine_ids: chosen_routine_ids(&routines),
            };
        } else if key.code == KeyCode::Backspace && !on_routines {
            pop_char(&mut name);
            error = None;
        } else if key.code == KeyCode::Char(' ') && on_routines {
            if routine_cursor < routines.len() {
                let ghost before = routines@;
                let replacement = RoutineChoice {
                    routine: routines[routine_cursor].routine.clone(),
                    selected: !routines[routine_cursor].selected,
                };
                routines.set(routine_cursor, replacement);
                assert(choice_views(routines@) =~= choice_views(before).update(
                    routine_cursor as int,
                    ChoiceView {
                        routine: choice_views(before)[routine_cursor as int].routine,
                        selected: !choice_views(before)[routine_cursor as int].selected,
                    },
                ));
            }
            error = None;
        } else if (key.code == KeyCode::Up || key.code == KeyCode::Char('k')) && on_routines {
            routine_cursor = if routine_cursor > 0 {
                routine_cursor - 1
            } else {
                0
            };
        } else if (key.code == KeyCode::Down || key.code == KeyCode::Char('j')) && on_routines {
            if routines.len() > 0 {
                routine_cursor =
                if routine_cursor < routines.len() - 1 {
                    routine_cursor + 1
                } else {
                    routines.len() - 1
                };
            }
        } else {
            match key.code {
                KeyCode::Char(c) => {
                    if !on_routines && !key.control && !key.alt && name.as_str().unicode_len()
                        < MAX_HABIT_NAME_CHARS {
                        push_char(&mut name, c);
                        error = None;
                    }
                },
                _ => {},
            }
        }
        self.mode = InputMode::EditingHabit { habit_id, name, routines, focus, routine_cursor, error };
        assert((self@, command@) =~~= settings_step(s0, key));
        command
    }

    fn normal_key(&mut self, key: KeyPress, v: &DayView) -> (cmd: Command)
        requires
            old(self).mode is Normal,
            month_keys_fit(old(self)@, key, *v),
            !(key.code == KeyCode::Char('c') && key.control),
        ensures
            (final(self)@, cmd@) == normal_step(old(self)@, key, *v),
    {
        let viewing_today = v.selected_date.same_day(&v.today);
        match key.code {
            KeyCode::Char('q') | KeyCode::Esc => Command::Quit,
            KeyCode::Tab => {
                self.view = self.view.next();
                self.notice = None;
                Command::Stay
            },
            KeyCode::Char('n') => {
                if viewing_today {
                    self.mode = InputMode::CreatingHabit { value: String::new(), error: None };
                    self.notice = None;
                } else {
                    self.notice = Some(read_only_notice(v));
                }
                Command::Stay
            },
            KeyCode::Char('r') => {
                if viewing_today {
                    self.mode = InputMode::CreatingRoutine { value: String::new(), error: None };
                    self.notice = None;
                } else {
                    self.notice = Some(read_only_notice(v));
                }
                Command::Stay
            },
            KeyCode::Char('e') => {
                if !viewing_today {
                    self.notice = Some(read_only_notice(v));
                    return Command::Stay;
                }
                let entries = habit_entries(&v.habits, &v.routines);
                if self.selected < entries.len() {
                    let habit = &v.habits[entries[self.selected].habit_index];
                    self.mode = settings_dialog(habit, &v.routines);
                    self.notice = None;
                }
                Command::Stay
            },
            KeyCode::Up | KeyCode::Char('k') => {
                let entries = habit_entries(&v.habits, &v.routines);
                if entries.len() > 0 {
                    self.selected = if self.selected > 0 {
                        self.selected - 1
                    } else {
                        0
                    };
                }
                Command::Stay
            },
            KeyCode::Down | KeyCode::Char('j') => {
                let entries = habit_entries(&v.habits, &v.routines);
                if entries.len() > 0 {
                    self.selected = if self.selected < entries.len() - 1 {
                        self.selected + 1
                    } else {
                        entries.len() - 1
                    };
                }
                Command::Stay
            },
            KeyCode::Left | KeyCode::Char('h') => match v.selected_date.yesterday() {
                Some(date) => Command::SelectDate(date),
                None => Command::Stay,
            },
            KeyCode::Right | KeyCode::Char('l') => match v.selected_date.tomorrow() {
                Some(date) => Command::SelectDate(date),
                None => Command::Stay,
            },
            KeyCode::Char('[') => Command::SelectDate(v.selected_date.shift_month(-1)),
            KeyCode::Char(']') => Command::SelectDate(v.selected_date.shift_month(1)),
            KeyCode::Char('t') => Command::SelectDate(v.today),
            KeyCode::Char(' ') => {
                let entries = habit_entries(&v.habits, &v.routines);
                if self.selected < entries.len() {
                    let entry = entries[self.selected];
                    let habit = &v.habits[entry.habit_index];
                    Command::Toggle {
                        occurrence_id: habit.occurrence_id,
                        routine_id: entry.routine_id,
                        habit_name: habit.name.clone(),
                        was_completed: habit.completed,
                        previous_selection: self.selected,
                    }
                } else {
                    Command::Stay
                }
            },
            _ => Command::Stay,
        }
    }
}

// ---------------------------------------------------------------------------
// Outcomes of commands.
// ---------------------------------------------------------------------------

/// The first row at or after `p` that shows occurrence `occurrence_id` in the
/// group of `routine_id`.
pub open spec fn first_toggled_from(
    entries: Seq<HabitEntry>,
    habits: Seq<TodayHabit>,
    occurrence_id: i64,
    routine_id: Option<i64>,
    p: int,
) -> Option<int>
    decreases entries.len() - p,
{
    if p < 0 || p >= entries.len() {
        None
    } else if habits[entries[p].habit_index as int].occurrence_id == occurrence_id
        && entries[p].routine_id == routine_id {
        Some(p)
    } else {
        first_toggled_from(entries, habits, occurrence_id, routine_id, p + 1)
    }
}

/// The first row at or after `p` whose habit is not completed.
pub open spec fn first_unchecked_from(entries: Seq<HabitEntry>, habits: Seq<TodayHabit>, p: int) -> Option<int>
    decreases entries.len() - p,
{
    if p < 0 || p >= entries.len() {
        None
    } else if !habits[entries[p].habit_index as int].completed {
        Some(p)
    } else {
        first_unchecked_from(entries, habits, p + 1)
    }
}

/// The last row before `n` whose habit is not completed.
pub open spec fn last_unchecked_below(entries: Seq<HabitEntry>, habits: Seq<TodayHabit>, n: int) -> Option<int>
    decreases n,
{
    if n <= 0 || n > entries.len() {
        None
    } else if !habits[entries[n - 1].habit_index as int].completed {
        Some(n - 1)
    } else {
        last_unchecked_below(entries, habits, n - 1)
    }
}

pub open spec fn or_zero(p: Option<int>) -> usize {
    match p {
        Some(p) => p as usize,
        None => 0,
    }
}

/// The row selected after a toggle: the toggled row again after unchecking;
/// after checking, the next unchecked row from the previous selection on,
/// else the last unchecked row, else the toggled row.
pub open spec fn selection_after_toggle(
    entries: Seq<HabitEntry>,
    habits: Seq<TodayHabit>,
    occurrence_id: i64,
    routine_id: Option<i64>,
    was_completed: bool,
    previous_selection: usize,
) -> usize {
    let toggled = or_zero(first_toggled_from(entries, habits, occurrence_id, routine_id, 0));
    if was_completed {
        toggled
    } else {
        match first_unchecked_from(entries, habits, previous_selection as int) {
            Some(p) => p as usize,
            None => match last_unchecked_below(entries, habits, entries.len() as int) {
                Some(p) => p as usize,
                None => toggled,
            },
        }
    }
}

/// The first row at or after `p` of habit `habit_id` (in the group of
/// `routine_id`, when one is given).
pub open spec fn first_habit_row(
    entries: Seq<HabitEntry>,
    habits: Seq<TodayHabit>,
    habit_id: i64,
    routine_id: Option<i64>,
    p: int,
) -> Option<int>
    decreases entries.len() - p,
{
    if p < 0 || p >= entries.len() {
        None
    } else if habits[entries[p].habit_index as int].habit_id == habit_id && match routine_id {
        Some(r) => entries[p].routine_id == Some(r),
        None => true,
    } {
        Some(p)
    } else {
        first_habit_row(entries, habits, habit_id, routine_id, p + 1)
    }
}

pub open spec fn quoted(prefix: Seq<char>, name: Seq<char>) -> Seq<char> {
    prefix + "‘"@ + name + "’"@
}

/// The notice after viewing another day.
pub open spec fn date_notice(v: DayView) -> Seq<char> {
    if viewing_today(v) {
        "returned to today"@
    } else if viewing_future(v) {
        "viewing "@ + iso_date(v.selected_date) + " · upcoming preview"@
    } else {
        "viewing "@ + iso_date(v.selected_date) + " · read-only"@
    }
}

/// The open dialog showing `message` as its error.
pub open spec fn with_dialog_error(s: StateView, message: Seq<char>) -> StateView {
    match s.mode {
        ModeView::CreatingHabit { value, error } => StateView {
            mode: ModeView::CreatingHabit { value, error: Some(message) },
            ..s
        },
        ModeView::CreatingRoutine { value, error } => StateView {
            mode: ModeView::CreatingRoutine { value, error: Some(message) },
            ..s
        },
        ModeView::EditingHabit { habit_id, name, routines, focus, routine_cursor, error } =>
            StateView {
            mode: ModeView::EditingHabit {
                habit_id,
                name,
                routines,
                focus,
                routine_cursor,
                error: Some(message),
            },
            ..s
        },
        ModeView::Normal => s,
    }
}

pub open spec fn error_notice(s: StateView, message: Seq<char>) -> StateView {
    with_notice(s, Some(NoticeView { message, is_error: true }))
}

pub open spec fn info_notice(message: Seq<char>) -> Option<NoticeView> {
    Some(NoticeView { message, is_error: false })
}

/// How the dashboard settles after the application performed `cmd` with
/// `outcome`, given what the application shows afterwards.
pub open spec fn outcome_step(s: StateView, cmd: CommandView, outcome: Result<(), Seq<char>>, v: DayView) -> StateView {
    let entries = view_entries(v);
    match cmd {
        CommandView::Stay | CommandView::Quit => s,
        CommandView::CreateHabit(name) => match outcome {
            Ok(_) => StateView {
                selected: if v.habits@.len() > 0 { (v.habits@.len() - 1) as usize } else { 0 },
                mode: ModeView::Normal,
                notice: info_notice(quoted("created "@, trim_chars(name))),
                ..s
            },
            Err(message) => with_dialog_error(s, message),
        },
        CommandView::CreateRoutine(name) => match outcome {
            Ok(_) => StateView {
                mode: ModeView::Normal,
                notice: info_notice(quoted("created routine "@, trim_chars(name))),
                ..s
            },
            Err(message) => with_dialog_error(s, message),
        },
        CommandView::UpdateHabitSettings { habit_id, name, routine_ids } => match outcome {
            Ok(_) => StateView {
                selected: or_zero(first_habit_row(entries, v.habits@, habit_id, None, 0)),
                mode: ModeView::Normal,
                notice: info_notice(quoted("saved "@, trim_chars(name))),
                ..s
            },
            Err(message) => with_dialog_error(s, message),
        },
        CommandView::Toggle {
            occurrence_id,
            routine_id,
            habit_name,
            was_completed,
            previous_selection,
        } => match outcome {
            Ok(_) => StateView {
                selected: selection_after_toggle(
                    entries,
                    v.habits@,
                    occurrence_id,
                    routine_id,
                    was_completed,
                    previous_selection,
                ),
                notice: info_notice(quoted("updated "@, habit_name)),
                ..s
            },
            Err(message) => error_notice(s, message),
        },
        CommandView::SelectDate(_, _, _) => match outcome {
            Ok(_) => StateView { selected: 0, notice: info_notice(date_notice(v)), ..s },
            Err(message) => error_notice(s, message),
        },
    }
}

pub open spec fn outcome_view(o: Result<(), String>) -> Result<(), Seq<char>> {
    match o {
        Ok(_) => Ok(()),
        Err(m) => Err(m@),
    }
}

/// The notice after viewing another day: `returned to today`, or which day
/// is viewed and whether it is a preview or read-only history.
pub fn date_notice_text(v: &DayView) -> (r: String)
    ensures
        r@ == date_notice(*v),
{
    if v.selected_date.same_day(&v.today) {
        text("returned to today")
    } else {
        let mut m = text("viewing ");
        append_str(&mut m, v.selected_date.to_iso_string().as_str());
        if v.today.is_before(&v.selected_date) {
            append_str(&mut m, " · upcoming preview");
        } else {
            append_str(&mut m, " · read-only");
        }
        m
    }
}

fn quoted_text(prefix: &str, name: &str) -> (r: String)
    ensures
        r@ == quoted(prefix@, name@),
{
    let mut s = prefix.to_string();
    append_str(&mut s, "‘");
    append_str(&mut s, name);
    append_str(&mut s, "’");
    s
}

fn toggled_row(
    entries: &Vec<HabitEntry>,
    habits: &Vec<TodayHabit>,
    occurrence_id: i64,
    routine_id: Option<i64>,
) -> (r: usize)
    requires
        forall|k: int| 0 <= k < entries@.len() ==> (#[trigger] entries@[k]).habit_index < habits@.len(),
    ensures
        r == or_zero(first_toggled_from(entries@, habits@, occurrence_id, routine_id, 0)),
{
    let mut p: usize = 0;
    while p < entries.len()
        invariant
            p <= entries@.len(),
            forall|k: int| 0 <= k < entries@.len() ==> (#[trigger] entries@[k]).habit_index < habits@.len(),
            first_toggled_from(entries@, habits@, occurrence_id, routine_id, 0)
                == first_toggled_from(entries@, habits@, occurrence_id, routine_id, p as int),
        decreases entries@.len() - p,
    {
        let entry = entries[p];
        if habits[entry.habit_index].occurrence_id == occurrence_id && entry.routine_id == routine_id {
            return p;
        }
        p = p + 1;
    }
    0
}

fn unchecked_from(entries: &Vec<HabitEntry>, habits: &Vec<TodayHabit>, start: usize) -> (r: Option<usize>)
    requires
        forall|k: int| 0 <= k < entries@.len() ==> (#[trigger] entries@[k]).habit_index < habits@.len(),
    ensures
        match first_unchecked_from(entries@, habits@, start as int) {
            Some(p) => r == Some(p as usize),
            None => r is None,
        },
{
    if start >= entries.len() {
        return None;
    }
    let mut p: usize = start;
    while p < entries.len()
        invariant
            start <= p <= entries@.len(),
            forall|k: int| 0 <= k < entries@.len() ==> (#[trigger] entries@[k]).habit_index < habits@.len(),
            first_unchecked_from(entries@, habits@, start as int) == first_unchecked_from(entries@, habits@, p as int),
        decreases entries@.len() - p,
    {
        if !habits[entries[p].habit_index].completed {
            return Some(p);
        }
        p = p + 1;
    }
    None
}

fn last_unchecked(entries: &Vec<HabitEntry>, habits: &Vec<TodayHabit>) -> (r: Option<usize>)
    requires
        forall|k: int| 0 <= k < entries@.len() ==> (#[trigger] entries@[k]).habit_index < habits@.len(),
    ensures
        match last_unchecked_below(entries@, habits@, entries@.len() as int) {
            Some(p) => r == Some(p as usize),
            None => r is None,
        },
{
    let mut n: usize = entries.len();
    while n > 0
        invariant
            n <= entries@.len(),
            forall|k: int| 0 <= k < entries@.len() ==> (#[trigger] entries@[k]).habit_index < habits@.len(),
            last_unchecked_below(entries@, habits@, entries@.len() as int) == last_unchecked_below(entries@, habits@, n as int),
        decreases n,
    {
        if !habits[entries[n - 1].habit_index].completed {
            return Some(n - 1);
        }
        n = n - 1;
    }
    None
}

fn habit_row(
    entries: &Vec<HabitEntry>,
    habits: &Vec<TodayHabit>,
    habit_id: i64,
    routine_id: Option<i64>,
) -> (r: usize)
    requires
        forall|k: int| 0 <= k < entries@.len() ==> (#[trigger] entries@[k]).habit_index < habits@.len(),
    ensures
        r == or_zero(first_habit_row(entries@, habits@, habit_id, routine_id, 0)),
{
    let mut p: usize = 0;
    while p < entries.len()
        invariant
            p <= entries@.len(),
            forall|k: int| 0 <= k < entries@.len() ==> (#[trigger] entries@[k]).habit_index < habits@.len(),
            first_habit_row(entries@, habits@, habit_id, routine_id, 0) == first_habit_row(entries@, habits@, habit_id, routine_id, p as int),
        decreases entries@.len() - p,
    {
        let entry = entries[p];
        let in_group = match routine_id {
            Some(r) => entry.routine_id == Some(r),
            None => true,
        };
        if habits[entry.habit_index].habit_id == habit_id && in_group {
            return p;
        }
        p = p + 1;
    }
    0
}

proof fn lemma_first_toggled_in_range(
    entries: Seq<HabitEntry>,
    habits: Seq<TodayHabit>,
    occurrence_id: i64,
    routine_id: Option<i64>,
    p: int,
)
    ensures
        first_toggled_from(entries, habits, occurrence_id, routine_id, p) matches Some(q) ==> p <= q
            < entries.len(),
    decreases entries.len() - p,
{
    if 0 <= p < entries.len() {
        lemma_first_toggled_in_range(entries, habits, occurrence_id, routine_id, p + 1);
    }
}

proof fn lemma_first_unchecked_in_range(entries: Seq<HabitEntry>, habits: Seq<TodayHabit>, p: int)
    ensures
        first_unchecked_from(entries, habits, p) matches Some(q) ==> p <= q < entries.len(),
    decreases entries.len() - p,
{
    if 0 <= p < entries.len() {
        lemma_first_unchecked_in_range(entries, habits, p + 1);
    }
}

proof fn lemma_last_unchecked_in_range(entries: Seq<HabitEntry>, habits: Seq<TodayHabit>, n: int)
    ensures
        last_unchecked_below(entries, habits, n) matches Some(q) ==> 0 <= q < n,
    decreases n,
{
    if 0 < n <= entries.len() {
        lemma_last_unchecked_in_range(entries, habits, n - 1);
    }
}

proof fn lemma_first_habit_row_in_range(
    entries: Seq<HabitEntry>,
    habits: Seq<TodayHabit>,
    habit_id: i64,
    routine_id: Option<i64>,
    p: int,
)
    ensures
        first_habit_row(entries, habits, habit_id, routine_id, p) matches Some(q) ==> p <= q
            < entries.len(),
    decreases entries.len() - p,
{
    if 0 <= p < entries.len() {
        lemma_first_habit_row_in_range(entries, habits, habit_id, routine_id, p + 1);
    }
}

/// After a toggle the selection points at an existing row of the today
/// panel, whenever the panel has rows; after checking a habit it never moves
/// to a completed row while an unchecked one exists.
pub proof fn lemma_toggle_selection_in_range(
    entries: Seq<HabitEntry>,
    habits: Seq<TodayHabit>,
    occurrence_id: i64,
    routine_id: Option<i64>,
    was_completed: bool,
    previous_selection: usize,
)
    requires
        0 < entries.len() <= usize::MAX,
    ensures
        selection_after_toggle(entries, habits, occurrence_id, routine_id, was_completed, previous_selection)
            < entries.len(),
        !was_completed && (exists|k: int| 0 <= k < entries.len() && !(#[trigger] habits[entries[k].habit_index as int]).completed)
            ==> !habits[entries[selection_after_toggle(entries, habits, occurrence_id, routine_id, was_completed, previous_selection) as int].habit_index as int].completed,
{
    lemma_first_toggled_in_range(entries, habits, occurrence_id, routine_id, 0);
    lemma_first_unchecked_in_range(entries, habits, previous_selection as int);
    lemma_last_unchecked_in_range(entries, habits, entries.len() as int);
    lemma_unchecked_found(entries, habits, previous_selection as int);
    lemma_last_unchecked_found(entries, habits, entries.len() as int);
}

proof fn lemma_unchecked_found(entries: Seq<HabitEntry>, habits: Seq<TodayHabit>, p: int)
    ensures
        first_unchecked_from(entries, habits, p) matches Some(q) ==> !habits[entries[q].habit_index as int].completed,
    decreases entries.len() - p,
{
    if 0 <= p < entries.len() {
        lemma_unchecked_found(entries, habits, p + 1);
    }
}

proof fn lemma_last_unchecked_found(entries: Seq<HabitEntry>, habits: Seq<TodayHabit>, n: int)
    requires
        0 <= n <= entries.len(),
    ensures
        last_unchecked_below(entries, habits, n) matches Some(q) ==> !habits[entries[q].habit_index as int].completed,
        (exists|k: int| 0 <= k < n && !(#[trigger] habits[entries[k].habit_index as int]).completed)
            ==> last_unchecked_below(entries, habits, n) is Some,
    decreases n,
{
    if n > 0 {
        lemma_last_unchecked_found(entries, habits, n - 1);
        if !habits[entries[n - 1].habit_index as int].completed {
        } else {
            assert forall|k: int| 0 <= k < n && !(#[trigger] habits[entries[k].habit_index as int]).completed implies 0 <= k < n - 1 by {
            }
        }
    }
}

/// After saving habit settings the selection points at an existing row,
/// whenever the panel has rows.
pub proof fn lemma_saved_selection_in_range(entries: Seq<HabitEntry>, habits: Seq<TodayHabit>, habit_id: i64)
    requires
        0 < entries.len() <= usize::MAX,
    ensures
        or_zero(first_habit_row(entries, habits, habit_id, None, 0)) < entries.len(),
{
    lemma_first_habit_row_in_range(entries, habits, habit_id, None, 0);
}

/// A name field never grows past its limit: once its text fits, every key
/// keeps it fitting.
pub proof fn lemma_name_fields_stay_within_limits(s: StateView, key: KeyPress, v: DayView)
    ensures
        (s.mode matches ModeView::CreatingHabit { value, .. } && value.len() <= MAX_HABIT_NAME_CHARS)
            ==> (key_step(s, key, v).0.mode matches ModeView::CreatingHabit { value: after, .. } ==> after.len() <= MAX_HABIT_NAME_CHARS),
        (s.mode matches ModeView::CreatingRoutine { value, .. } && value.len() <= MAX_ROUTINE_NAME_CHARS)
            ==> (key_step(s, key, v).0.mode matches ModeView::CreatingRoutine { value: after, .. } ==> after.len() <= MAX_ROUTINE_NAME_CHARS),
        (s.mode matches ModeView::EditingHabit { name, .. } && name.len() <= MAX_HABIT_NAME_CHARS)
            ==> (key_step(s, key, v).0.mode matches ModeView::EditingHabit { name: after, .. } ==> after.len() <= MAX_HABIT_NAME_CHARS),
{
}

/// On a day other than the current one, no key opens a dialog that would
/// change habits or routines.
pub proof fn lemma_read_only_days_open_no_dialog(s: StateView, key: KeyPress, v: DayView)
    requires
        s.mode == ModeView::Normal,
        !viewing_today(v),
    ensures
        key_step(s, key, v).0.mode == ModeView::Normal,
        !(key_step(s, key, v).1 is CreateHabit),
        !(key_step(s, key, v).1 is CreateRoutine),
        !(key_step(s, key, v).1 is UpdateHabitSettings),
{
}

/// Moving up or down keeps the selection on an existing row.
pub proof fn lemma_moves_stay_on_rows(s: StateView, key: KeyPress, v: DayView)
    requires
        s.mode == ModeView::Normal,
        !(key.code == KeyCode::Char('c') && key.control),
        key.code == KeyCode::Up || key.code == KeyCode::Down || key.code == KeyCode::Char('k')
            || key.code == KeyCode::Char('j'),
        s.selected < view_entries(v).len(),
    ensures
        key_step(s, key, v).0.selected < view_entries(v).len(),
{
}

proof fn lemma_first_unchecked_is_first(entries: Seq<HabitEntry>, habits: Seq<TodayHabit>, p: int)
    requires
        0 <= p,
        exists|k: int|
            p <= k < entries.len() && !(#[trigger] habits[entries[k].habit_index as int]).completed,
    ensures
        first_unchecked_from(entries, habits, p) matches Some(q) && p <= q < entries.len()
            && !habits[entries[q].habit_index as int].completed && forall|k: int|
            p <= k < q ==> (#[trigger] habits[entries[k].habit_index as int]).completed,
    decreases entries.len() - p,
{
    if habits[entries[p].habit_index as int].completed {
        let k = choose|k: int|
            p <= k < entries.len() && !(#[trigger] habits[entries[k].habit_index as int]).completed;
        assert(k != p);
        lemma_first_unchecked_is_first(entries, habits, p + 1);
    }
}

/// Checking a habit moves the focus to the next unchecked row: the first
/// unchecked row at or after the previous selection, when there is one. So
/// where the row at the previous selection is unchecked after the toggle,
/// the selection stays there.
pub proof fn lemma_checking_moves_to_next_unchecked(
    s: StateView,
    occurrence_id: i64,
    routine_id: Option<i64>,
    habit_name: Seq<char>,
    previous_selection: usize,
    v: DayView,
)
    requires
        view_entries(v).len() <= usize::MAX,
    ensures
        ({
            let entries = view_entries(v);
            let habits = v.habits@;
            let after = outcome_step(
                s,
                CommandView::Toggle {
                    occurrence_id,
                    routine_id,
                    habit_name,
                    was_completed: false,
                    previous_selection,
                },
                Ok(()),
                v,
            );
            &&& (exists|k: int|
                previous_selection <= k < entries.len()
                    && !(#[trigger] habits[entries[k].habit_index as int]).completed) ==> {
                &&& previous_selection <= after.selected < entries.len()
                &&& !habits[entries[after.selected as int].habit_index as int].completed
                &&& forall|k: int|
                    previous_selection <= k < after.selected ==> (#[trigger] habits[entries[k].habit_index as int]).completed
            }
            &&& (previous_selection < entries.len()
                && !habits[entries[previous_selection as int].habit_index as int].completed)
                ==> after.selected == previous_selection
        }),
{
    let entries = view_entries(v);
    let habits = v.habits@;
    if exists|k: int|
        previous_selection <= k < entries.len()
            && !(#[trigger] habits[entries[k].habit_index as int]).completed {
        lemma_first_unchecked_is_first(entries, habits, previous_selection as int);
    }
    if previous_selection < entries.len() && !habits[entries[previous_selection as int].habit_index as int].completed {
        assert(!habits[entries[previous_selection as int].habit_index as int].completed);
        lemma_first_unchecked_is_first(entries, habits, previous_selection as int);
    }
}

proof fn lemma_last_unchecked_is_last(entries: Seq<HabitEntry>, habits: Seq<TodayHabit>, n: int)
    requires
        0 <= n <= entries.len(),
        exists|k: int| 0 <= k < n && !(#[trigger] habits[entries[k].habit_index as int]).completed,
    ensures
        last_unchecked_below(entries, habits, n) matches Some(q) && 0 <= q < n
            && !habits[entries[q].habit_index as int].completed && forall|k: int|
            q < k < n ==> (#[trigger] habits[entries[k].habit_index as int]).completed,
    decreases n,
{
    if habits[entries[n - 1].habit_index as int].completed {
        let k = choose|k: int| 0 <= k < n && !(#[trigger] habits[entries[k].habit_index as int]).completed;
        assert(k != n - 1);
        lemma_last_unchecked_is_last(entries, habits, n - 1);
    }
}

proof fn lemma_first_toggled_is_first(
    entries: Seq<HabitEntry>,
    habits: Seq<TodayHabit>,
    occurrence_id: i64,
    routine_id: Option<i64>,
    p: int,
)
    requires
        0 <= p,
        exists|k: int|
            p <= k < entries.len() && (#[trigger] habits[entries[k].habit_index as int]).occurrence_id
                == occurrence_id && entries[k].routine_id == routine_id,
    ensures
        first_toggled_from(entries, habits, occurrence_id, routine_id, p) matches Some(q) && p <= q
            < entries.len() && habits[entries[q].habit_index as int].occurrence_id == occurrence_id
            && entries[q].routine_id == routine_id && forall|k: int|
            p <= k < q ==> !((#[trigger] habits[entries[k].habit_index as int]).occurrence_id
                == occurrence_id && entries[k].routine_id == routine_id),
    decreases entries.len() - p,
{
    if !(habits[entries[p].habit_index as int].occurrence_id == occurrence_id && entries[p].routine_id
        == routine_id) {
        let k = choose|k: int|
            p <= k < entries.len() && (#[trigger] habits[entries[k].habit_index as int]).occurrence_id
                == occurrence_id && entries[k].routine_id == routine_id;
        assert(k != p);
        lemma_first_toggled_is_first(entries, habits, occurrence_id, routine_id, p + 1);
    }
}

/// Where checking a habit leaves no unchecked row at or after the previous
/// selection, the focus moves back to the last unchecked row, when there is
/// one. Unchecking a habit keeps the focus on it: on the first row that shows
/// the toggled occurrence in the group it was toggled in.
pub proof fn lemma_toggle_focus_falls_back_or_stays(
    s: StateView,
    occurrence_id: i64,
    routine_id: Option<i64>,
    habit_name: Seq<char>,
    was_completed: bool,
    previous_selection: usize,
    v: DayView,
)
    requires
        view_entries(v).len() <= usize::MAX,
    ensures
        ({
            let entries = view_entries(v);
            let habits = v.habits@;
            let after = outcome_step(
                s,
                CommandView::Toggle {
                    occurrence_id,
                    routine_id,
                    habit_name,
                    was_completed,
                    previous_selection,
                },
                Ok(()),
                v,
            );
            &&& (!was_completed && (forall|k: int|
                previous_selection <= k < entries.len() ==> (#[trigger] habits[entries[k].habit_index as int]).completed)
                && (exists|k: int| 0 <= k < entries.len() && !(#[trigger] habits[entries[k].habit_index as int]).completed))
                ==> {
                &&& after.selected < entries.len()
                &&& !habits[entries[after.selected as int].habit_index as int].completed
                &&& forall|k: int|
                    after.selected < k < entries.len() ==> (#[trigger] habits[entries[k].habit_index as int]).completed
            }
            &&& (was_completed && (exists|k: int|
                0 <= k < entries.len() && (#[trigger] habits[entries[k].habit_index as int]).occurrence_id
                    == occurrence_id && entries[k].routine_id == routine_id)) ==> {
                &&& after.selected < entries.len()
                &&& habits[entries[after.selected as int].habit_index as int].occurrence_id == occurrence_id
                &&& entries[after.selected as int].routine_id == routine_id
                &&& forall|k: int|
                    0 <= k < after.selected ==> !((#[trigger] habits[entries[k].habit_index as int]).occurrence_id
                        == occurrence_id && entries[k].routine_id == routine_id)
            }
        }),
{
    let entries = view_entries(v);
    let habits = v.habits@;
    if !was_completed && (forall|k: int|
        previous_selection <= k < entries.len() ==> (#[trigger] habits[entries[k].habit_index as int]).completed)
        && (exists|k: int| 0 <= k < entries.len() && !(#[trigger] habits[entries[k].habit_index as int]).completed) {
        lemma_unchecked_none_after(entries, habits, previous_selection as int);
        lemma_last_unchecked_is_last(entries, habits, entries.len() as int);
    }
    if was_completed && (exists|k: int|
        0 <= k < entries.len() && (#[trigger] habits[entries[k].habit_index as int]).occurrence_id
            == occurrence_id && entries[k].routine_id == routine_id) {
        lemma_first_toggled_is_first(entries, habits, occurrence_id, routine_id, 0);
    }
}

proof fn lemma_unchecked_none_after(entries: Seq<HabitEntry>, habits: Seq<TodayHabit>, p: int)
    requires
        0 <= p,
        forall|k: int| p <= k < entries.len() ==> (#[trigger] habits[entries[k].habit_index as int]).completed,
    ensures
        first_unchecked_from(entries, habits, p) is None,
    decreases entries.len() - p,
{
    if p < entries.len() {
        lemma_unchecked_none_after(entries, habits, p + 1);
    }
}

/// Saving the settings dialog sends exactly the ids of the ticked routines,
/// in the order of the list, together with the habit and its edited name.
pub proof fn lemma_saving_sends_every_ticked_routine(s: StateView, key: KeyPress, v: DayView)
    requires
        key.code == KeyCode::Enter,
    ensures
        (s.mode matches ModeView::EditingHabit { habit_id, name, routines, .. } ==> key_step(
            s,
            key,
            v,
        ).1 == (CommandView::UpdateHabitSettings {
            habit_id,
            name,
            routine_ids: routines.filter(|c: ChoiceView| c.selected).map_values(
                |c: ChoiceView| c.routine.id,
            ),
        })),
{
    match s.mode {
        ModeView::EditingHabit { habit_id, name, routines, .. } => {
            lemma_chosen_ids_are_ticked(routines);
        },
        _ => {},
    }
}

proof fn lemma_chosen_ids_are_ticked(cs: Seq<ChoiceView>)
    ensures
        chosen_ids(cs) == cs.filter(|c: ChoiceView| c.selected).map_values(|c: ChoiceView| c.routine.id),
    decreases cs.len(),
{
    if cs.len() > 0 {
        let rest = cs.drop_last();
        lemma_chosen_ids_are_ticked(rest);
        let pick = |c: ChoiceView| c.selected;
        let id_of = |c: ChoiceView| c.routine.id;
        let sub = rest.filter(pick);
        assert(rest == cs.drop_last());
        reveal(Seq::filter);
        assert(cs.filter(pick) == (if pick(cs.last()) {
            sub.push(cs.last())
        } else {
            sub
        }));
        if cs.last().selected {
            assert(sub.push(cs.last()).map_values(id_of) =~= sub.map_values(id_of).push(
                cs.last().routine.id,
            ));
        }
    }
}

/// A name dialog takes a plain character while its field holds fewer
/// characters than the name may have (80 for a habit, 40 for a routine),
/// appends it and clears the error; once the field is full, the key changes
/// nothing.
pub proof fn lemma_name_dialogs_take_characters_until_full(s: StateView, key: KeyPress, v: DayView)
    requires
        key.code is Char,
        !key.control,
        !key.alt,
    ensures
        (match s.mode {
            ModeView::CreatingHabit { value, error } => {
                &&& value.len() < 80 ==> key_step(s, key, v) == ((
                    StateView {
                        mode: (ModeView::CreatingHabit {
                            value: value.push(key.code->Char_0),
                            error: None,
                        }),
                        ..s
                    }),
                    CommandView::Stay,
                )
                &&& value.len() >= 80 ==> key_step(s, key, v) == (s, CommandView::Stay)
            },
            ModeView::CreatingRoutine { value, error } => {
                &&& value.len() < 40 ==> key_step(s, key, v) == ((
                    StateView {
                        mode: (ModeView::CreatingRoutine {
                            value: value.push(key.code->Char_0),
                            error: None,
                        }),
                        ..s
                    }),
                    CommandView::Stay,
                )
                &&& value.len() >= 40 ==> key_step(s, key, v) == (s, CommandView::Stay)
            },
            _ => true,
        }),
{
}

impl TuiState {
    /// Puts `message` into the open dialog's error line.
    fn set_dialog_error(&mut self, message: String)
        ensures
            final(self)@ == with_dialog_error(old(self)@, message@),
    {
        let mut mode = InputMode::Normal;
        std::mem::swap(&mut mode, &mut self.mode);
        self.mode = match mode {
            InputMode::CreatingHabit { value, error } => InputMode::CreatingHabit {
                value,
                error: Some(message),
            },
            InputMode::CreatingRoutine { value, error } => InputMode::CreatingRoutine {
                value,
                error: Some(message),
            },
            InputMode::EditingHabit { habit_id, name, routines, focus, routine_cursor, error } =>
                InputMode::EditingHabit {
                habit_id,
                name,
                routines,
                focus,
                routine_cursor,
                error: Some(message),
            },
            InputMode::Normal => InputMode::Normal,
        };
    }

    /// Settles the dashboard after the application performed `command`.
    pub fn apply_outcome(&mut self, command: &Command, outcome: Result<(), String>, v: &DayView)
        ensures
            final(self)@ == outcome_step(old(self)@, command@, outcome_view(outcome), *v),
    {
        match command {
            Command::Stay | Command::Quit => {},
            Command::CreateHabit(name) => match outcome {
                Ok(()) => {
                    self.selected = if v.habits.len() > 0 {
                        v.habits.len() - 1
                    } else {
                        0
                    };
                    self.mode = InputMode::Normal;
                    let trimmed = trim(name.as_str());
                    self.notice = Some(
                        Notice {
                            message: quoted_text("created ", trimmed.as_str()),
                            is_error: false,
                        },
                    );
                },
                Err(message) => self.set_dialog_error(message),
            },
            Command::CreateRoutine(name) => match outcome {
                Ok(()) => {
                    self.mode = InputMode::Normal;
                    let trimmed = trim(name.as_str());
                    self.notice = Some(
                        Notice {
                            message: quoted_text("created routine ", trimmed.as_str()),
                            is_error: false,
                        },
                    );
                },
                Err(message) => self.set_dialog_error(message),
            },
            Command::UpdateHabitSettings { habit_id, name, routine_ids } => match outcome {
                Ok(()) => {
                    let entries = habit_entries(&v.habits, &v.routines);
                    self.selected = habit_row(&entries, &v.habits, *habit_id, None);
                    self.mode = InputMode::Normal;
                    let trimmed = trim(name.as_str());
                    self.notice = Some(
                        Notice { message: quoted_text("saved ", trimmed.as_str()), is_error: false },
                    );
                },
                Err(message) => self.set_dialog_error(message),
            },
            Command::Toggle {
                occurrence_id,
                routine_id,
                habit_name,
                was_completed,
                previous_selection,
            } => match outcome {
                Ok(()) => {
                    let entries = habit_entries(&v.habits, &v.routines);
                    let toggled = toggled_row(&entries, &v.habits, *occurrence_id, *routine_id);
                    self.selected = if *was_completed {
                        toggled
                    } else {
                        match unchecked_from(&entries, &v.habits, *previous_selection) {
                            Some(p) => p,
                            None => match last_unchecked(&entries, &v.habits) {
                                Some(p) => p,
                                None => toggled,
                            },
                        }
                    };
                    self.notice = Some(
                        Notice {
                            message: quoted_text("updated ", habit_name.as_str()),
                            is_error: false,
                        },
                    );
                },
                Err(message) => {
                    self.notice = Some(Notice { message, is_error: true });
                },
            },
            Command::SelectDate(_) => match outcome {
                Ok(()) => {
                    self.selected = 0;
                    self.notice = Some(Notice { message: date_notice_text(v), is_error: false });
                },
                Err(message) => {
                    self.notice = Some(Notice { message, is_error: true });
                },
            },
        }
    }

    /// Settles the dashboard after the application looked for a new day:
    /// a new day resets the selection and says so; a failure is shown.
    /// Returns whether the screen must be drawn again.
    pub fn apply_refresh(&mut self, outcome: Result<bool, String>) -> (redraw: bool)
        ensures
            match outcome {
                Ok(changed) => redraw == changed && if changed {
                    final(self)@ == (StateView {
                        selected: 0,
                        notice: info_notice("a new day has begun"@),
                        ..old(self)@
                    })
                } else {
                    final(self)@ == old(self)@
                },
                Err(message) => redraw && final(self)@ == error_notice(old(self)@, message@),
            },
    {
        match outcome {
            Ok(changed) => {
                if changed {
                    self.selected = 0;
                    self.notice = Some(Notice { message: text("a new day has begun"), is_error: false });
                }
                changed
            },
            Err(message) => {
                self.notice = Some(Notice { message, is_error: true });
                true
            },
        }
    }
}

} // verus!
