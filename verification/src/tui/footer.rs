//! The footer line: which keys it offers, and the message at its right.

use vstd::prelude::*;

use crate::app::DayView;
use crate::tui::layout::MEDIUM_TERMINAL_MIN_COLUMNS;
use crate::tui::state::{
    date_notice, date_notice_text, notice_view, viewing_today, InputMode, ModeView, NoticeView,
    TuiState,
};
use crate::tui::view::Tone;

verus! {

/// A key and what pressing it does.
#[derive(Debug, Clone, Copy)]
pub struct KeyHint {
    pub key: &'static str,
    pub label: &'static str,
}

pub open spec fn hint_text(h: KeyHint) -> (Seq<char>, Seq<char>) {
    (h.key@, h.label@)
}

/// The keys that the footer offers: the dialog's keys while one is open;
/// otherwise the editing keys on today and the date keys on any other day,
/// more tightly spaced on a narrow terminal.
pub open spec fn footer_hint_texts(mode: ModeView, narrow: bool, on_today: bool) -> Seq<
    (Seq<char>, Seq<char>),
> {
    match mode {
        ModeView::Normal => if narrow {
            if on_today {
                seq![
                    ("n"@, " new  "@),
                    ("r"@, " routine  "@),
                    ("e"@, " edit  "@),
                    ("space"@, " done  "@),
                    ("tab"@, " view"@),
                ]
            } else {
                seq![("h/l"@, " date  "@), ("t"@, " today  "@), ("tab"@, " view"@)]
            }
        } else if on_today {
            seq![
                ("n"@, " new   "@),
                ("r"@, " routine   "@),
                ("e"@, " edit   "@),
                ("space"@, " toggle   "@),
                ("h/l"@, " date   "@),
                ("tab"@, " view"@),
            ]
        } else {
            seq![("h/l"@, " date   "@), ("t"@, " today   "@), ("tab"@, " view"@)]
        },
        ModeView::EditingHabit { .. } => seq![
            ("enter"@, " save   "@),
            ("tab"@, " field   "@),
            ("esc"@, " cancel"@),
        ],
        _ => seq![("enter"@, " create   "@), ("esc"@, " cancel"@)],
    }
}

/// The message at the footer's right, when the footer has room for one: none
/// while a dialog is open or on a narrow terminal; on another day than today
/// the notice, or else which day is viewed, in moss; on today the notice, in
/// vermilion for an error and moss otherwise, or else the storage label in
/// stone.
pub open spec fn footer_message(
    mode: ModeView,
    narrow: bool,
    notice: Option<NoticeView>,
    v: DayView,
) -> Option<(Seq<char>, Tone)> {
    if !(mode is Normal) || narrow {
        None
    } else if !viewing_today(v) {
        match notice {
            Some(n) => Some((n.message, Tone::Moss)),
            None => Some((date_notice(v), Tone::Moss)),
        }
    } else {
        match notice {
            Some(n) => Some(
                (
                    n.message,
                    if n.is_error {
                        Tone::Vermilion
                    } else {
                        Tone::Moss
                    },
                ),
            ),
            None => Some(("SQLite · LOCAL"@, Tone::Stone)),
        }
    }
}

fn push_hint(hints: &mut Vec<KeyHint>, key: &'static str, label: &'static str)
    ensures
        final(hints)@ == old(hints)@.push(KeyHint { key, label }),
{
    hints.push(KeyHint { key, label });
}

/// The keys that the footer of a terminal `width` columns wide offers.
pub fn footer_hints(mode: &InputMode, width: u16, on_today: bool) -> (r: Vec<KeyHint>)
    ensures
        r@.len() == footer_hint_texts(mode@, width < MEDIUM_TERMINAL_MIN_COLUMNS, on_today).len(),
        forall|k: int|
            0 <= k < r@.len() ==> hint_text(#[trigger] r@[k]) == footer_hint_texts(
                mode@,
                width < MEDIUM_TERMINAL_MIN_COLUMNS,
                on_today,
            )[k],
{
    let mut hints: Vec<KeyHint> = Vec::new();
    match mode {
        InputMode::Normal => {
            if width < MEDIUM_TERMINAL_MIN_COLUMNS {
                if on_today {
                    push_hint(&mut hints, "n", " new  ");
                    push_hint(&mut hints, "r", " routine  ");
                    push_hint(&mut hints, "e", " edit  ");
                    push_hint(&mut hints, "space", " done  ");
                    push_hint(&mut hints, "tab", " view");
                } else {
                    push_hint(&mut hints, "h/l", " date  ");
                    push_hint(&mut hints, "t", " today  ");
                    push_hint(&mut hints, "tab", " view");
                }
            } else if on_today {
                push_hint(&mut hints, "n", " new   ");
                push_hint(&mut hints, "r", " routine   ");
                push_hint(&mut hints, "e", " edit   ");
                push_hint(&mut hints, "space", " toggle   ");
                push_hint(&mut hints, "h/l", " date   ");
                push_hint(&mut hints, "tab", " view");
            } else {
                push_hint(&mut hints, "h/l", " date   ");
                push_hint(&mut hints, "t", " today   ");
                push_hint(&mut hints, "tab", " view");
            }
        },
        InputMode::EditingHabit { .. } => {
            push_hint(&mut hints, "enter", " save   ");
            push_hint(&mut hints, "tab", " field   ");
            push_hint(&mut hints, "esc", " cancel");
        },
        _ => {
            push_hint(&mut hints, "enter", " create   ");
            push_hint(&mut hints, "esc", " cancel");
        },
    }
    proof {
        let expected = footer_hint_texts(mode@, width < MEDIUM_TERMINAL_MIN_COLUMNS, on_today);
        assert(hints@.map_values(|h: KeyHint| hint_text(h)) =~= expected);
        assert forall|k: int| 0 <= k < hints@.len() implies hint_text(#[trigger] hints@[k])
            == expected[k] by {
            assert(hints@.map_values(|h: KeyHint| hint_text(h))[k] == hint_text(hints@[k]));
        }
    }
    hints
}

/// The message at the right of the footer of a terminal `width` columns
/// wide, with its tone.
pub fn footer_notice(state: &TuiState, v: &DayView, width: u16) -> (r: Option<(String, Tone)>)
    ensures
        match r {
            Some((text, tone)) => footer_message(
                state.mode@,
                width < MEDIUM_TERMINAL_MIN_COLUMNS,
                notice_view(state.notice),
                *v,
            ) == Some((text@, tone)),
            None => footer_message(
                state.mode@,
                width < MEDIUM_TERMINAL_MIN_COLUMNS,
                notice_view(state.notice),
                *v,
            ) is None,
        },
{
    match &state.mode {
        InputMode::Normal => {},
        _ => {
            return None;
        },
    }
    if width < MEDIUM_TERMINAL_MIN_COLUMNS {
        return None;
    }
    if !v.selected_date.same_day(&v.today) {
        match &state.notice {
            Some(n) => Some((n.message.clone(), Tone::Moss)),
            None => Some((date_notice_text(v), Tone::Moss)),
        }
    } else {
        match &state.notice {
            Some(n) => Some(
                (
                    n.message.clone(),
                    if n.is_error {
                        Tone::Vermilion
                    } else {
                        Tone::Moss
                    },
                ),
            ),
            None => Some(("SQLite · LOCAL".to_string(), Tone::Stone)),
        }
    }
}

} // verus!
