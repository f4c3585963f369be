//! Responsive layout breakpoints and the focused dashboard views.

use vstd::prelude::*;

verus! {

/// Terminals at least this wide show the wide dashboard.
pub const WIDE_TERMINAL_MIN_COLUMNS: u16 = 96;

/// Terminals at least this wide (and narrower than the wide breakpoint) show
/// the medium dashboard.
pub const MEDIUM_TERMINAL_MIN_COLUMNS: u16 = 64;

#[derive(Debug, Clone, Copy, PartialEq, Eq, Structural)]
pub enum LayoutMode {
    Wide,
    Medium,
    Narrow,
}

pub open spec fn layout_for(width: u16) -> LayoutMode {
    if width >= WIDE_TERMINAL_MIN_COLUMNS {
        LayoutMode::Wide
    } else if width >= MEDIUM_TERMINAL_MIN_COLUMNS {
        LayoutMode::Medium
    } else {
        LayoutMode::Narrow
    }
}

impl LayoutMode {
    /// The layout for a terminal `width` columns wide.
    pub fn for_width(width: u16) -> (r: LayoutMode)
        ensures
            r == layout_for(width),
    {
        if width >= WIDE_TERMINAL_MIN_COLUMNS {
            LayoutMode::Wide
        } else if width >= MEDIUM_TERMINAL_MIN_COLUMNS {
            LayoutMode::Medium
        } else {
            LayoutMode::Narrow
        }
    }
}

/// A wider terminal never gets a narrower layout.
pub proof fn lemma_layout_monotone(a: u16, b: u16)
    requires
        a <= b,
    ensures
        layout_for(a) == LayoutMode::Wide ==> layout_for(b) == LayoutMode::Wide,
        layout_for(a) == LayoutMode::Medium ==> layout_for(b) != LayoutMode::Narrow,
{
}

/// A dialog box centred in an area: at most `maximum_width` wide and four
/// columns narrower than the area, at most `height` tall and two rows shorter
/// than the area, and at least one column and row. Returns `(x, y, width,
/// height)`.
pub fn centered_box(
    area_x: u16,
    area_y: u16,
    area_width: u16,
    area_height: u16,
    maximum_width: u16,
    height: u16,
) -> (r: (u16, u16, u16, u16))
    requires
        area_x + area_width <= u16::MAX,
        area_y + area_height <= u16::MAX,
    ensures
        ({
            let room_w = if area_width >= 4 { area_width - 4 } else { 0 };
            let w0 = if maximum_width < room_w { maximum_width as int } else { room_w };
            let w = if w0 < 1 { 1 } else { w0 };
            let room_h = if area_height >= 2 { area_height - 2 } else { 0 };
            let h0 = if height < room_h { height as int } else { room_h };
            let h = if h0 < 1 { 1 } else { h0 };
            &&& r.2 == w
            &&& r.3 == h
            &&& r.0 == area_x + (if area_width >= w { (area_width - w) / 2 } else { 0 })
            &&& r.1 == area_y + (if area_height >= h { (area_height - h) / 2 } else { 0 })
        }),
{
    let room_w: u16 = if area_width >= 4 { area_width - 4 } else { 0 };
    let w0 = if maximum_width < room_w { maximum_width } else { room_w };
    let width: u16 = if w0 < 1 { 1 } else { w0 };
    let room_h: u16 = if area_height >= 2 { area_height - 2 } else { 0 };
    let h0 = if height < room_h { height } else { room_h };
    let box_height: u16 = if h0 < 1 { 1 } else { h0 };
    let dx: u16 = if area_width >= width { (area_width - width) / 2 } else { 0 };
    let dy: u16 = if area_height >= box_height { (area_height - box_height) / 2 } else { 0 };
    (area_x + dx, area_y + dy, width, box_height)
}

/// The view that the dashboard focuses.
#[derive(Debug, Clone, Copy, PartialEq, Eq, Structural)]
pub enum DashboardView {
    Today,
    Calendar,
    Contributions,
}

pub open spec fn next_view(v: DashboardView) -> DashboardView {
    match v {
        DashboardView::Today => DashboardView::Calendar,
        DashboardView::Calendar => DashboardView::Contributions,
        DashboardView::Contributions => DashboardView::Today,
    }
}

impl DashboardView {
    /// The view that `Tab` moves to.
    pub fn next(self) -> (r: DashboardView)
        ensures
            r == next_view(self),
    {
        match self {
            DashboardView::Today => DashboardView::Calendar,
            DashboardView::Calendar => DashboardView::Contributions,
            DashboardView::Contributions => DashboardView::Today,
        }
    }
}

/// Three presses of `Tab` return to the starting view, and each press moves
/// to another view.
pub proof fn lemma_view_cycle(v: DashboardView)
    ensures
        next_view(next_view(next_view(v))) == v,
        next_view(v) != v,
{
}

} // verus!
