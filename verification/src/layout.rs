//! Geometry of dialogs and panes on the terminal.

use vstd::prelude::*;

verus! {

/// A rectangle of terminal cells.
#[derive(Debug, Clone, Copy, PartialEq, Eq, Structural)]
pub struct Rect {
    pub x: u16,
    pub y: u16,
    pub width: u16,
    pub height: u16,
}

/// `a - b`, or zero when `b` is larger.
pub open spec fn sat_sub(a: int, b: int) -> int {
    if a >= b {
        a - b
    } else {
        0
    }
}

pub open spec fn min_int(a: int, b: int) -> int {
    if a <= b {
        a
    } else {
        b
    }
}

impl Rect {
    /// A rectangle at `(x, y)`; as with ratatui's `Rect::new`, its width and
    /// height are cut so that it ends within the coordinate range.
    pub fn new(x: u16, y: u16, width: u16, height: u16) -> (r: Rect)
        ensures
            r.x == x,
            r.y == y,
            r.width == min_int(width as int, u16::MAX - x),
            r.height == min_int(height as int, u16::MAX - y),
    {
        let width = x.saturating_add(width) - x;
        let height = y.saturating_add(height) - y;
        Rect { x, y, width, height }
    }
}

/// A `width` by `height` rectangle centred in `area` (rounded towards the
/// top left), cut at the end of the coordinate range.
pub fn centered_rect(width: u16, height: u16, area: Rect) -> (r: Rect)
    requires
        area.x + sat_sub(area.width as int, width as int) / 2 <= u16::MAX,
        area.y + sat_sub(area.height as int, height as int) / 2 <= u16::MAX,
    ensures
        r.x == area.x + sat_sub(area.width as int, width as int) / 2,
        r.y == area.y + sat_sub(area.height as int, height as int) / 2,
        r.width == min_int(width as int, u16::MAX - r.x),
        r.height == min_int(height as int, u16::MAX - r.y),
{
    let x = area.x + area.width.saturating_sub(width) / 2;
    let y = area.y + area.height.saturating_sub(height) / 2;
    Rect::new(x, y, width, height)
}

/// A dialog's extent along one axis: what it would like, but leaving a
/// margin of two cells on either side of what is available.
pub fn dialog_extent(preferred: u16, available: u16) -> (r: u16)
    ensures
        r == min_int(preferred as int, sat_sub(available as int, 4)),
{
    let room = available.saturating_sub(4);
    if preferred <= room {
        preferred
    } else {
        room
    }
}

/// A dialog of at most `preferred_width` by `preferred_height` cells,
/// centred in `area` with a margin of two cells.
pub fn dialog_area(preferred_width: u16, preferred_height: u16, area: Rect) -> (r: Rect)
    requires
        area.x + area.width <= u16::MAX,
        area.y + area.height <= u16::MAX,
    ensures
        r.width == min_int(preferred_width as int, sat_sub(area.width as int, 4)),
        r.height == min_int(preferred_height as int, sat_sub(area.height as int, 4)),
        r.x == area.x + sat_sub(area.width as int, r.width as int) / 2,
        r.y == area.y + sat_sub(area.height as int, r.height as int) / 2,
        r.x + r.width <= area.x + area.width,
        r.y + r.height <= area.y + area.height,
{
    let w = dialog_extent(preferred_width, area.width);
    let h = dialog_extent(preferred_height, area.height);
    centered_rect(w, h, area)
}

/// The width of the management workspace's category column for a pane
/// `total` cells wide: a third of it, at least 18 and at most 26 cells.
pub fn category_column_width(total: u16) -> (r: u16)
    ensures
        r == min_int(26, if total / 3 >= 18 { (total / 3) as int } else { 18 }),
{
    let third = total / 3;
    let w = if third >= 18 { third } else { 18 };
    if w <= 26 { w } else { 26 }
}

} // verus!
