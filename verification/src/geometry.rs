//! Areas of the screen.
use vstd::prelude::*;

verus! {

/// An area of the screen, in cells.
#[derive(Clone, Copy, Debug, PartialEq, Eq, Structural)]
pub struct Rect {
    pub x: u16,
    pub y: u16,
    pub width: u16,
    pub height: u16,
}

impl Rect {
    /// Whether the area's right and lower ends can be counted.
    pub open spec fn ends_count(self) -> bool {
        &&& self.x + self.width <= u16::MAX
        &&& self.y + self.height <= u16::MAX
    }

    /// Whether a cell lies in the area.
    pub open spec fn holds(self, col: u16, row: u16) -> bool {
        &&& self.x <= col < self.x + self.width
        &&& self.y <= row < self.y + self.height
    }
}

/// Whether a cell lies in the area.
pub fn rect_contains(rect: Rect, col: u16, row: u16) -> (r: bool)
    requires
        rect.ends_count(),
    ensures
        r == rect.holds(col, row),
{
    col >= rect.x && col < rect.x + rect.width && row >= rect.y && row < rect.y + rect.height
}

/// The lesser one.
pub open spec fn lesser(a: int, b: int) -> int {
    if a <= b {
        a
    } else {
        b
    }
}

/// The greater one.
pub open spec fn greater(a: int, b: int) -> int {
    if a >= b {
        a
    } else {
        b
    }
}

/// A part of a length in percent, at least ten cells where there are that many.
pub open spec fn share(length: int, percent: int) -> int {
    lesser(greater(length * percent / 100, 10), length)
}

fn part_of(length: u16, percent: u16) -> (r: u16)
    requires
        length * percent <= u16::MAX,
    ensures
        r == share(length as int, percent as int),
{
    let part = length * percent / 100;
    let at_least = if part >= 10 {
        part
    } else {
        10
    };
    if at_least <= length {
        at_least
    } else {
        length
    }
}

/// An area in the middle of another one, with the given parts of its width and height in percent.
pub fn centered(area: Rect, pct_w: u16, pct_h: u16) -> (r: Rect)
    requires
        area.ends_count(),
        area.width * pct_w <= u16::MAX,
        area.height * pct_h <= u16::MAX,
    ensures
        r.width == share(area.width as int, pct_w as int),
        r.height == share(area.height as int, pct_h as int),
        r.x == area.x + (area.width - r.width) / 2,
        r.y == area.y + (area.height - r.height) / 2,
{
    let w = part_of(area.width, pct_w);
    let h = part_of(area.height, pct_h);
    Rect {
        x: area.x + (area.width - w) / 2,
        y: area.y + (area.height - h) / 2,
        width: w,
        height: h,
    }
}

/// An area in the middle of another one lies in it.
pub proof fn law_centered_inside(area: Rect, pct_w: u16, pct_h: u16, r: Rect, col: u16, row: u16)
    requires
        r.width == share(area.width as int, pct_w as int),
        r.height == share(area.height as int, pct_h as int),
        r.x == area.x + (area.width - r.width) / 2,
        r.y == area.y + (area.height - r.height) / 2,
        r.holds(col, row),
    ensures
        area.holds(col, row),
{
}

} // verus!
