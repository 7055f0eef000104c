//! Where the tool and its cursor are drawn.
use crate::app::mouse::{PromptPlace, TerminalPlace};
use crate::geometry::{greater, Rect};
use crate::status_bar::CollapsedCrop;
use vstd::prelude::*;

verus! {

/// The rows of a tool's screen: all but ten of the window's, but at least twenty.
pub open spec fn rows_for(live: bool, height: u16) -> int {
    if live {
        greater(height - 10, 20)
    } else {
        20
    }
}

/// The rows of a tool's screen.
pub fn pty_rows(live: bool, height: u16) -> (r: u16)
    ensures
        r == rows_for(live, height),
{
    if live && height > 30 {
        height - 10
    } else {
        20
    }
}

/// Whether the tool's prompt is drawn over the transcript: it is known where it is, and it is held
/// in place, or keys go to the tool while its end is out of sight.
pub open spec fn overlay_shown(
    prompt_start: Option<u16>,
    crop: Option<CollapsedCrop>,
    pinned: bool,
    at_bottom: bool,
    active: bool,
) -> bool {
    prompt_start is Some && crop is Some && (pinned || (!at_bottom && active))
}

/// Whether the tool's prompt is drawn over the transcript.
pub fn shows_overlay(
    prompt_start: Option<u16>,
    crop: Option<CollapsedCrop>,
    pinned: bool,
    at_bottom: bool,
    active: bool,
) -> (r: bool)
    ensures
        r == overlay_shown(prompt_start, crop, pinned, at_bottom, active),
{
    prompt_start.is_some() && crop.is_some() && (pinned || (!at_bottom && active))
}

/// The prompt over the transcript.
#[derive(Clone, Copy, Debug, PartialEq, Eq, Structural)]
pub struct Overlay {
    /// The rows that are covered: one for a line above the prompt, and one below it.
    pub area: Rect,
    /// The prompt's own rows.
    pub prompt: PromptPlace,
    /// How far below the first shown row the prompt begins.
    pub block_offset: u16,
}

/// The rows of the prompt.
pub open spec fn prompt_rows(crop: CollapsedCrop, start: u16) -> int {
    greater(crop.start_row + crop.height - start, 0)
}

/// The first row that is covered: the prompt stands at the end of the transcript's area.
pub open spec fn overlay_top(area: Rect, rows: int) -> int {
    let bottom = if area.y + area.height <= u16::MAX {
        area.y + area.height
    } else {
        u16::MAX as int
    };
    greater(bottom - (rows + 2), 0)
}

/// The prompt over the transcript; there is none without rows.
pub fn place_overlay(area: Rect, crop: CollapsedCrop, start: u16) -> (r: Option<Overlay>)
    requires
        crop.start_row + crop.height <= u16::MAX,
        prompt_rows(crop, start) <= u16::MAX - 2,
    ensures
        ({
            let rows = prompt_rows(crop, start);
            if rows == 0 {
                r is None
            } else {
                let top = overlay_top(area, rows);
                &&& r is Some
                &&& r->0.area.x == area.x
                &&& r->0.area.width == area.width
                &&& r->0.area.y == top
                &&& r->0.area.height == rows + 2
                &&& r->0.prompt.x == area.x
                &&& r->0.prompt.y == top + 1
                &&& r->0.prompt.height == rows
                &&& r->0.prompt.start == start
                &&& r->0.block_offset == greater(start - crop.start_row, 0)
            }
        }),
{
    let end = crop.start_row + crop.height;
    if end <= start {
        return None;
    }
    let rows = end - start;
    let height = rows + 2;
    let bottom = if area.height <= u16::MAX - area.y {
        area.y + area.height
    } else {
        u16::MAX
    };
    let top = if bottom >= height {
        bottom - height
    } else {
        0
    };
    let block_offset = if start >= crop.start_row {
        start - crop.start_row
    } else {
        0
    };
    Some(
        Overlay {
            area: Rect { x: area.x, y: top, width: area.width, height },
            prompt: PromptPlace { x: area.x, y: top + 1, height: rows, start },
            block_offset,
        },
    )
}

/// Where the tool's cursor is, and whether it is shown.
#[derive(Clone, Copy, Debug, PartialEq, Eq, Structural)]
pub struct Cursor {
    pub row: u16,
    pub col: u16,
    pub hidden: bool,
}

/// The cell of the cursor in the prompt over the transcript.
pub open spec fn cursor_on_prompt(prompt: PromptPlace, cursor: Cursor) -> Option<(int, int)> {
    if cursor.hidden || cursor.row < prompt.start || cursor.row - prompt.start >= prompt.height {
        None
    } else {
        Some((prompt.x + 1 + cursor.col, prompt.y + (cursor.row - prompt.start)))
    }
}

/// The cell of the cursor in the prompt over the transcript.
pub fn overlay_cursor(prompt: PromptPlace, cursor: Cursor) -> (r: Option<(u16, u16)>)
    requires
        prompt.x + 1 + cursor.col <= u16::MAX,
        prompt.y + prompt.height <= u16::MAX,
    ensures
        match r {
            Some((x, y)) => cursor_on_prompt(prompt, cursor) == Some((x as int, y as int)),
            None => cursor_on_prompt(prompt, cursor) is None,
        },
{
    if cursor.hidden || cursor.row < prompt.start {
        return None;
    }
    let row = cursor.row - prompt.start;
    if row >= prompt.height {
        return None;
    }
    Some((prompt.x + 1 + cursor.col, prompt.y + row))
}

/// The cell of the cursor in the transcript: among the tool's rows that are shown, behind those
/// that went by where these are shown too, and not where the prompt covers them.
pub open spec fn cursor_inline(
    place: TerminalPlace,
    cursor: Cursor,
    gone_by: u16,
    covered_from: Option<u16>,
) -> Option<(int, int)> {
    let row = gone_by + cursor.row - place.skip;
    let covered = covered_from is Some && cursor.row >= covered_from->0;
    if covered || cursor.hidden || row < 0 || row >= place.height {
        None
    } else {
        Some((place.x + 1 + cursor.col, place.y + row))
    }
}

/// The cell of the cursor in the transcript.
pub fn inline_cursor(
    place: TerminalPlace,
    cursor: Cursor,
    gone_by: u16,
    covered_from: Option<u16>,
) -> (r: Option<(u16, u16)>)
    requires
        place.x + 1 + cursor.col <= u16::MAX,
        place.y + place.height <= u16::MAX,
    ensures
        match r {
            Some((x, y)) => cursor_inline(place, cursor, gone_by, covered_from) == Some(
                (x as int, y as int),
            ),
            None => cursor_inline(place, cursor, gone_by, covered_from) is None,
        },
{
    let covered = match covered_from {
        Some(from) => cursor.row >= from,
        None => false,
    };
    let row: i32 = gone_by as i32 + cursor.row as i32 - place.skip as i32;
    if covered || cursor.hidden || row < 0 || row >= place.height as i32 {
        return None;
    }
    Some((place.x + 1 + cursor.col, place.y + row as u16))
}

/// The rows that went by before the tool's screen, where they are shown.
pub fn rows_gone_by(expanded: bool, scrollback: u16) -> (r: u16)
    ensures
        r == (if expanded {
            scrollback
        } else {
            0
        }),
{
    if expanded {
        scrollback
    } else {
        0
    }
}

/// What is known when the cursor is drawn.
#[derive(Clone, Copy, Debug, PartialEq, Eq, Structural)]
pub struct CursorFacts {
    /// Whether keys go to the tool.
    pub active: bool,
    /// Whether the prompt is held in place.
    pub pinned: bool,
    /// Where the prompt begins, where it is drawn over the transcript.
    pub covered_from: Option<u16>,
    /// The prompt over the transcript, where it has rows.
    pub prompt: Option<PromptPlace>,
    /// Where the tool is in the transcript, where it is in sight.
    pub place: Option<TerminalPlace>,
    /// The rows that went by and are shown.
    pub gone_by: u16,
    pub cursor: Cursor,
}

impl CursorFacts {
    /// The cells that the cursor can come to can be counted.
    pub open spec fn counts(self) -> bool {
        &&& self.prompt is Some ==> self.prompt->0.x + 1 + self.cursor.col <= u16::MAX
            && self.prompt->0.y + self.prompt->0.height <= u16::MAX
        &&& self.place is Some ==> self.place->0.x + 1 + self.cursor.col <= u16::MAX
            && self.place->0.y + self.place->0.height <= u16::MAX
    }
}

/// The cell of a running tool's cursor: in the prompt over the transcript while keys go to the
/// tool, else in the transcript, unless the prompt is only held in place there.
pub open spec fn cursor_cell(f: CursorFacts) -> Option<(int, int)> {
    let over = match f.prompt {
        Some(prompt) => if f.active {
            cursor_on_prompt(prompt, f.cursor)
        } else {
            None
        },
        None => None,
    };
    match over {
        Some(cell) => Some(cell),
        None => match f.place {
            Some(place) => if f.active || !f.pinned {
                cursor_inline(place, f.cursor, f.gone_by, f.covered_from)
            } else {
                None
            },
            None => None,
        },
    }
}

/// The cell of a running tool's cursor.
pub fn place_cursor(f: CursorFacts) -> (r: Option<(u16, u16)>)
    requires
        f.counts(),
    ensures
        match r {
            Some((x, y)) => cursor_cell(f) == Some((x as int, y as int)),
            None => cursor_cell(f) is None,
        },
{
    if f.active {
        if let Some(prompt) = f.prompt {
            if let Some(cell) = overlay_cursor(prompt, f.cursor) {
                return Some(cell);
            }
        }
    }
    match f.place {
        Some(place) => {
            if f.active || !f.pinned {
                inline_cursor(place, f.cursor, f.gone_by, f.covered_from)
            } else {
                None
            }
        },
        None => None,
    }
}

/// The cursor is never drawn twice: where the prompt covers the transcript, it is drawn on one of
/// them alone.
pub proof fn law_one_cursor(prompt: PromptPlace, place: TerminalPlace, cursor: Cursor, gone_by: u16)
    ensures
        cursor_on_prompt(prompt, cursor) is None || cursor_inline(
            place,
            cursor,
            gone_by,
            Some(prompt.start),
        ) is None,
{
}

/// The cursor is drawn on a row of what it belongs to.
pub proof fn law_cursor_inside(place: TerminalPlace, cursor: Cursor, gone_by: u16, covered_from: Option<u16>)
    requires
        cursor_inline(place, cursor, gone_by, covered_from) is Some,
    ensures
        ({
            let (_, row) = cursor_inline(place, cursor, gone_by, covered_from)->0;
            place.y <= row < place.y + place.height
        }),
{
}

} // verus!
