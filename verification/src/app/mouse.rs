//! What the mouse does.
use crate::app::mode::{AppMode, ModeModel};
use crate::app::state::{App, AppModel};
use crate::geometry::{rect_contains, Rect};
use vstd::prelude::*;
use vstd::string::*;

verus! {

/// What was done with the mouse.
#[derive(Clone, Copy, Debug, PartialEq, Eq, Structural)]
pub enum MouseKind {
    ScrollUp,
    ScrollDown,
    Moved,
    LeftDown,
    Other,
}

/// What was done with the mouse, and where.
#[derive(Clone, Copy, Debug, PartialEq, Eq, Structural)]
pub struct Mouse {
    pub kind: MouseKind,
    pub column: u16,
    pub row: u16,
}

/// Where the tool was drawn in the transcript.
#[derive(Clone, Copy, Debug, PartialEq, Eq, Structural)]
pub struct TerminalPlace {
    pub x: u16,
    pub y: u16,
    pub height: u16,
    /// The first of the tool's rows that is shown.
    pub skip: u16,
}

/// Where the tool's prompt was drawn over the transcript.
#[derive(Clone, Copy, Debug, PartialEq, Eq, Structural)]
pub struct PromptPlace {
    pub x: u16,
    pub y: u16,
    pub height: u16,
    /// The first of the tool's rows that is shown.
    pub start: u16,
}

/// Where things were drawn.
#[derive(Clone, Copy, Debug, PartialEq, Eq, Structural)]
pub struct Places {
    pub terminal: Option<TerminalPlace>,
    pub viewport_width: u16,
    pub prompt: Option<PromptPlace>,
    pub popup: Option<Rect>,
}

impl Places {
    /// Whether all ends can be counted.
    pub open spec fn ends_count(self) -> bool {
        &&& self.terminal is Some ==> self.terminal->0.x + self.viewport_width <= u16::MAX
            && self.terminal->0.y + self.terminal->0.height <= u16::MAX
        &&& self.prompt is Some ==> self.prompt->0.y + self.prompt->0.height <= u16::MAX
        &&& self.popup is Some ==> self.popup->0.ends_count()
    }

    /// Whether a cell is one of the prompt's.
    pub open spec fn on_prompt(self, col: u16, row: u16) -> bool {
        match self.prompt {
            Some(p) => col > p.x && p.y <= row < p.y + p.height,
            None => false,
        }
    }

    /// Whether a cell is one of the tool's.
    pub open spec fn on_terminal(self, col: u16, row: u16) -> bool {
        ||| match self.terminal {
            Some(t) => t.x <= col < t.x + self.viewport_width && t.y <= row < t.y + t.height,
            None => false,
        }
        ||| self.on_prompt(col, row)
    }

    /// Whether a cell is one of the view's.
    pub open spec fn on_popup(self, col: u16, row: u16) -> bool {
        match self.popup {
            Some(area) => area.holds(col, row),
            None => false,
        }
    }

    /// Whether a cell is one of the prompt's.
    pub fn is_over_prompt_overlay(&self, col: u16, row: u16) -> (r: bool)
        requires
            self.ends_count(),
        ensures
            r == self.on_prompt(col, row),
    {
        match self.prompt {
            Some(p) => col > p.x && row >= p.y && row < p.y + p.height,
            None => false,
        }
    }

    /// Whether a cell is one of the tool's.
    pub fn is_over_terminal(&self, col: u16, row: u16) -> (r: bool)
        requires
            self.ends_count(),
        ensures
            r == self.on_terminal(col, row),
    {
        let inline = match self.terminal {
            Some(t) => col >= t.x && col < t.x + self.viewport_width && row >= t.y && row < t.y
                + t.height,
            None => false,
        };
        inline || self.is_over_prompt_overlay(col, row)
    }

    fn is_over_popup(&self, col: u16, row: u16) -> (r: bool)
        requires
            self.ends_count(),
        ensures
            r == self.on_popup(col, row),
    {
        match self.popup {
            Some(area) => rect_contains(area, col, row),
            None => false,
        }
    }
}

/// What the mouse asks for outside.
#[derive(Clone, Copy, Debug, PartialEq, Eq, Structural)]
pub enum MouseAction {
    Nothing,
    /// Scroll the view or the transcript by a number of rows.
    Scroll { in_view: bool, up: bool, rows: usize, restore_cursor: bool },
    /// Hand the event to the tool.
    Forward,
    /// Point at nothing.
    ClearHover,
    /// Point at what is there, in the view or in the transcript.
    Hover { in_view: bool },
    /// Give the keys to the tool, over the transcript.
    ActivateFloating,
    /// Click on what is there, in the view or in the transcript.
    Click { in_view: bool },
}

/// How many rows one turn of the wheel goes.
pub const WHEEL_ROWS: usize = 3;

/// What the mouse does. While keys go to the tool, the mouse over it is the tool's too; the prompt
/// covers what is below it.
pub open spec fn mouse_action(s: AppModel, ev: Mouse, count: usize, places: Places) -> (
    AppModel,
    MouseAction,
) {
    let in_view = places.on_popup(ev.column, ev.row);
    let mine = s.mode is Terminal && places.on_terminal(ev.column, ev.row);
    match ev.kind {
        MouseKind::ScrollUp => (
            s.without_terminal_mode(),
            MouseAction::Scroll {
                in_view,
                up: true,
                rows: (count * WHEEL_ROWS) as usize,
                restore_cursor: s.mode is Terminal,
            },
        ),
        MouseKind::ScrollDown => (
            s,
            MouseAction::Scroll {
                in_view,
                up: false,
                rows: (count * WHEEL_ROWS) as usize,
                restore_cursor: false,
            },
        ),
        MouseKind::Moved => (
            s,
            if mine {
                MouseAction::Forward
            } else if places.on_prompt(ev.column, ev.row) {
                MouseAction::ClearHover
            } else {
                MouseAction::Hover { in_view }
            },
        ),
        MouseKind::LeftDown => if mine {
            (s, MouseAction::Forward)
        } else if places.on_prompt(ev.column, ev.row) {
            if s.panel is Live {
                (AppModel { mode: ModeModel::Terminal, ..s }, MouseAction::ActivateFloating)
            } else {
                (s, MouseAction::Nothing)
            }
        } else {
            (s.without_terminal_mode(), MouseAction::Click { in_view })
        },
        MouseKind::Other => (
            s,
            if mine {
                MouseAction::Forward
            } else {
                MouseAction::Nothing
            },
        ),
    }
}

impl App {
    /// Does what the mouse asks for. `count` is the number of turns of the wheel in a row.
    pub fn handle_mouse(&mut self, ev: Mouse, count: usize, places: Places) -> (r: MouseAction)
        requires
            places.ends_count(),
            count * WHEEL_ROWS <= usize::MAX,
        ensures
            (final(self)@, r) == mouse_action(old(self)@, ev, count, places),
    {
        let in_view = places.is_over_popup(ev.column, ev.row);
        let terminal = match &self.mode {
            AppMode::Terminal => true,
            _ => false,
        };
        let mine = terminal && places.is_over_terminal(ev.column, ev.row);
        let on_prompt = places.is_over_prompt_overlay(ev.column, ev.row);
        match ev.kind {
            MouseKind::ScrollUp => {
                if terminal {
                    self.mode = AppMode::Normal;
                }
                MouseAction::Scroll {
                    in_view,
                    up: true,
                    rows: count * WHEEL_ROWS,
                    restore_cursor: terminal,
                }
            },
            MouseKind::ScrollDown => MouseAction::Scroll {
                in_view,
                up: false,
                rows: count * WHEEL_ROWS,
                restore_cursor: false,
            },
            MouseKind::Moved => {
                if mine {
                    MouseAction::Forward
                } else if on_prompt {
                    MouseAction::ClearHover
                } else {
                    MouseAction::Hover { in_view }
                }
            },
            MouseKind::LeftDown => {
                if mine {
                    MouseAction::Forward
                } else if on_prompt {
                    if self.panel.is_live() {
                        self.mode = AppMode::Terminal;
                        MouseAction::ActivateFloating
                    } else {
                        MouseAction::Nothing
                    }
                } else {
                    if terminal {
                        self.mode = AppMode::Normal;
                    }
                    MouseAction::Click { in_view }
                }
            },
            MouseKind::Other => {
                if mine {
                    MouseAction::Forward
                } else {
                    MouseAction::Nothing
                }
            },
        }
    }
}

// ---------------------------------------------------------------------------
// What the mouse is on
// ---------------------------------------------------------------------------

/// What is at a cell.
#[derive(Debug, PartialEq)]
pub enum MouseHitResult {
    Terminal,
    /// The row that stands for hidden nodes.
    GapRow { path: Vec<usize>, hidden_after: bool },
    /// The mark before a node.
    IndicatorArea { path: Vec<usize> },
    /// A part of a node.
    InnerComponent { path: Vec<usize>, hit: Vec<usize> },
    Message { path: Vec<usize> },
    Outside,
}

/// What a node is pointed at for.
#[derive(Debug, PartialEq)]
pub enum HoverTarget {
    GapRow { hidden_after: bool },
    IndicatorArea,
    Inner(Vec<usize>),
    Message,
}

/// The node that is pointed at.
#[derive(Debug, PartialEq)]
pub struct HoverState {
    pub path: Vec<usize>,
    pub target: HoverTarget,
}

/// The node that is pointed at, by what is at the cell.
pub open spec fn hover_of(hit: MouseHitResult) -> Option<HoverState> {
    match hit {
        MouseHitResult::GapRow { path, hidden_after } => Some(
            HoverState { path, target: HoverTarget::GapRow { hidden_after } },
        ),
        MouseHitResult::IndicatorArea { path } => Some(
            HoverState { path, target: HoverTarget::IndicatorArea },
        ),
        MouseHitResult::InnerComponent { path, hit } => Some(
            HoverState { path, target: HoverTarget::Inner(hit) },
        ),
        MouseHitResult::Message { path } => Some(HoverState { path, target: HoverTarget::Message }),
        MouseHitResult::Terminal => None,
        MouseHitResult::Outside => None,
    }
}

/// The node that is pointed at, by what is at the cell.
pub fn hit_to_hover(hit: MouseHitResult) -> (r: Option<HoverState>)
    ensures
        r == hover_of(hit),
{
    match hit {
        MouseHitResult::GapRow { path, hidden_after } => Some(
            HoverState { path, target: HoverTarget::GapRow { hidden_after } },
        ),
        MouseHitResult::IndicatorArea { path } => Some(
            HoverState { path, target: HoverTarget::IndicatorArea },
        ),
        MouseHitResult::InnerComponent { path, hit } => Some(
            HoverState { path, target: HoverTarget::Inner(hit) },
        ),
        MouseHitResult::Message { path } => Some(HoverState { path, target: HoverTarget::Message }),
        MouseHitResult::Terminal => None,
        MouseHitResult::Outside => None,
    }
}

/// A cell of a table: the row below its head, where it is below, and the column.
#[derive(Clone, Copy, Debug, PartialEq, Eq, Structural)]
pub struct TableCell {
    pub row: Option<usize>,
    pub col: usize,
}

/// The cell of a table that was clicked on; the head is row 0.
pub open spec fn cell_of(hit: Seq<usize>) -> Option<TableCell> {
    if hit.len() < 2 {
        None
    } else {
        Some(
            TableCell {
                row: if hit[0] == 0 {
                    None
                } else {
                    Some((hit[0] - 1) as usize)
                },
                col: hit[1],
            },
        )
    }
}

/// What a click asks for.
#[derive(Debug, PartialEq)]
pub enum ClickAction {
    Nothing,
    /// Give the keys to the tool.
    ActivateTerminal,
    /// Select a node and show what is hidden next to it.
    Reveal(Vec<usize>),
    /// Select a node and open or close it.
    ToggleExpand(Vec<usize>),
    /// Select a node and give the keys to it, at a cell of its table where there is one.
    Enter { path: Vec<usize>, cell: Option<TableCell> },
    /// Show more or less of the selected node.
    ToggleShowMore,
    /// Select a node.
    Select(Vec<usize>),
}

/// What a click does in the transcript: on the selected node it shows more of it.
pub open spec fn tree_click(s: AppModel, hit: MouseHitResult, selection: Seq<usize>) -> (
    AppModel,
    ClickAction,
) {
    match hit {
        MouseHitResult::Terminal => if s.panel is Live {
            (AppModel { mode: ModeModel::Terminal, ..s }, ClickAction::ActivateTerminal)
        } else {
            (s, ClickAction::Nothing)
        },
        MouseHitResult::GapRow { path, .. } => (s, ClickAction::Reveal(path)),
        MouseHitResult::IndicatorArea { path } => (s, ClickAction::ToggleExpand(path)),
        MouseHitResult::InnerComponent { path, hit } => (
            AppModel { mode: ModeModel::MessageInteraction, ..s },
            ClickAction::Enter { path, cell: cell_of(hit@) },
        ),
        MouseHitResult::Message { path } => if path@ == selection {
            (s, ClickAction::ToggleShowMore)
        } else {
            (
                if s.mode is MessageInteraction {
                    AppModel { mode: ModeModel::Normal, ..s }
                } else {
                    s
                },
                ClickAction::Select(path),
            )
        },
        MouseHitResult::Outside => (s, ClickAction::Nothing),
    }
}

/// What a click does in the view.
pub open spec fn view_click(hit: MouseHitResult, selection: Seq<usize>, can_show_more: bool) -> ClickAction {
    match hit {
        MouseHitResult::GapRow { path, .. } => ClickAction::Reveal(path),
        MouseHitResult::IndicatorArea { path } => ClickAction::ToggleExpand(path),
        MouseHitResult::InnerComponent { path, .. } => if path@ == selection {
            if can_show_more {
                ClickAction::ToggleShowMore
            } else {
                ClickAction::Nothing
            }
        } else {
            ClickAction::Select(path)
        },
        MouseHitResult::Message { path } => if path@ == selection {
            if can_show_more {
                ClickAction::ToggleShowMore
            } else {
                ClickAction::Nothing
            }
        } else {
            ClickAction::Select(path)
        },
        MouseHitResult::Terminal => ClickAction::Nothing,
        MouseHitResult::Outside => ClickAction::Nothing,
    }
}

fn same_path(a: &Vec<usize>, b: &Vec<usize>) -> (r: bool)
    ensures
        r == (a@ == b@),
{
    if a.len() != b.len() {
        return false;
    }
    let mut i: usize = 0;
    while i < a.len()
        invariant
            i <= a@.len(),
            a@.len() == b@.len(),
            forall|k: int| 0 <= k < i ==> a@[k] == b@[k],
        decreases a@.len() - i,
    {
        if a[i] != b[i] {
            assert(a@[i as int] != b@[i as int]);
            return false;
        }
        i = i + 1;
    }
    assert(a@ =~= b@);
    true
}

fn find_cell(hit: &Vec<usize>) -> (r: Option<TableCell>)
    ensures
        r == cell_of(hit@),
{
    if hit.len() < 2 {
        None
    } else {
        let row = if hit[0] == 0 {
            None
        } else {
            Some(hit[0] - 1)
        };
        Some(TableCell { row, col: hit[1] })
    }
}

impl App {
    /// Does what a click in the transcript asks for.
    pub fn handle_click_in_tree(&mut self, hit: MouseHitResult, selection: &Vec<usize>) -> (r:
        ClickAction)
        ensures
            (final(self)@, r) == tree_click(old(self)@, hit, selection@),
    {
        match hit {
            MouseHitResult::Terminal => {
                if self.panel.is_live() {
                    self.mode = AppMode::Terminal;
                    ClickAction::ActivateTerminal
                } else {
                    ClickAction::Nothing
                }
            },
            MouseHitResult::GapRow { path, .. } => ClickAction::Reveal(path),
            MouseHitResult::IndicatorArea { path } => ClickAction::ToggleExpand(path),
            MouseHitResult::InnerComponent { path, hit } => {
                self.mode = AppMode::MessageInteraction;
                let cell = find_cell(&hit);
                ClickAction::Enter { path, cell }
            },
            MouseHitResult::Message { path } => {
                if same_path(&path, selection) {
                    ClickAction::ToggleShowMore
                } else {
                    let message = match &self.mode {
                        AppMode::MessageInteraction => true,
                        _ => false,
                    };
                    if message {
                        self.mode = AppMode::Normal;
                    }
                    ClickAction::Select(path)
                }
            },
            MouseHitResult::Outside => ClickAction::Nothing,
        }
    }
}

/// What a click in the view asks for.
pub fn handle_click_in_data_view(
    hit: MouseHitResult,
    selection: &Vec<usize>,
    can_show_more: bool,
) -> (r: ClickAction)
    ensures
        r == view_click(hit, selection@, can_show_more),
{
    let path = match hit {
        MouseHitResult::GapRow { path, .. } => {
            return ClickAction::Reveal(path);
        },
        MouseHitResult::IndicatorArea { path } => {
            return ClickAction::ToggleExpand(path);
        },
        MouseHitResult::InnerComponent { path, .. } => path,
        MouseHitResult::Message { path } => path,
        MouseHitResult::Terminal => {
            return ClickAction::Nothing;
        },
        MouseHitResult::Outside => {
            return ClickAction::Nothing;
        },
    };
    if same_path(&path, selection) {
        if can_show_more {
            ClickAction::ToggleShowMore
        } else {
            ClickAction::Nothing
        }
    } else {
        ClickAction::Select(path)
    }
}

/// Turning the wheel up takes the keys back from the tool; nothing else that the wheel does
/// changes what keys are for.
pub proof fn law_wheel(s: AppModel, ev: Mouse, count: usize, places: Places)
    requires
        ev.kind == MouseKind::ScrollUp || ev.kind == MouseKind::ScrollDown,
    ensures
        ({
            let next = mouse_action(s, ev, count, places).0;
            &&& ev.kind == MouseKind::ScrollUp ==> !(next.mode is Terminal)
            &&& ev.kind == MouseKind::ScrollDown ==> next == s
            &&& !(s.mode is Terminal) ==> next == s
        }),
{
}

/// A click beside the tool takes the keys back from it, so that the next click on it gives them to
/// it again.
pub proof fn law_click_beside_tool(s: AppModel, ev: Mouse, count: usize, places: Places)
    requires
        ev.kind == MouseKind::LeftDown,
        !places.on_terminal(ev.column, ev.row),
    ensures
        !(mouse_action(s, ev, count, places).0.mode is Terminal),
{
}

} // verus!
