//! Keys in the list.
use crate::key::{Key, KeyCode};
use crate::picker::state::{PickerModel, PickerState, Tab};
use crate::providers::{EntryModel, ProviderKind, TranscriptEntry};
use vstd::prelude::*;
use vstd::string::*;

verus! {

broadcast use vstd::string::group_string_axioms;

/// What a key asks for beyond the list.
#[derive(Debug, PartialEq)]
pub enum PickerAction {
    Nothing,
    Quit,
    /// Open a session.
    Select(TranscriptEntry),
    /// Open a session and start its tool in it.
    OpenAndResume(TranscriptEntry),
    ToggleShowAll,
    /// Start a new session.
    NewSession(ProviderKind),
}

/// What a `PickerAction` holds.
pub enum PickerActionModel {
    Nothing,
    Quit,
    Select(EntryModel),
    OpenAndResume(EntryModel),
    ToggleShowAll,
    NewSession(ProviderKind),
}

impl View for PickerAction {
    type V = PickerActionModel;

    open spec fn view(&self) -> PickerActionModel {
        match *self {
            PickerAction::Nothing => PickerActionModel::Nothing,
            PickerAction::Quit => PickerActionModel::Quit,
            PickerAction::Select(e) => PickerActionModel::Select(e@),
            PickerAction::OpenAndResume(e) => PickerActionModel::OpenAndResume(e@),
            PickerAction::ToggleShowAll => PickerActionModel::ToggleShowAll,
            PickerAction::NewSession(p) => PickerActionModel::NewSession(p),
        }
    }
}

/// What starting a new session comes to: the tab says whose it is.
pub open spec fn new_session(s: PickerModel, now_ms: u64) -> (PickerModel, PickerActionModel) {
    match s.tab {
        Tab::All => (
            s.flashing("Select a provider tab first"@, now_ms),
            PickerActionModel::Nothing,
        ),
        Tab::Cursor => (s, PickerActionModel::NewSession(ProviderKind::Cursor)),
        Tab::Claude => (s, PickerActionModel::NewSession(ProviderKind::Claude)),
    }
}

/// What a key does. Only a press does anything.
pub open spec fn picker_key(s: PickerModel, key: Key, now_ms: u64) -> (
    PickerModel,
    PickerActionModel,
) {
    if !key.press {
        (s, PickerActionModel::Nothing)
    } else if key.code == KeyCode::Down || key.types('j') || key.types_ctrl('n') {
        (s.down(), PickerActionModel::Nothing)
    } else if key.code == KeyCode::Up || key.types('k') || key.types_ctrl('p') {
        (s.up(), PickerActionModel::Nothing)
    } else if key.code == KeyCode::Right || key.code == KeyCode::Tab || key.types('l') {
        (s.on_tab(s.tab.next()), PickerActionModel::Nothing)
    } else if key.code == KeyCode::Left || key.types('h') {
        (s.on_tab(s.tab.prev()), PickerActionModel::Nothing)
    } else if key.types_ctrl('f') {
        (s, PickerActionModel::ToggleShowAll)
    } else if key.types_ctrl('y') {
        match s.chosen() {
            Some(e) => (s, PickerActionModel::OpenAndResume(e)),
            None => (s.flashing("Select an entry first"@, now_ms), PickerActionModel::Nothing),
        }
    } else if key.types_ctrl('t') {
        new_session(s, now_ms)
    } else if key.code == KeyCode::Enter {
        if s.selected == Some(0usize) {
            new_session(s, now_ms)
        } else {
            match s.chosen() {
                Some(e) => (s, PickerActionModel::Select(e)),
                None => (s, PickerActionModel::Quit),
            }
        }
    } else if key.types('g') {
        (s.at_line(0), PickerActionModel::Nothing)
    } else if key.types('G') {
        (s.at_line(s.filtered.len() as int), PickerActionModel::Nothing)
    } else if key.types_ctrl('u') {
        (s.half_up(), PickerActionModel::Nothing)
    } else if key.types_ctrl('d') {
        (s.half_down(), PickerActionModel::Nothing)
    } else if key.code == KeyCode::Esc || key.types('q') {
        (s, PickerActionModel::Quit)
    } else {
        (s, PickerActionModel::Nothing)
    }
}

impl PickerState {
    fn new_session_action(&mut self, now_ms: u64) -> (r: PickerAction)
        ensures
            (final(self)@, r@) == new_session(old(self)@, now_ms),
    {
        match self.tab {
            Tab::All => {
                self.set_flash("Select a provider tab first", now_ms);
                PickerAction::Nothing
            },
            Tab::Cursor => PickerAction::NewSession(ProviderKind::Cursor),
            Tab::Claude => PickerAction::NewSession(ProviderKind::Claude),
        }
    }

    /// Does what a key asks for in the list, and gives what it asks for beyond it.
    pub fn handle_key(&mut self, key: Key, now_ms: u64) -> (r: PickerAction)
        requires
            old(self)@.offset <= usize::MAX - 10_922,
        ensures
            (final(self)@, r@) == picker_key(old(self)@, key, now_ms),
    {
        if !key.press {
            return PickerAction::Nothing;
        }
        match key.code {
            KeyCode::Down => {
                self.move_down();
                PickerAction::Nothing
            },
            KeyCode::Up => {
                self.move_up();
                PickerAction::Nothing
            },
            KeyCode::Right => {
                self.next_tab();
                PickerAction::Nothing
            },
            KeyCode::Tab => {
                self.next_tab();
                PickerAction::Nothing
            },
            KeyCode::Left => {
                self.prev_tab();
                PickerAction::Nothing
            },
            KeyCode::Enter => {
                if self.is_new_chat_selected() {
                    self.new_session_action(now_ms)
                } else {
                    match self.selected_entry() {
                        Some(entry) => PickerAction::Select(entry.clone()),
                        None => PickerAction::Quit,
                    }
                }
            },
            KeyCode::Esc => PickerAction::Quit,
            KeyCode::Other => PickerAction::Nothing,
            KeyCode::Char(c) => self.handle_char(c, key.ctrl, now_ms),
        }
    }

    fn handle_char(&mut self, c: char, ctrl: bool, now_ms: u64) -> (r: PickerAction)
        requires
            old(self)@.offset <= usize::MAX - 10_922,
        ensures
            (final(self)@, r@) == picker_key(
                old(self)@,
                (Key { code: KeyCode::Char(c), ctrl, press: true }),
                now_ms,
            ),
    {
        if c == 'j' || (ctrl && c == 'n') {
            self.move_down();
            PickerAction::Nothing
        } else if c == 'k' || (ctrl && c == 'p') {
            self.move_up();
            PickerAction::Nothing
        } else if c == 'l' {
            self.next_tab();
            PickerAction::Nothing
        } else if c == 'h' {
            self.prev_tab();
            PickerAction::Nothing
        } else if ctrl && c == 'f' {
            PickerAction::ToggleShowAll
        } else if ctrl && c == 'y' {
            let chosen = match self.selected_entry() {
                Some(entry) => Some(entry.clone()),
                None => None,
            };
            match chosen {
                Some(entry) => PickerAction::OpenAndResume(entry),
                None => {
                    self.set_flash("Select an entry first", now_ms);
                    PickerAction::Nothing
                },
            }
        } else if ctrl && c == 't' {
            self.new_session_action(now_ms)
        } else if c == 'g' {
            self.move_to_top();
            PickerAction::Nothing
        } else if c == 'G' {
            self.move_to_bottom();
            PickerAction::Nothing
        } else if ctrl && c == 'u' {
            self.move_half_page_up();
            PickerAction::Nothing
        } else if ctrl && c == 'd' {
            self.move_half_page_down();
            PickerAction::Nothing
        } else if c == 'q' {
            PickerAction::Quit
        } else {
            PickerAction::Nothing
        }
    }
}

} // verus!
