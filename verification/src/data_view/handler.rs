//! Keys in the view.
use crate::key::{Key, KeyCode};
use vstd::prelude::*;

verus! {

/// What a key asks for.
#[derive(Clone, Copy, Debug, PartialEq, Eq, Structural)]
pub enum DataViewAction {
    /// Close the view.
    Close,
    /// Show more or less of the selected node.
    ToggleDisplay,
    /// Hand the key to the tree.
    Tree,
    /// Nothing.
    Nothing,
}

/// What a key asks for. Only a press does anything.
pub open spec fn view_action(key: Key) -> DataViewAction {
    if !key.press {
        DataViewAction::Nothing
    } else if key.code == KeyCode::Esc || key.types('q') {
        DataViewAction::Close
    } else if key.types(' ') {
        DataViewAction::ToggleDisplay
    } else {
        DataViewAction::Tree
    }
}

/// What a key asks for.
pub fn handle_key_event_dv(key: Key) -> (r: DataViewAction)
    ensures
        r == view_action(key),
{
    if !key.press {
        return DataViewAction::Nothing;
    }
    let escape = match key.code {
        KeyCode::Esc => true,
        _ => false,
    };
    if escape || key.is_char('q') {
        return DataViewAction::Close;
    }
    if key.is_char(' ') {
        return DataViewAction::ToggleDisplay;
    }
    DataViewAction::Tree
}

} // verus!
