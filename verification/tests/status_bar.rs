use agt::app::mode::{AppMode, ConfirmKind};
use agt::status_bar::{
    confirm_text, hints, line_display_width, split_width, BarContent, CollapsedCrop, StatusBar,
    TreeStatus,
};

fn tree() -> TreeStatus {
    TreeStatus {
        top_index: vec![0],
        top_offset: 3,
        selection_index: vec![1, 2],
        at_bottom: false,
        selection_first: true,
        node_type: "ToolCall".to_string(),
        node_id: "tool_call:x".to_string(),
        terminal_selected: false,
        pending_prefix: None,
        no_match: false,
    }
}

fn bar() -> StatusBar {
    StatusBar {
        flash: None,
        mode: AppMode::Normal,
        terminal_live: false,
        terminal_expanded: false,
        data_view_open: false,
        debug: false,
        tree: tree(),
        session_label: Some("label".to_string()),
        collapsed_crop: None,
        pending_app_key: None,
        prompt_pinned: false,
    }
}

#[test]
fn a_message_comes_first() {
    let mut b = bar();
    b.mode = AppMode::Confirm(ConfirmKind::Kill);
    b.flash = Some(("hey".to_string(), true));
    assert_eq!(b.content(), BarContent::Message { text: "hey".to_string(), warning: true });
    b.flash = None;
    assert_eq!(b.content(), BarContent::Question(" Kill session? (Y/n)".to_string()));
}

#[test]
fn what_is_looked_for_is_shown() {
    let mut b = bar();
    b.mode = AppMode::SearchInput { query: "abc".to_string(), backward: false };
    assert_eq!(
        b.content(),
        BarContent::Search { text: " /abc\u{258c}".to_string(), no_match: false }
    );
    b.mode = AppMode::SearchInput { query: "abc".to_string(), backward: true };
    b.tree.no_match = true;
    assert_eq!(
        b.content(),
        BarContent::Search { text: " ?abc\u{258c}".to_string(), no_match: true }
    );
}

#[test]
fn keys_are_told() {
    let mut b = bar();
    assert_eq!(b.hint_pairs().0, vec![("Ctrl-Y", "Resume chat"), ("I", "Session info")]);
    b.terminal_live = true;
    b.tree.terminal_selected = true;
    assert!(b.hint_pairs().0.contains(&("Space", "Expand chat")));
    b.terminal_expanded = true;
    assert!(b.hint_pairs().0.contains(&("Space", "Collapse chat")));
    b.mode = AppMode::Terminal;
    assert_eq!(b.hint_pairs(), (vec![("Ctrl-O", "Normal")], None));
    b.data_view_open = true;
    assert_eq!(b.hint_pairs(), (vec![("Esc", "Back")], None));
}

#[test]
fn hints_are_written_out() {
    let spans = hints(&vec![("a", "b"), ("c", "d")], false);
    let text: String = spans.iter().map(|s| s.text.as_str()).collect();
    assert_eq!(text, " [a] b  [c] d");
    assert_eq!(line_display_width(&spans), 13);
    let right: String =
        hints(&vec![("a", "b")], true).iter().map(|s| s.text.clone()).collect();
    assert_eq!(right, "[a] b ");
    assert_eq!(split_width(80, 13), (67, 13));
    assert_eq!(split_width(10, 13), (0, 10));
}

#[test]
fn the_state_is_shown_on_demand() {
    let mut b = bar();
    b.debug = true;
    b.collapsed_crop = Some(CollapsedCrop { start_row: 2, height: 5 });
    match b.content() {
        BarContent::Debug { state, session } => {
            assert!(state.contains("ToolCall"), "{state}");
            assert!(state.contains("tool_call:x"), "{state}");
            assert_eq!(session.as_deref(), Some("label"));
        }
        other => panic!("expected Debug, got {other:?}"),
    }
}

#[test]
fn questions() {
    assert_eq!(confirm_text(&ConfirmKind::ReaderRestart), " Restart reader? (Y/n)");
    assert_eq!(
        confirm_text(&ConfirmKind::DebugLog),
        " Start writing logs to /tmp/agent-transcript.log? (Y/n)"
    );
}
