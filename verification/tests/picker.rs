use agt::geometry::Rect;
use agt::key::{Key, KeyCode};
use agt::picker::handler::PickerAction;
use agt::picker::state::{PickerState, Tab, FLASH_MS};
use agt::picker::ui::{
    caret, empty_text, entry_row, legend, tab_labels, truncate, Legend, PickerUi,
};
use agt::providers::{Moment, ProviderKind, ProviderNames, TranscriptEntry};

fn names() -> ProviderNames {
    ProviderNames { claude: "alpha".to_string() }
}

fn entry(id: &str, secs: i64, provider: ProviderKind, workspace: &str) -> TranscriptEntry {
    TranscriptEntry {
        path: format!("/t/{id}"),
        id: id.to_string(),
        title: format!("Title of {id}"),
        mtime: Moment { secs, nanos: 0 },
        updated_at: None,
        size: None,
        last_user_message: Some("last words".to_string()),
        message_count: 12,
        workspace_path: Some(workspace.to_string()),
        provider,
    }
}

/// The list of all sessions.
fn filled_all() -> PickerState {
    let mut s = PickerState::new(Some("/w".to_string()));
    s.toggle_show_all();
    fill(&mut s);
    s
}

/// The list of a directory's sessions.
fn filled() -> PickerState {
    let mut s = PickerState::new(Some("/w".to_string()));
    fill(&mut s);
    s
}

fn fill(s: &mut PickerState) {
    s.append_entries(vec![
        entry("a", 100, ProviderKind::Claude, "/w"),
        entry("b", 300, ProviderKind::Cursor, "/w"),
    ]);
    s.append_entries(vec![
        entry("c", 200, ProviderKind::Claude, "/w/sub"),
        entry("d", 400, ProviderKind::Claude, "/other"),
    ]);
    s.list_height = 10;
}

fn ids(s: &PickerState) -> Vec<&str> {
    s.filtered.iter().map(|e| e.id.as_str()).collect()
}

fn press(s: &mut PickerState, code: KeyCode) -> PickerAction {
    s.handle_key(Key { code, ctrl: false, press: true }, 5)
}

fn press_ctrl(s: &mut PickerState, c: char) -> PickerAction {
    s.handle_key(Key { code: KeyCode::Char(c), ctrl: true, press: true }, 5)
}

#[test]
fn the_newest_come_first() {
    let mut s = filled_all();
    assert_eq!(ids(&s), vec!["d", "b", "c", "a"]);
}

#[test]
fn a_session_is_listed_once() {
    let mut s = filled_all();
    s.append_entries(vec![entry("a", 500, ProviderKind::Claude, "/w")]);
    assert_eq!(ids(&s).iter().filter(|i| **i == "a").count(), 1);
}

#[test]
fn tabs_stand_in_a_ring() {
    let mut s = filled_all();
    assert_eq!(s.tab, Tab::All);
    s.next_tab();
    assert_eq!(s.tab, Tab::Cursor);
    assert_eq!(ids(&s), vec!["b"]);
    s.next_tab();
    assert_eq!(s.tab, Tab::Claude);
    assert_eq!(ids(&s), vec!["d", "c", "a"]);
    s.next_tab();
    assert_eq!(s.tab, Tab::All);
    s.prev_tab();
    assert_eq!(s.tab, Tab::Claude);
}

#[test]
fn the_selection_moves_and_stays_in_the_list() {
    let mut s = filled_all();
    s.move_to_top();
    assert!(s.is_new_chat_selected());
    s.move_up();
    assert_eq!(s.selected, Some(0));
    s.move_down();
    s.move_down();
    assert_eq!(s.selected_entry().unwrap().id, "b");
    s.move_up();
    assert_eq!(s.selected_entry().unwrap().id, "d");
    s.move_to_bottom();
    assert_eq!(s.selected_entry().unwrap().id, "a");
    s.move_down();
    assert_eq!(s.selected, Some(4));
    s.list_height = 18;
    s.move_half_page_up();
    assert_eq!(s.selected, Some(1));
    s.move_half_page_down();
    assert_eq!(s.selected, Some(4));
}

#[test]
fn the_selected_session_stays_selected() {
    let mut s = filled_all();
    s.move_to_top();
    s.move_down();
    s.move_down();
    assert_eq!(s.selected_entry().unwrap().id, "b");
    s.append_entries(vec![entry("e", 900, ProviderKind::Claude, "/w")]);
    assert_eq!(s.selected_entry().unwrap().id, "b");
}

#[test]
fn keys_of_the_list() {
    let mut s = filled();
    s.move_to_top();
    assert_eq!(press(&mut s, KeyCode::Down), PickerAction::Nothing);
    match press(&mut s, KeyCode::Enter) {
        PickerAction::Select(e) => assert_eq!(e.id, s.filtered[0].id),
        other => panic!("expected Select, got {other:?}"),
    }
    assert!(matches!(press_ctrl(&mut s, 'y'), PickerAction::OpenAndResume(_)));
    assert_eq!(press_ctrl(&mut s, 'f'), PickerAction::ToggleShowAll);
    assert_eq!(press(&mut s, KeyCode::Esc), PickerAction::Quit);
    press(&mut s, KeyCode::Char('g'));
    assert_eq!(press_ctrl(&mut s, 'y'), PickerAction::Nothing);
    assert_eq!(legend(&s), Legend::Message("Select an entry first".to_string()));
    s.set_tab(Tab::Cursor);
    assert_eq!(press_ctrl(&mut s, 't'), PickerAction::NewSession(ProviderKind::Cursor));
    assert_eq!(
        s.handle_key(Key { code: KeyCode::Esc, ctrl: false, press: false }, 5),
        PickerAction::Nothing
    );
}

#[test]
fn a_message_goes_after_a_while() {
    let mut s = filled();
    s.set_flash("hello", 1_000);
    s.tick_flash(1_000 + FLASH_MS - 1);
    assert!(s.flash_message.is_some());
    s.tick_flash(1_000 + FLASH_MS);
    assert!(s.flash_message.is_none());
}

#[test]
fn a_long_text_is_cut() {
    assert_eq!(truncate("abcdef", 4), "abc\u{2026}");
    assert_eq!(truncate("abcd", 4), "abcd");
    assert_eq!(truncate("abcd", 0), "");
}

#[test]
fn rows_of_the_list() {
    let e = entry("a", 1_700_000_000, ProviderKind::Claude, "/home/u/proj");
    let row = entry_row(&e, true, true, 40, 0);
    assert_eq!(row.caret, "> ");
    assert_eq!(row.directory, "proj  ");
    assert_eq!(row.counts, "\u{2261} 12");
    assert!(row.title.starts_with("Title of a"));
    assert_eq!(row.title.chars().count(), 40 - 2 - row.date.chars().count() - 1);
    assert!(row.message.starts_with("last words"));
    assert_eq!(caret(false), "  ");
    assert_eq!(entry_row(&e, false, false, 40, 0).directory, "");
}

#[test]
fn what_stands_around_the_list() {
    let labels = tab_labels(Tab::Cursor, &names());
    assert_eq!(labels.iter().map(|l| l.selected).collect::<Vec<_>>(), vec![false, true, false]);
    assert!(labels.iter().all(|l| l.text.starts_with(' ') && l.text.ends_with(' ')));
    assert_eq!(empty_text(true), "No transcripts found.");
    assert_eq!(empty_text(false), "No transcripts found in this workspace.");
    let ui = PickerUi { area: Rect { x: 1, y: 2, width: 20, height: 5 } };
    assert_eq!(ui.content(), Rect { x: 3, y: 2, width: 16, height: 5 });
    match legend(&filled()) {
        Legend::Hints(h) => assert!(h.contains(&("Ctrl-F", "all"))),
        other => panic!("expected Hints, got {other:?}"),
    }
}

#[test]
fn sessions_are_sorted_by_the_change_of_their_files() {
    let mut s = PickerState::new(None);
    s.toggle_show_all();
    let mut a = entry("a", 300, ProviderKind::Claude, "/w");
    a.updated_at = Some(Moment { secs: 100, nanos: 0 });
    s.append_entries(vec![a, entry("b", 200, ProviderKind::Claude, "/w")]);
    assert_eq!(ids(&s), ["a", "b"]);
}

#[test]
fn the_entry_given_last_is_listed() {
    let mut s = filled_all();
    let mut again = entry("a", 500, ProviderKind::Cursor, "/w");
    again.title = "Another".to_string();
    s.append_entries(vec![entry("a", 50, ProviderKind::Claude, "/w"), again]);
    assert_eq!(ids(&s), ["a", "d", "b", "c"]);
    assert_eq!(s.filtered[0].title, "Another");
}

#[test]
fn a_directory_is_the_same_however_it_is_written() {
    let mut s = PickerState::new(Some("/p".to_string()));
    s.append_entries(vec![
        entry("a", 3, ProviderKind::Claude, "/p/"),
        entry("b", 2, ProviderKind::Claude, "/p/./"),
        entry("c", 1, ProviderKind::Claude, "/p/q"),
    ]);
    assert_eq!(ids(&s), ["a", "b"]);
}
