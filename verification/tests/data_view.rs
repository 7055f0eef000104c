use agt::data_view::handler::{handle_key_event_dv, DataViewAction};
use agt::data_view::key_shortcuts::build_key_shortcuts_nodes;
use agt::data_view::reader_logs::build_reader_log_nodes;
use agt::data_view::session_info::{
    build_session_info_nodes, cursor_jsonl_path, format_size, Place,
};
use agt::data_view::state::{build_tree, DataViewState, DisplayToggle};
use agt::data_view::ui::DataViewUi;
use agt::geometry::Rect;
use agt::key::{Key, KeyCode};
use agt::log_buffer::{LogEntry, LogLevel};
use agt::providers::{Moment, ProviderKind, ProviderNames, TranscriptEntry};
use agt::tree::{MessageState, MessageType, Timestamp};

fn names() -> ProviderNames {
    ProviderNames { claude: "alpha".to_string() }
}

#[test]
fn all_categories_present() {
    let nodes = build_key_shortcuts_nodes();
    let labels: Vec<_> = nodes
        .iter()
        .map(|n| n.text.as_deref().unwrap_or(""))
        .collect();
    assert!(labels.contains(&"In-chat"));
    assert!(labels.contains(&"Chat session"));
    assert!(labels.contains(&"Navigation"));
    assert!(labels.contains(&"Drill-down"));
    assert!(labels.contains(&"Table mode"));
    assert!(labels.contains(&"Info & Debug"));
}

#[test]
fn category_nodes_have_correct_structure() {
    let nodes = build_key_shortcuts_nodes();
    for node in &nodes {
        assert_eq!(node.message_type, MessageType::Other);
        assert_eq!(node.tag.as_deref(), Some("category"));
        assert!(node.expanded);
        assert!(!node.children.is_empty());
        for child in &node.children {
            assert_eq!(child.message_type, MessageType::Other);
            assert_eq!(child.tag.as_deref(), Some("shortcut"));
            let text = child.text.as_deref().unwrap_or("");
            assert!(text.len() > 16, "binding text too short: {text:?}");
        }
    }
}

#[test]
fn table_mode_has_resize_and_reset() {
    let nodes = build_key_shortcuts_nodes();
    let table = nodes
        .iter()
        .find(|n| n.text.as_deref() == Some("Table mode"))
        .expect("Table mode category missing");
    let texts: Vec<_> = table
        .children
        .iter()
        .map(|c| c.text.as_deref().unwrap_or(""))
        .collect();
    assert!(texts.iter().any(|t| t.contains("+ / -")));
    assert!(texts.iter().any(|t| t.contains('0') && t.contains("Reset")));
}

fn make_entry(provider: ProviderKind, workspace: Option<&str>) -> TranscriptEntry {
    TranscriptEntry {
        path: "/some/path/store.db".to_string(),
        id: "test-id-123".to_string(),
        title: "Test session".to_string(),
        mtime: Moment { secs: 1_700_000_000, nanos: 0 },
        updated_at: None,
        size: Some(102_400),
        last_user_message: Some("hello".to_string()),
        message_count: 42,
        workspace_path: workspace.map(str::to_string),
        provider,
    }
}

#[test]
fn session_info_nodes_label_value_structure() {
    let entry = make_entry(ProviderKind::Claude, Some("/home/user/proj"));
    let nodes = build_session_info_nodes(&entry, &names(), place());
    assert!(!nodes.is_empty());
    for node in &nodes {
        assert_eq!(node.message_type, MessageType::Other);
        assert_eq!(node.tag.as_deref(), Some("label"));
        assert_eq!(node.data, "label");
        assert_eq!(node.children.len(), 1);
        let child = &node.children[0];
        assert_eq!(child.message_type, MessageType::Other);
        assert_eq!(child.tag.as_deref(), Some("value"));
        assert_eq!(child.data, "value");
    }
}

#[test]
fn session_info_nodes_required_fields_present() {
    let entry = make_entry(ProviderKind::Claude, Some("/home/user/proj"));
    let nodes = build_session_info_nodes(&entry, &names(), place());
    let labels: Vec<_> = nodes
        .iter()
        .map(|n| n.text.as_deref().unwrap_or(""))
        .collect();
    assert!(labels.contains(&"Agent"));
    assert!(labels.contains(&"Session ID"));
    assert!(labels.contains(&"Title"));
    assert!(labels.contains(&"Workspace path"));
    assert!(labels.contains(&"Session path"));
    assert!(labels.contains(&"Last modified"));
    assert!(labels.contains(&"Message count"));
    assert!(labels.contains(&"Last user message"));
}

#[test]
fn session_info_nodes_last_user_message_omitted_when_none() {
    let mut entry = make_entry(ProviderKind::Claude, None);
    entry.last_user_message = None;
    let nodes = build_session_info_nodes(&entry, &names(), place());
    let labels: Vec<_> = nodes
        .iter()
        .map(|n| n.text.as_deref().unwrap_or(""))
        .collect();
    assert!(!labels.contains(&"Last user message"));
}

#[test]
fn cursor_jsonl_path_with_workspace() {
    let entry = make_entry(ProviderKind::Cursor, Some("/home/agent/workspaces/nexus"));
    let path = cursor_jsonl_path(&entry, Some("/home/agent")).expect("should derive path");
    let s = path;
    assert!(s.contains("home-agent-workspaces-nexus"), "got: {s}");
    assert!(
        s.contains("agent-transcripts/test-id-123/test-id-123.jsonl"),
        "got: {s}"
    );
}

#[test]
fn cursor_jsonl_path_none_without_workspace() {
    let entry = make_entry(ProviderKind::Cursor, None);
    assert!(cursor_jsonl_path(&entry, Some("/home/agent")).is_none());
}

#[test]
fn cursor_jsonl_path_none_for_claude() {
    let entry = make_entry(ProviderKind::Claude, Some("/home/agent/workspaces/proj"));
    assert!(cursor_jsonl_path(&entry, Some("/home/agent")).is_none());
}

#[test]
fn session_info_nodes_cursor_has_readable_path() {
    let entry = make_entry(ProviderKind::Cursor, Some("/home/agent/workspaces/nexus"));
    let nodes = build_session_info_nodes(&entry, &names(), place());
    let labels: Vec<_> = nodes
        .iter()
        .map(|n| n.text.as_deref().unwrap_or(""))
        .collect();
    assert!(labels.contains(&"Readable transcript path"));
}

#[test]
fn session_info_nodes_claude_no_readable_path() {
    let entry = make_entry(ProviderKind::Claude, Some("/home/agent/workspaces/proj"));
    let nodes = build_session_info_nodes(&entry, &names(), place());
    let labels: Vec<_> = nodes
        .iter()
        .map(|n| n.text.as_deref().unwrap_or(""))
        .collect();
    assert!(!labels.contains(&"Readable transcript path"));
}

#[test]
fn build_tree_nested_object() {
    let json = r#"{"name":"alice","age":30,"tags":["a","b"]}"#;
    let items = build_tree(json);
    assert_eq!(items.len(), 1);
    let root = &items[0];
    assert_eq!(root.id, "root");
    assert_eq!(root.message_type, MessageType::Json);
    assert_eq!(root.data, "object");
    assert!(root.expanded);
    assert!(!root.show_more);
    assert!(root.text.as_deref().unwrap().contains("alice"));
    // three children: name, age, tags
    assert_eq!(root.children.len(), 3);
    // children use key as path
    let tags = root.children.iter().find(|c| c.id == "tags");
    assert!(tags.is_some());
    let tags = tags.unwrap();
    assert_eq!(tags.message_type, MessageType::Json);
    assert_eq!(tags.data, "array");
    assert_eq!(tags.children.len(), 2);
    // nested array children use indexed path
    assert_eq!(tags.children[0].id, "tags.0");
    assert_eq!(tags.children[1].id, "tags.1");
}

#[test]
fn build_tree_invalid_json() {
    let items = build_tree("not json");
    assert_eq!(items.len(), 1);
    let node = &items[0];
    assert_eq!(node.id, "root");
    assert_eq!(node.message_type, MessageType::Json);
    assert_eq!(node.data, "raw");
    assert_eq!(node.text.as_deref(), Some("not json"));
}

#[test]
fn build_tree_string_node_has_brief() {
    let json = r#"{"msg":"hello\nworld"}"#;
    let items = build_tree(json);
    let root = &items[0];
    let child = &root.children[0];
    assert_eq!(child.id, "msg");
    assert_eq!(child.message_type, MessageType::Json);
    assert_eq!(child.data, "string");
    // text: key line + newline + raw unescaped value
    assert_eq!(child.text.as_deref(), Some("msg:\nhello\nworld"));
    // brief is JSON-quoted (escaped)
    assert!(child.brief.as_deref().unwrap().contains("\\n"));
    assert!(!child.show_more);
}

#[test]
fn nested_object_path() {
    let json = r#"{"a":{"b":{"c":1}}}"#;
    let items = build_tree(json);
    let root = &items[0];
    assert_eq!(root.id, "root");
    let a = &root.children[0];
    assert_eq!(a.id, "a");
    let b = &a.children[0];
    assert_eq!(b.id, "a.b");
    let c = &b.children[0];
    assert_eq!(c.id, "a.b.c");
}

fn place() -> Place<'static> {
    Place { home: Some("/home/agent"), mtime_offset: 0, updated_offset: 0 }
}

fn value_of<'a>(nodes: &'a [MessageState], label: &str) -> &'a str {
    let node = nodes.iter().find(|n| n.text.as_deref() == Some(label)).unwrap();
    node.children[0].text.as_deref().unwrap()
}

#[test]
fn session_info_values() {
    let mut entry = make_entry(ProviderKind::Cursor, Some("/home/agent/workspaces/nexus"));
    entry.updated_at = Some(Moment { secs: 1_700_000_060, nanos: 0 });
    let nodes = build_session_info_nodes(
        &entry,
        &names(),
        Place { home: Some("/home/agent"), mtime_offset: 0, updated_offset: 3600 },
    );
    assert_eq!(value_of(&nodes, "Agent"), "Cursor Agent");
    assert_eq!(value_of(&nodes, "Session ID"), "test-id-123");
    assert_eq!(value_of(&nodes, "Title"), "Test session");
    assert_eq!(value_of(&nodes, "Workspace path"), "/home/agent/workspaces/nexus");
    assert_eq!(value_of(&nodes, "Session path"), "/some/path/store.db");
    assert_eq!(
        value_of(&nodes, "Readable transcript path"),
        "/home/agent/.cursor/projects/home-agent-workspaces-nexus/agent-transcripts/test-id-123/test-id-123.jsonl"
    );
    assert_eq!(value_of(&nodes, "Message count"), "42");
    assert_eq!(value_of(&nodes, "Last user message"), "hello");
}

#[test]
fn sizes_are_shown_as_a_double_shows_them() {
    let shown = |n: u64| -> String {
        if n < 1024 {
            format!("{n} B")
        } else if n < 1024 * 1024 {
            format!("{:.1} KB", n as f64 / 1024.0)
        } else {
            format!("{:.1} MB", n as f64 / (1024.0 * 1024.0))
        }
    };
    let mut n: u64 = 1;
    loop {
        for d in 0..40u64 {
            assert_eq!(format_size(n.wrapping_add(d * 51)), shown(n.wrapping_add(d * 51)));
        }
        if n > u64::MAX / 3 {
            break;
        }
        n = n * 3 - 1;
        if n < 4 {
            n += 3;
        }
    }
    assert_eq!(format_size(0), "0 B");
    assert_eq!(format_size(102_400), "100.0 KB");
    assert_eq!(format_size(1024 + 128), "1.1 KB");
    assert_eq!(format_size(1_048_576 * 3 / 2), "1.5 MB");
    assert_eq!(format_size(u64::MAX), shown(u64::MAX));
}

#[test]
fn leaves_show_their_values() {
    let items = build_tree(r#"{"n":-2,"b":true,"z":null,"e":[]}"#);
    let children = &items[0].children;
    let find = |id: &str| children.iter().find(|c| c.id == id).unwrap();
    assert_eq!(find("n").data, "number");
    assert_eq!(find("n").text.as_deref(), Some("n: -2"));
    assert_eq!(find("b").data, "bool");
    assert_eq!(find("b").text.as_deref(), Some("b: true"));
    assert_eq!(find("z").data, "null");
    assert_eq!(find("z").text.as_deref(), Some("z: null"));
    assert_eq!(find("e").data, "array");
    assert!(find("e").children.is_empty());
}

#[test]
fn containers_open_and_close_and_texts_show_more() {
    let state = DataViewState::new(r#"{"a":[1],"s":"x"}"#);
    let at = |path: Vec<usize>| state.toggle_display(&path);
    assert_eq!(at(vec![0]), DisplayToggle::Expand);
    let a = state.items[0].children.iter().position(|c| c.id == "a").unwrap();
    let s = state.items[0].children.iter().position(|c| c.id == "s").unwrap();
    assert_eq!(at(vec![0, a]), DisplayToggle::Expand);
    assert_eq!(at(vec![0, s]), DisplayToggle::ShowMore);
}

#[test]
fn log_lines_are_listed() {
    let entries = vec![
        LogEntry {
            level: LogLevel::Warn,
            message: "careful".to_string(),
            timestamp: Timestamp { utc_seconds: 3_723, offset_seconds: 3_600 },
        },
    ];
    let nodes = build_reader_log_nodes(&entries);
    assert_eq!(nodes.len(), 1);
    assert_eq!(nodes[0].id, "reader_logs.0");
    assert_eq!(nodes[0].text.as_deref(), Some("02:02:03 [WARN]  careful"));
    let none = build_reader_log_nodes(&vec![]);
    assert_eq!(none.len(), 1);
    assert_eq!(none[0].text.as_deref(), Some("(no reader logs)"));
}

#[test]
fn keys_of_the_data_view() {
    let key = |code: KeyCode| Key { code, ctrl: false, press: true };
    assert_eq!(handle_key_event_dv(key(KeyCode::Esc)), DataViewAction::Close);
    assert_eq!(handle_key_event_dv(key(KeyCode::Char('q'))), DataViewAction::Close);
    assert_eq!(handle_key_event_dv(key(KeyCode::Char(' '))), DataViewAction::ToggleDisplay);
    assert_eq!(handle_key_event_dv(key(KeyCode::Down)), DataViewAction::Tree);
    assert_eq!(
        handle_key_event_dv(Key { code: KeyCode::Esc, ctrl: false, press: false }),
        DataViewAction::Nothing
    );
}

#[test]
fn the_popup_stands_in_the_middle() {
    let ui = DataViewUi { area: Rect { x: 0, y: 0, width: 100, height: 50 } };
    let p = ui.popup();
    assert!(p.x + p.width <= 100 && p.y + p.height <= 50);
    assert_eq!(p.x, (100 - p.width) / 2);
    assert_eq!(p.y, (50 - p.height) / 2);
}

#[test]
fn the_shortcuts_view_names_the_key_that_opens_it() {
    let nodes = build_key_shortcuts_nodes();
    let info = nodes.iter().find(|n| n.text.as_deref() == Some("Info & Debug")).unwrap();
    let line = format!("{:<16}{}", "?", "Open this key shortcuts view");
    assert!(info.children.iter().any(|c| c.text.as_deref() == Some(line.as_str())));
}
