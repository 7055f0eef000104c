use agt::clock::{show_clock, show_full, show_short};
use agt::event::Lookahead;
use agt::geometry::{centered, rect_contains, Rect};
use agt::json::{parse_json, parse_json_bytes, Json};
use agt::number::{parse_u32, parse_u8};
use agt::order::order_of;
use agt::providers::{
    recency_priority, CropDetector, Moment, ProviderKind, ProviderNames,
};
use agt::text::{
    capitalize, decimal_text, join, lines, name_in_path, pad, path_below, replace_char,
    signed_decimal_text, split_char, strip_prefix, strip_suffix, trim, trim_end, trim_start,
};
use agt::tree::{HiddenState, MessageState, MessageType};
use agt::watch::{after_read, moves_watch, plan_watch, NextRead, Watch};

fn names() -> ProviderNames {
    ProviderNames { claude: "alpha".to_string() }
}

#[test]
fn json_is_read_and_written() {
    let v = parse_json(r#"{"b":[1,-2,2.5,null,true],"a":"x\ny"}"#).unwrap();
    assert_eq!(v.get_str("a"), Some("x\ny"));
    let items = v.get("b").unwrap().as_array().unwrap();
    assert_eq!(items[0], Json::Unsigned(1));
    assert_eq!(items[1], Json::Negative(-2));
    assert_eq!(items[3], Json::Null);
    assert_eq!(items[4], Json::Bool(true));
    assert_eq!(v.to_compact(), r#"{"a":"x\ny","b":[1,-2,2.5,null,true]}"#);
    assert_eq!(
        parse_json(r#"{"k":[1]}"#).unwrap().to_pretty(),
        "{\n  \"k\": [\n    1\n  ]\n}"
    );
    assert_eq!(parse_json("{"), None);
    assert_eq!(parse_json_bytes(b"[]"), Some(Json::Array(vec![])));
    assert_eq!(parse_json_bytes(b"\xff"), None);
}

#[test]
fn a_member_is_set_in_its_place() {
    let v = parse_json(r#"{"a":1,"c":3}"#).unwrap();
    let v = v.with("b", Json::Bool(false)).with("a", Json::Null);
    assert_eq!(v.to_compact(), r#"{"a":null,"b":false,"c":3}"#);
}

#[test]
fn times_are_shown() {
    assert_eq!(show_clock(3_723, 0), "01:02:03");
    assert_eq!(show_clock(0, -3_600), "23:00:00");
    assert!(show_full(1_700_000_000, 0).starts_with("2023-11-14 22:13:20"));
    // The first and the last second of the calendar.
    assert_eq!(show_full(-8_334_601_228_800, 0), "-262143-01-01 00:00:00");
    assert_eq!(show_full(8_210_266_876_799, 0), "+262142-12-31 23:59:59");
    assert_eq!(show_full(8_210_266_876_799, 3_600), "+262143-01-01 00:59:59");
    assert!(show_short(1_700_000_000, 3_600).contains("23:13"));
}

#[test]
fn an_event_that_was_put_back_comes_first() {
    let mut l: Lookahead<u8> = Lookahead::new();
    assert_eq!(l.take(), None);
    l.unget(4);
    assert_eq!(l.take(), Some(4));
    assert_eq!(l.take(), None);
    l.unget(1);
    l.unget(2);
    assert_eq!(l.take(), Some(2));
    assert_eq!(l.take(), Some(1));
    assert_eq!(l.take(), None);
}

#[test]
fn rectangles() {
    let area = Rect { x: 10, y: 20, width: 100, height: 40 };
    assert!(rect_contains(area, 10, 20));
    assert!(!rect_contains(area, 110, 20));
    assert!(!rect_contains(area, 10, 60));
    assert_eq!(centered(area, 50, 50), Rect { x: 35, y: 30, width: 50, height: 20 });
}

#[test]
fn numbers_are_read() {
    assert_eq!(parse_u8("255"), Some(255));
    assert_eq!(parse_u8("256"), None);
    assert_eq!(parse_u8("+7"), Some(7));
    assert_eq!(parse_u8("-7"), None);
    assert_eq!(parse_u32("4294967295"), Some(u32::MAX));
    assert_eq!(parse_u32("4294967296"), None);
    assert_eq!(parse_u32(""), None);
    for n in [0u64, 9, 10, 4_294_967_295] {
        assert_eq!(parse_u32(&decimal_text(n)), Some(n as u32));
    }
    assert_eq!(decimal_text(u64::MAX), u64::MAX.to_string());
    assert_eq!(signed_decimal_text(i64::MIN), i64::MIN.to_string());
}

#[test]
fn an_order_keeps_what_came_first_among_equals() {
    let at = |secs: i64| Moment { secs, nanos: 0 };
    let keys = vec![at(3), at(1), at(3), at(2)];
    assert_eq!(order_of(&keys, false), vec![1, 3, 0, 2]);
    assert_eq!(order_of(&keys, true), vec![0, 2, 3, 1]);
    assert_eq!(recency_priority(at(5)), -5);
}

#[test]
fn texts() {
    assert_eq!(trim("  a b\u{a0}\n"), "a b");
    assert_eq!(trim_start(" a "), "a ");
    assert_eq!(trim_end(" a "), " a");
    assert_eq!(lines("a\r\nb\n\nc"), vec!["a", "b", "", "c"]);
    assert_eq!(split_char("a/b/", '/'), vec!["a", "b", ""]);
    assert_eq!(join(&vec!["a".to_string(), "b".to_string()], ", "), "a, b");
    assert_eq!(strip_prefix("abc", "ab").as_deref(), Some("c"));
    assert_eq!(strip_prefix("abc", "b"), None);
    assert_eq!(strip_suffix("abc", "bc").as_deref(), Some("a"));
    assert_eq!(capitalize("\u{e9}t\u{e9}"), "\u{c9}t\u{e9}");
    assert_eq!(capitalize(""), "");
    assert_eq!(pad("ab", 4), "ab  ");
    assert_eq!(pad("abcdef", 4), "abcdef");
    assert_eq!(replace_char("a/b/c", '/', '-'), "a-b-c");
    assert_eq!(name_in_path("/a/b.c").as_deref(), Some("b.c"));
    assert_eq!(name_in_path("/"), None);
    assert_eq!(path_below("/a", "b"), "/a/b");
}

#[test]
fn providers_have_names() {
    let n = names();
    assert_eq!(ProviderKind::parse("alpha", &n), Some(ProviderKind::Claude));
    assert_eq!(ProviderKind::parse("cursor", &n), Some(ProviderKind::Cursor));
    assert_eq!(ProviderKind::parse("Cursor", &n), None);
    assert_eq!(ProviderKind::Claude.name(&n), "alpha");
    assert_eq!(ProviderKind::Claude.cli_command(&n), "alpha");
    assert_eq!(ProviderKind::Claude.display_name(&n), "Alpha Code");
    assert_eq!(ProviderKind::Claude.data_dir(&n), ".alpha");
    assert_eq!(ProviderKind::Cursor.data_dir(&n), ".cursor");
    assert_eq!(ProviderKind::Cursor.name(&n), "cursor");
    assert_eq!(ProviderKind::Cursor.cli_command(&n), "agent");
    assert_eq!(ProviderKind::Cursor.display_name(&n), "Cursor Agent");
    assert_eq!(ProviderKind::Cursor.crop_detector(), CropDetector::Cursor);
}

#[test]
fn a_node_is_built_step_by_step() {
    let m = MessageState::new("id".to_string())
        .tag("t")
        .brief("b")
        .text("x")
        .message_type(MessageType::Table)
        .show_more(true)
        .indent_children(false);
    assert_eq!(m.id, "id");
    assert_eq!(m.tag.as_deref(), Some("t"));
    assert_eq!(m.brief.as_deref(), Some("b"));
    assert_eq!(m.text.as_deref(), Some("x"));
    assert_eq!(m.message_type.variant_name(), "Table");
    assert!(m.show_more);
    assert!(!m.indent_children);
    assert!(!HiddenState::NotHidden.is_hidden());
}

#[test]
fn what_to_watch() {
    assert_eq!(plan_watch(&vec![true, true], 1), Some(Watch { up: 0, recursive: false }));
    assert_eq!(plan_watch(&vec![false, true], 1), Some(Watch { up: 1, recursive: false }));
    assert_eq!(plan_watch(&vec![false, false, true], 1), Some(Watch { up: 2, recursive: true }));
    assert_eq!(plan_watch(&vec![false, true], 0), Some(Watch { up: 1, recursive: true }));
    assert_eq!(plan_watch(&vec![false], 1), None);
    assert!(moves_watch("/p", "/p/s1", "/p/s1/subagents/agent-a.jsonl"));
    assert!(!moves_watch("/p", "/p/s1", "/p/s11/x"));
    assert!(!moves_watch("/p/s1", "/p/s1", "/p/s1/x"));
    assert!(!moves_watch("a/b/", "a/b", "a/b/c"));
    assert!(moves_watch("/p", "/p/s1", "/p/./s1"));
}

#[test]
fn what_a_reader_does_next() {
    assert_eq!(after_read(false, true, true), NextRead::Wait);
    assert_eq!(after_read(true, true, true), NextRead::Again);
    assert_eq!(after_read(true, true, false), NextRead::Stop);
    assert_eq!(after_read(true, false, true), NextRead::Stop);
}
