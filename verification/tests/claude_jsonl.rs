use agt::claude::jsonl::JsonlReader;
use agt::claude::reader::{Entry, ReadError};

fn make_entry(uuid: &str, parent_uuid: Option<&str>) -> String {
    match parent_uuid {
        Some(p) => format!(r#"{{"uuid":"{uuid}","parentUuid":"{p}"}}"#),
        None => format!(r#"{{"uuid":"{uuid}","parentUuid":null}}"#),
    }
}

fn write_jsonl(lines: &[String]) -> Vec<u8> {
    let mut out = Vec::new();
    for line in lines {
        out.extend_from_slice(line.as_bytes());
        out.push(b'\n');
    }
    out
}

/// The next entry of a file, read from where the reader stands.
fn next(r: &mut JsonlReader, file: &[u8]) -> Option<Entry> {
    let from = r.byte_offset;
    r.try_recv(&file[from..]).unwrap()
}

fn uuid(e: &Entry) -> &str {
    e.value.get_str("uuid").unwrap()
}

/// In-order entries are passed through unchanged.
#[test]
fn test_in_order_passthrough() {
    let file = write_jsonl(&[
        make_entry("root", None),
        make_entry("child", Some("root")),
        make_entry("grandchild", Some("child")),
    ]);
    let mut r = JsonlReader::new();

    assert_eq!(uuid(&next(&mut r, &file).unwrap()), "root");
    assert_eq!(uuid(&next(&mut r, &file).unwrap()), "child");
    assert_eq!(uuid(&next(&mut r, &file).unwrap()), "grandchild");
    assert!(next(&mut r, &file).is_none());
}

/// A child that appears before its parent is buffered and emitted after
/// the parent.
#[test]
fn test_child_before_parent_reordered() {
    let file = write_jsonl(&[
        make_entry("root", None),
        make_entry("child", Some("parent")), // parent not yet seen
        make_entry("parent", Some("root")),
    ]);
    let mut r = JsonlReader::new();

    assert_eq!(uuid(&next(&mut r, &file).unwrap()), "root");
    // "child" is buffered, so "parent" comes next
    assert_eq!(uuid(&next(&mut r, &file).unwrap()), "parent");
    // now "child" is released
    assert_eq!(uuid(&next(&mut r, &file).unwrap()), "child");
    assert!(next(&mut r, &file).is_none());
}

/// An attachment written before the tool_result it is a child of.
#[test]
fn test_attachment_before_tool_result() {
    let file = write_jsonl(&[
        make_entry("root", None),
        make_entry("asst-a", Some("root")),
        make_entry("attachment", Some("tool-result")), // child before parent
        make_entry("tool-result", Some("asst-a")),
        make_entry("continuation", Some("attachment")),
    ]);
    let mut r = JsonlReader::new();

    let uuids: Vec<String> = std::iter::from_fn(|| next(&mut r, &file))
        .map(|e| uuid(&e).to_string())
        .collect();

    // "attachment" must come after "tool-result"
    let pos_attachment = uuids.iter().position(|u| u == "attachment").unwrap();
    let pos_tool_result = uuids.iter().position(|u| u == "tool-result").unwrap();
    assert!(
        pos_tool_result < pos_attachment,
        "tool-result must precede attachment; got order: {uuids:?}"
    );
    // "continuation" must come after "attachment"
    let pos_continuation = uuids.iter().position(|u| u == "continuation").unwrap();
    assert!(pos_attachment < pos_continuation);
}

/// Byte offsets returned are the start-of-line positions in the file.
#[test]
fn test_byte_offsets() {
    let line0 = make_entry("root", None);
    let line1 = make_entry("child", Some("root"));
    let file = write_jsonl(&[line0.clone(), line1.clone()]);
    let mut r = JsonlReader::new();

    let off0 = next(&mut r, &file).unwrap().offset;
    let off1 = next(&mut r, &file).unwrap().offset;

    assert_eq!(off0, 0);
    assert_eq!(off1, line0.len() + 1); // +1 for the '\n'
}

/// Multiple children waiting for the same parent are released in arrival
/// order once the parent appears.
#[test]
fn test_multiple_children_released_in_order() {
    let file = write_jsonl(&[
        make_entry("root", None),
        make_entry("child1", Some("parent")),
        make_entry("child2", Some("parent")),
        make_entry("parent", Some("root")),
    ]);
    let mut r = JsonlReader::new();

    assert_eq!(uuid(&next(&mut r, &file).unwrap()), "root");
    assert_eq!(uuid(&next(&mut r, &file).unwrap()), "parent");
    assert_eq!(uuid(&next(&mut r, &file).unwrap()), "child1");
    assert_eq!(uuid(&next(&mut r, &file).unwrap()), "child2");
    assert!(next(&mut r, &file).is_none());
}

/// An incomplete last line (no trailing newline) causes the reader to stay
/// where it is, so the line can be re-read once more data is appended.
#[test]
fn test_incomplete_line_rewinds() {
    // A complete line followed by an incomplete one (no newline).
    let mut file = write_jsonl(&[make_entry("root", None)]);
    file.extend_from_slice(make_entry("child", Some("root")).as_bytes());

    let mut r = JsonlReader::new();
    assert_eq!(uuid(&next(&mut r, &file).unwrap()), "root");

    let saved_offset = r.byte_offset;
    assert!(next(&mut r, &file).is_none());
    assert_eq!(
        r.byte_offset, saved_offset,
        "byte_offset must not advance on incomplete line"
    );

    // Now complete the line by appending a newline.
    file.push(b'\n');

    // Re-read: the child line is now complete.
    assert_eq!(uuid(&next(&mut r, &file).unwrap()), "child");
    assert!(next(&mut r, &file).is_none());
}

#[test]
fn a_line_that_is_no_text_is_an_error() {
    let mut r = JsonlReader::new();
    assert_eq!(r.try_recv(&[0xff, 0xfe, b'\n']).unwrap_err(), ReadError::NotText);
    assert_eq!(ReadError::NotText.message(), "stream did not contain valid UTF-8");
}

#[test]
fn entries_that_wait_for_one_parent_keep_their_order() {
    let file = write_jsonl(&[
        make_entry("c1", Some("p")),
        make_entry("orphan", Some("nobody")),
        make_entry("c2", Some("p")),
        make_entry("p", None),
        make_entry("c3", Some("p")),
    ]);
    let mut r = JsonlReader::new();
    let mut seen = Vec::new();
    while let Some(e) = next(&mut r, &file) {
        seen.push(uuid(&e).to_string());
    }
    assert_eq!(seen, ["p", "c1", "c2", "c3"]);
    assert!(next(&mut r, &file).is_none());
}
