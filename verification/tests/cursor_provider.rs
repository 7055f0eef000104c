use agt::cursor::hex::{bytes_to_hex, hex_decode, hex_nibble, hex_to_bytes32};
use agt::cursor::provider::{
    find_last_user_message, is_database_file, latest_root_blob_id, scan_priority, session_meta,
    shown_title, workspace_path, CursorProvider,
};
use agt::cursor::reader::{list_earlier_roots, list_message_ids, BlobStore, CursorReader};
use agt::providers::{Moment, ProviderKind};
use agt::tree::{ReaderOp, TreeOperation};

fn hex_of(text: &str) -> String {
    text.bytes().map(|b| format!("{b:02x}")).collect()
}

fn field(number: u8, payload: &[u8]) -> Vec<u8> {
    let mut out = vec![(number << 3) | 2, payload.len() as u8];
    out.extend_from_slice(payload);
    out
}

fn id_of(n: u8) -> String {
    bytes_to_hex(&[n; 32])
}

/// A snapshot that refers to messages.
fn snapshot(messages: &[u8]) -> Vec<u8> {
    let mut out = Vec::new();
    for m in messages {
        out.extend(field(1, &[*m; 32]));
    }
    out.extend(field(9, b"file:///home/user/project"));
    // The time of the last change, in milliseconds.
    out.extend([0xd0, 0x01, 0x80, 0xd0, 0x95, 0xff, 0xbc, 0x31]);
    out
}

fn store(blobs: &[(u8, &str)]) -> BlobStore {
    let mut s = BlobStore::new();
    for (n, text) in blobs {
        s.insert(id_of(*n), text.as_bytes().to_vec());
    }
    s
}

const HELLO: &str = r#"{"role":"user","content":"<user_query>hello</user_query>"}"#;
const ANSWER: &str = r#"{"role":"assistant","content":[{"type":"text","text":"hi there"}]}"#;
const AGAIN: &str = r#"{"role":"user","content":[{"type":"text","text":"again"},{"type":"text","text":"please"}]}"#;

#[test]
fn session_meta_detects_subagent() {
    let meta = session_meta(&hex_of(
        r#"{"name":"New Agent","createdAt":1,"subagentInfo":{"parentAgentId":"p","rootParentAgentId":"p","toolCallId":"t","typeName":"generalPurpose"}}"#,
    ))
    .unwrap();
    assert!(meta.is_subagent);
    assert_eq!(meta.name, "New Agent");
}

#[test]
fn session_meta_without_subagent_info_is_not_subagent() {
    let meta = session_meta(&hex_of(r#"{"name":"Parent","createdAt":1}"#)).unwrap();
    assert!(!meta.is_subagent);
    assert_eq!(meta.created_at_ms, 1);
}

#[test]
fn a_session_that_cannot_be_read_is_an_error() {
    assert_eq!(
        session_meta("abc"),
        Err("hex-decoding meta value: odd hex length: 3".to_string())
    );
    assert_eq!(
        session_meta("zz"),
        Err("hex-decoding meta value: invalid digit found in string".to_string())
    );
    assert!(session_meta(&hex_of("no json")).is_err());
    assert!(latest_root_blob_id(&hex_of("no json")).is_err());
}

#[test]
fn the_last_snapshot_is_named() {
    assert_eq!(
        latest_root_blob_id(&hex_of(r#"{"latestRootBlobId":"ab12"}"#)),
        Ok("ab12".to_string())
    );
    assert_eq!(latest_root_blob_id(&hex_of("{}")), Ok(String::new()));
}

#[test]
fn digits_and_bytes() {
    assert_eq!(hex_nibble(b'f'), Some(15));
    assert_eq!(hex_nibble(b'g'), None);
    let bytes: [u8; 32] = [0xa5; 32];
    assert_eq!(bytes_to_hex(&bytes), "a5".repeat(32));
    assert_eq!(hex_to_bytes32(&"a5".repeat(32)), Some(bytes));
    assert_eq!(hex_to_bytes32("a5"), None);
    assert_eq!(hex_decode("00ff7F"), Ok(vec![0, 255, 127]));
}

#[test]
fn paths_of_databases() {
    // The digest of the workspace's path names its directory.
    let dir = "/home/u/.cursor/chats/b14a7b8059d9c055954c92674ce60032";
    assert_eq!(
        CursorProvider::compute_session_db("/home/u", "s1", "_"),
        format!("{dir}/s1/store.db")
    );
    assert_eq!(
        CursorProvider::compute_transcript_path("/home/u", "s1", Some("_")),
        Some(format!("{dir}/s1/store.db"))
    );
    assert_eq!(CursorProvider::compute_transcript_path("/home/u", "s1", None), None);
    assert_eq!(CursorProvider::scan_pattern("/home/u", Some("_")), format!("{dir}/*/store.db"));
    assert_eq!(
        CursorProvider::scan_pattern("/home/u", None),
        "/home/u/.cursor/chats/*/*/store.db"
    );
    assert_eq!(
        CursorProvider::session_pattern("/home/u", "s1"),
        "/home/u/.cursor/chats/*/s1/store.db"
    );
}

#[test]
fn a_session_that_is_written_comes_first() {
    let t = Moment { secs: 500, nanos: 1 };
    assert_eq!(scan_priority(Some(1), t), 0);
    assert_eq!(scan_priority(Some(0), t), -500);
    assert_eq!(scan_priority(None, t), -500);
    assert!(is_database_file("store.db"));
    assert!(is_database_file("store.db-wal"));
    assert!(!is_database_file("store.db-shm"));
}

#[test]
fn the_workspace_stands_in_the_snapshot() {
    assert_eq!(workspace_path(&snapshot(&[])).as_deref(), Some("/home/user/project"));
    assert_eq!(workspace_path(&field(9, b"http://x")), None);
    assert_eq!(workspace_path(&[]), None);
}

#[test]
fn the_last_words_of_the_user() {
    let s = store(&[(1, HELLO), (2, AGAIN), (3, ANSWER)]);
    let ids = vec![id_of(1), id_of(2), id_of(3)];
    assert_eq!(find_last_user_message(&ids, &s).as_deref(), Some("again please"));
    assert_eq!(find_last_user_message(&vec![id_of(3)], &s), None);
}

#[test]
fn an_entry_of_the_list() {
    let root = "root";
    let hex = hex_of(r#"{"name":"","createdAt":1,"latestRootBlobId":"root"}"#);
    let mut s = store(&[(1, HELLO), (3, ANSWER)]);
    s.insert(root.to_string(), snapshot(&[1, 3]));
    let t = Moment { secs: 9, nanos: 0 };
    let e = CursorProvider::read_entry("/h/.cursor/chats/x/s1/store.db", &hex, &s, t, Some(4)).unwrap();
    assert_eq!(e.id, "s1");
    let id = |path: &str| CursorProvider::read_entry(path, &hex, &s, t, None).unwrap().id;
    assert_eq!(id("s//d"), "s");
    assert_eq!(id("/h/s2/./store.db/"), "s2");
    assert_eq!(id("/h/../store.db"), "unknown");
    assert_eq!(id("store.db"), "unknown");
    assert_eq!(e.title, "(unnamed)");
    assert_eq!(e.message_count, 2);
    assert_eq!(e.workspace_path.as_deref(), Some("/home/user/project"));
    assert_eq!(e.updated_at, Some(Moment { secs: 1_700_000_000, nanos: 0 }));
    assert_eq!(e.size, Some(4));
    assert_eq!(e.provider, ProviderKind::Cursor);
    let gone = hex_of(r#"{"name":"x","latestRootBlobId":"elsewhere"}"#);
    assert!(CursorProvider::read_entry("/h/s1/store.db", &gone, &s, t, None).is_none());
    assert_eq!(shown_title("x"), "x");
}

#[test]
fn new_messages_are_added() {
    let s = store(&[(1, HELLO), (2, AGAIN), (3, ANSWER)]);
    let first = snapshot(&[1, 3]);
    let mut reader = CursorReader::new("r1".to_string());
    let ops = reader.collect_ops(Some(&first), &s);
    assert!(!ops.is_empty());
    assert_eq!(reader.last_field1_hashes, list_message_ids(&first));

    // The same snapshot changes nothing.
    assert!(reader.handle_db_change("r1", Some(&first), &s).is_none());

    let second = snapshot(&[1, 3, 2]);
    let ops = reader.handle_db_change("r2", Some(&second), &s).unwrap();
    assert!(!ops.is_empty());
    assert!(ops.iter().all(|op| matches!(op, ReaderOp::Tree(TreeOperation::Append { .. }))));
    assert_eq!(reader.last_root_id, "r2");
}

#[test]
fn a_snapshot_without_earlier_messages_starts_anew() {
    let s = store(&[(1, HELLO), (2, AGAIN), (3, ANSWER)]);
    let mut reader = CursorReader::new("r1".to_string());
    reader.collect_ops(Some(&snapshot(&[1, 3])), &s);
    let ops = reader.handle_db_change("r2", Some(&snapshot(&[1, 2])), &s).unwrap();
    assert_eq!(ops.first(), Some(&ReaderOp::Reset { id: None }));
    assert_eq!(ops.last(), Some(&ReaderOp::ResetDone));
    assert!(reader.handle_db_change("r3", None, &s).is_none());
}

#[test]
fn snapshots_refer_to_earlier_ones() {
    let mut root = snapshot(&[1]);
    root.extend(field(13, &[7; 32]));
    assert_eq!(list_message_ids(&root), vec![id_of(1)]);
    assert_eq!(list_earlier_roots(&root), vec![id_of(7)]);
}
