use agt::log_buffer::{captures, writes, LogBuffer, LogEntry, LogLevel, MessageVisitor};
use agt::tree::Timestamp;

#[test]
fn push_and_snapshot() {
    let mut buf = LogBuffer::new(3);
    buf.push(LogEntry {
        level: LogLevel::Info,
        message: "a".into(),
        timestamp: now(),
    });
    buf.push(LogEntry {
        level: LogLevel::Warn,
        message: "b".into(),
        timestamp: now(),
    });
    let snap = buf.snapshot();
    assert_eq!(snap.len(), 2);
    assert_eq!(snap[0].message, "a");
    assert_eq!(snap[1].message, "b");
}

#[test]
fn capacity_drops_oldest() {
    let mut buf = LogBuffer::new(2);
    for msg in ["a", "b", "c"] {
        buf.push(LogEntry {
            level: LogLevel::Info,
            message: msg.into(),
            timestamp: now(),
        });
    }
    let snap = buf.snapshot();
    assert_eq!(snap.len(), 2);
    assert_eq!(snap[0].message, "b");
    assert_eq!(snap[1].message, "c");
}

#[test]
fn clear_empties_buffer() {
    let mut buf = LogBuffer::new(10);
    buf.push(LogEntry {
        level: LogLevel::Info,
        message: "x".into(),
        timestamp: now(),
    });
    buf.clear();
    assert!(buf.is_empty());
}

fn now() -> Timestamp {
    Timestamp { utc_seconds: 1_700_000_000, offset_seconds: 0 }
}

#[test]
fn a_buffer_without_room_keeps_the_last_line() {
    let mut buf = LogBuffer::new(0);
    assert_eq!(buf.len(), 0);
    buf.push(LogEntry { level: LogLevel::Error, message: "x".into(), timestamp: now() });
    buf.push(LogEntry { level: LogLevel::Error, message: "y".into(), timestamp: now() });
    assert_eq!(buf.len(), 1);
    assert_eq!(buf.snapshot()[0].message, "y");
}

#[test]
fn own_lines_are_captured() {
    assert!(captures("agt::providers::reader", LogLevel::Info));
    assert!(!captures("agt::providers::reader", LogLevel::Debug));
    assert!(!captures("tokio::runtime", LogLevel::Error));
    assert!(writes(true, "agt::app", LogLevel::Debug));
    assert!(!writes(true, "agt::app", LogLevel::Trace));
    assert!(!writes(true, "tui_markdown::x", LogLevel::Error));
    assert!(!writes(false, "agt::app", LogLevel::Error));
}

#[test]
fn a_line_is_made_of_its_message_and_fields() {
    let mut v = MessageVisitor::new();
    v.record_text("message", "read failed");
    v.record_text("path", "/x");
    v.record_value("count", "3");
    assert_eq!(v.format(), "read failed path=/x count=3");
}
