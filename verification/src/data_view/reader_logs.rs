//! The log entries as nodes.
use crate::clock::{can_show, clock_format, show_clock, time_text};
use crate::log_buffer::{log_views, LogEntry, LogLevel, LogModel};
use crate::text::{concat2, decimal, decimal_text};
use crate::tree::{blank, message_views, MessageModel, MessageState, MessageType};
use vstd::prelude::*;
use vstd::string::*;

verus! {

broadcast use vstd::string::group_string_axioms;

/// How a level is shown.
pub open spec fn level_mark(level: LogLevel) -> Seq<char> {
    match level {
        LogLevel::Error => "[ERROR]"@,
        LogLevel::Warn => "[WARN] "@,
        LogLevel::Info => "[INFO] "@,
        LogLevel::Debug => "[DEBUG]"@,
        LogLevel::Trace => "[TRACE]"@,
    }
}

/// How a level is shown.
pub fn level_prefix(level: LogLevel) -> (r: &'static str)
    ensures
        r@ == level_mark(level),
{
    match level {
        LogLevel::Error => "[ERROR]",
        LogLevel::Warn => "[WARN] ",
        LogLevel::Info => "[INFO] ",
        LogLevel::Debug => "[DEBUG]",
        LogLevel::Trace => "[TRACE]",
    }
}

/// A line of the view.
pub open spec fn log_node(id: Seq<char>, text: Seq<char>) -> MessageModel {
    MessageModel {
        text: Some(text),
        message_type: MessageType::Other,
        tag: Some("log_entry"@),
        ..blank(id)
    }
}

fn make_node(id: String, text: &str) -> (r: MessageState)
    ensures
        r@ == log_node(id@, text@),
{
    MessageState::new(id).text(text).message_type(MessageType::Other).tag("log_entry")
}

/// Whether an entry's time can be shown.
pub open spec fn shows(e: LogModel) -> bool {
    can_show(e.timestamp.utc_seconds, e.timestamp.offset_seconds)
}

/// The node of an entry: its time, its level and its message.
pub open spec fn entry_node(i: int, e: LogModel) -> MessageModel {
    log_node(
        "reader_logs."@ + decimal(i as nat),
        time_text(e.timestamp.utc_seconds, e.timestamp.offset_seconds, clock_format()) + " "@
            + level_mark(e.level) + " "@ + e.message,
    )
}

/// The nodes of the entries, or one that says that there are none.
pub open spec fn log_nodes(entries: Seq<LogModel>) -> Seq<MessageModel> {
    if entries.len() == 0 {
        seq![log_node("reader_logs.empty"@, "(no reader logs)"@)]
    } else {
        Seq::new(entries.len(), |i: int| entry_node(i, entries[i]))
    }
}

/// The nodes of the entries.
pub fn build_reader_log_nodes(entries: &Vec<LogEntry>) -> (r: Vec<MessageState>)
    requires
        forall|i: int| 0 <= i < entries@.len() ==> shows((#[trigger] entries@[i])@),
    ensures
        message_views(r@) == log_nodes(log_views(entries@)),
{
    let mut out: Vec<MessageState> = Vec::new();
    if entries.len() == 0 {
        let node = make_node("reader_logs.empty".to_owned(), "(no reader logs)");
        out.push(node);
        assert(message_views(out@) =~= seq![node@]);
        return out;
    }
    let ghost all = log_nodes(log_views(entries@));
    let mut i: usize = 0;
    while i < entries.len()
        invariant
            i <= entries@.len(),
            entries@.len() > 0,
            all == log_nodes(log_views(entries@)),
            forall|k: int| 0 <= k < entries@.len() ==> shows((#[trigger] entries@[k])@),
            message_views(out@) == all.take(i as int),
        decreases entries@.len() - i,
    {
        let e = &entries[i];
        assert(shows(entries@[i as int]@));
        let mut text = show_clock(e.timestamp.utc_seconds, e.timestamp.offset_seconds);
        text.append(" ");
        text.append(level_prefix(e.level));
        text.append(" ");
        text.append(e.message.as_str());
        let node = make_node(
            concat2("reader_logs.", decimal_text(i as u64).as_str()),
            text.as_str(),
        );
        let ghost before = out@;
        out.push(node);
        proof {
            assert(all[i as int] == entry_node(i as int, e@));
            assert(message_views(out@) =~= message_views(before).push(node@));
            assert(all.take(i + 1) =~= all.take(i as int).push(node@));
        }
        i = i + 1;
    }
    assert(all.take(entries@.len() as int) =~= all);
    out
}

} // verus!
