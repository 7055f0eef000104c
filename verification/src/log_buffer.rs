//! The last log entries, for showing.
use crate::text::{concat3, join, joined, same_text, starts, starts_with, views};
use crate::tree::Timestamp;
use std::collections::VecDeque;
use vstd::prelude::*;
use vstd::string::*;

verus! {

broadcast use vstd::string::group_string_axioms;

/// How grave an entry is.
#[derive(Clone, Copy, Debug, PartialEq, Eq, Structural)]
pub enum LogLevel {
    Error,
    Warn,
    Info,
    Debug,
    Trace,
}

/// A log entry.
#[derive(Debug, PartialEq)]
pub struct LogEntry {
    pub level: LogLevel,
    pub message: String,
    pub timestamp: Timestamp,
}

/// What a `LogEntry` holds.
#[verifier::ext_equal]
pub struct LogModel {
    pub level: LogLevel,
    pub message: Seq<char>,
    pub timestamp: Timestamp,
}

impl View for LogEntry {
    type V = LogModel;

    open spec fn view(&self) -> LogModel {
        LogModel { level: self.level, message: self.message@, timestamp: self.timestamp }
    }
}

/// What entries hold.
pub open spec fn log_views(entries: Seq<LogEntry>) -> Seq<LogModel> {
    entries.map_values(|e: LogEntry| e@)
}

/// The last entries, up to a number.
pub struct LogBuffer {
    entries: VecDeque<LogEntry>,
    capacity: usize,
}

/// What a `LogBuffer` holds.
#[verifier::ext_equal]
pub struct BufferModel {
    pub entries: Seq<LogModel>,
    pub capacity: int,
}

impl View for LogBuffer {
    type V = BufferModel;

    closed spec fn view(&self) -> BufferModel {
        BufferModel { entries: log_views(self.entries@), capacity: self.capacity as int }
    }
}

/// The entries with one more, the oldest left out where there is no room.
pub open spec fn with_entry(s: BufferModel, e: LogModel) -> BufferModel {
    BufferModel {
        entries: if s.entries.len() >= s.capacity && s.entries.len() > 0 {
            s.entries.skip(1).push(e)
        } else {
            s.entries.push(e)
        },
        ..s
    }
}

impl LogBuffer {
    /// No entries, with room for `capacity`.
    pub fn new(capacity: usize) -> (r: Self)
        ensures
            r@ == (BufferModel { entries: Seq::empty(), capacity: capacity as int }),
    {
        let r = LogBuffer { entries: VecDeque::new(), capacity };
        assert(r@.entries =~= Seq::empty());
        r
    }

    /// Adds an entry; the oldest one goes where there is no room.
    pub fn push(&mut self, entry: LogEntry)
        ensures
            final(self)@ == with_entry(old(self)@, entry@),
    {
        let ghost before = self.entries@;
        if self.entries.len() >= self.capacity {
            let gone = self.entries.pop_front();
            assert(log_views(self.entries@) =~= if before.len() > 0 {
                log_views(before).skip(1)
            } else {
                log_views(before)
            });
        }
        let ghost kept = self.entries@;
        self.entries.push_back(entry);
        assert(log_views(self.entries@) =~= log_views(kept).push(entry@));
    }

    /// Drops all entries.
    pub fn clear(&mut self)
        ensures
            final(self)@ == (BufferModel { entries: Seq::empty(), ..old(self)@ }),
    {
        self.entries = VecDeque::new();
        assert(self@.entries =~= Seq::empty());
    }

    /// The entries, from the oldest on.
    pub fn snapshot(&self) -> (r: Vec<LogEntry>)
        ensures
            log_views(r@) == self@.entries,
    {
        let mut out: Vec<LogEntry> = Vec::new();
        let mut i: usize = 0;
        while i < self.entries.len()
            invariant
                i <= self.entries@.len(),
                out@.len() == i,
                forall|k: int| 0 <= k < i ==> (#[trigger] out@[k])@ == self.entries@[k]@,
            decreases self.entries@.len() - i,
        {
            let e = &self.entries[i];
            out.push(
                LogEntry { level: e.level, message: e.message.clone(), timestamp: e.timestamp },
            );
            i = i + 1;
        }
        assert(log_views(out@) =~= self@.entries);
        out
    }

    /// The number of entries.
    pub fn len(&self) -> (r: usize)
        ensures
            r == self@.entries.len(),
    {
        self.entries.len()
    }

    /// Whether there are no entries.
    pub fn is_empty(&self) -> (r: bool)
        ensures
            r == (self@.entries.len() == 0),
    {
        self.entries.len() == 0
    }
}

/// A buffer after several entries.
pub open spec fn with_entries(s: BufferModel, es: Seq<LogModel>) -> BufferModel
    decreases es.len(),
{
    if es.len() == 0 {
        s
    } else {
        with_entry(with_entries(s, es.drop_last()), es.last())
    }
}

/// The last of a sequence, up to a number.
pub open spec fn last_of(es: Seq<LogModel>, n: int) -> Seq<LogModel> {
    if es.len() <= n {
        es
    } else {
        es.skip(es.len() - n)
    }
}

/// A buffer with room for at least one entry holds the last ones that were added, in their order,
/// as many as there is room for.
pub proof fn law_keeps_last(capacity: int, es: Seq<LogModel>)
    requires
        capacity > 0,
    ensures
        with_entries(BufferModel { entries: Seq::empty(), capacity }, es) == (BufferModel {
            entries: last_of(es, capacity),
            capacity,
        }),
    decreases es.len(),
{
    if es.len() > 0 {
        law_keeps_last(capacity, es.drop_last());
        let before = last_of(es.drop_last(), capacity);
        assert(with_entry(BufferModel { entries: before, capacity }, es.last()).entries
            =~= last_of(es, capacity));
    } else {
        assert(last_of(es, capacity) =~= Seq::empty());
    }
}

/// Whether an event of a module is kept: those of the providers are that are not for debugging.
pub open spec fn kept(target: Seq<char>, level: LogLevel) -> bool {
    starts(target, "agt::providers"@) && (level == LogLevel::Error || level == LogLevel::Warn
        || level == LogLevel::Info)
}

/// Whether an event is kept.
pub fn captures(target: &str, level: LogLevel) -> (r: bool)
    ensures
        r == kept(target@, level),
{
    if !starts_with(target, "agt::providers") {
        return false;
    }
    match level {
        LogLevel::Error => true,
        LogLevel::Warn => true,
        LogLevel::Info => true,
        LogLevel::Debug => false,
        LogLevel::Trace => false,
    }
}

/// Whether an event is written to the log: while one is written, all are but the finest, and those
/// of the Markdown renderer.
pub open spec fn written(enabled: bool, target: Seq<char>, level: LogLevel) -> bool {
    enabled && level != LogLevel::Trace && !starts(target, "tui_markdown"@)
}

/// Whether an event is written to the log.
pub fn writes(enabled: bool, target: &str, level: LogLevel) -> (r: bool)
    ensures
        r == written(enabled, target@, level),
{
    let trace = match level {
        LogLevel::Trace => true,
        _ => false,
    };
    enabled && !trace && !starts_with(target, "tui_markdown")
}

/// The parts of an event, as they come.
#[derive(Debug, PartialEq)]
pub struct MessageVisitor {
    pub message: String,
    pub fields: Vec<String>,
}

/// The text of an event: its message, and its fields behind it.
pub open spec fn event_text(message: Seq<char>, fields: Seq<Seq<char>>) -> Seq<char> {
    if fields.len() == 0 {
        message
    } else {
        message + " "@ + joined(fields, " "@)
    }
}

impl MessageVisitor {
    /// No part.
    pub fn new() -> (r: Self)
        ensures
            r.message@ == Seq::<char>::empty(),
            r.fields@ == Seq::<String>::empty(),
    {
        MessageVisitor { message: String::new(), fields: Vec::new() }
    }

    /// The text of the event.
    pub fn format(&self) -> (r: String)
        ensures
            r@ == event_text(self.message@, views(self.fields@)),
    {
        if self.fields.len() == 0 {
            self.message.clone()
        } else {
            concat3(self.message.as_str(), " ", join(&self.fields, " ").as_str())
        }
    }

    /// Takes a field in that is a text: the one named `message` is the message.
    pub fn record_text(&mut self, name: &str, value: &str)
        ensures
            name@ == "message"@ ==> final(self).message@ == value@ && final(self).fields@ == old(
                self,
            ).fields@,
            name@ != "message"@ ==> final(self).message@ == old(self).message@ && views(
                final(self).fields@,
            ) == views(old(self).fields@).push(name@ + "="@ + value@),
    {
        if same_text(name, "message") {
            self.message = value.to_owned();
        } else {
            self.record_value(name, value);
        }
    }

    /// Takes a field in that is a number or a truth value, written as `value`.
    pub fn record_value(&mut self, name: &str, value: &str)
        ensures
            final(self).message@ == old(self).message@,
            views(final(self).fields@) == views(old(self).fields@).push(name@ + "="@ + value@),
    {
        let ghost before = self.fields@;
        self.fields.push(concat3(name, "=", value));
        assert(views(self.fields@) =~= views(before).push(name@ + "="@ + value@));
    }
}

} // verus!
