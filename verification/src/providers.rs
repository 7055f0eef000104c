//! The providers of transcripts.
use crate::clock::in_calendar;
use crate::text::{capitalize, capitalized, concat2, same_text};
use crate::tree::text_opt;
use vstd::prelude::*;

verus! {

broadcast use vstd::string::group_string_axioms;

/// A command line tool whose transcripts can be read.
#[derive(Clone, Copy, Debug, PartialEq, Eq, Structural)]
pub enum ProviderKind {
    Claude,
    Cursor,
}

/// What finds out which part of a tool's screen to leave out.
#[derive(Clone, Copy, Debug, PartialEq, Eq, Structural)]
pub enum CropDetector {
    Claude,
    Cursor,
}

/// The word that names the first provider in arguments. All that its tool is called comes from it;
/// the program hands it in. What the second provider's tool is called is fixed.
#[derive(Debug, PartialEq)]
pub struct ProviderNames {
    pub claude: String,
}

impl ProviderNames {
    /// The word that names a provider in arguments.
    pub open spec fn word_of(self, kind: ProviderKind) -> Seq<char> {
        match kind {
            ProviderKind::Claude => self.claude@,
            ProviderKind::Cursor => "cursor"@,
        }
    }

    /// The command that starts a provider's tool.
    pub open spec fn command_of(self, kind: ProviderKind) -> Seq<char> {
        match kind {
            ProviderKind::Claude => self.claude@,
            ProviderKind::Cursor => "agent"@,
        }
    }

    /// The name of a provider's tool to show.
    pub open spec fn display_of(self, kind: ProviderKind) -> Seq<char> {
        match kind {
            ProviderKind::Claude => capitalized(self.claude@) + " Code"@,
            ProviderKind::Cursor => "Cursor Agent"@,
        }
    }

    /// The provider that a word names.
    pub open spec fn kind_of(self, word: Seq<char>) -> Option<ProviderKind> {
        if word == self.claude@ {
            Some(ProviderKind::Claude)
        } else if word == "cursor"@ {
            Some(ProviderKind::Cursor)
        } else {
            None
        }
    }
}

impl ProviderKind {
    /// The provider's word.
    pub fn name<'a>(&self, names: &'a ProviderNames) -> (r: &'a str)
        ensures
            r@ == names.word_of(*self),
    {
        match self {
            ProviderKind::Claude => names.claude.as_str(),
            ProviderKind::Cursor => "cursor",
        }
    }

    /// The provider that a word names.
    pub fn parse(s: &str, names: &ProviderNames) -> (r: Option<ProviderKind>)
        ensures
            r == names.kind_of(s@),
    {
        if same_text(s, names.claude.as_str()) {
            Some(ProviderKind::Claude)
        } else if same_text(s, "cursor") {
            Some(ProviderKind::Cursor)
        } else {
            None
        }
    }

    /// The command that starts the tool.
    pub fn cli_command<'a>(&self, names: &'a ProviderNames) -> (r: &'a str)
        ensures
            r@ == names.command_of(*self),
    {
        match self {
            ProviderKind::Claude => names.claude.as_str(),
            ProviderKind::Cursor => "agent",
        }
    }

    /// The name to show.
    pub fn display_name(&self, names: &ProviderNames) -> (r: String)
        ensures
            r@ == names.display_of(*self),
    {
        match self {
            ProviderKind::Claude => concat2(capitalize(names.claude.as_str()).as_str(), " Code"),
            ProviderKind::Cursor => "Cursor Agent".to_owned(),
        }
    }

    /// The directory under the home directory that holds the tool's files.
    pub fn data_dir(&self, names: &ProviderNames) -> (r: String)
        ensures
            r@ == "."@ + names.word_of(*self),
    {
        concat2(".", self.name(names))
    }

    /// What finds out which part of the tool's screen to leave out.
    pub fn crop_detector(&self) -> (r: CropDetector)
        ensures
            r == (match *self {
                ProviderKind::Claude => CropDetector::Claude,
                ProviderKind::Cursor => CropDetector::Cursor,
            }),
    {
        match self {
            ProviderKind::Claude => CropDetector::Claude,
            ProviderKind::Cursor => CropDetector::Cursor,
        }
    }
}

/// A provider's word, read back, names that provider, where the two words differ.
pub proof fn law_word_names_provider(kind: ProviderKind, names: ProviderNames)
    requires
        names.claude@ != "cursor"@,
    ensures
        names.kind_of(names.word_of(kind)) == Some(kind),
{
}

/// A time: the seconds from the epoch, and the nanoseconds from there.
#[derive(Clone, Copy, Debug, PartialEq, Eq, Structural)]
pub struct Moment {
    pub secs: i64,
    pub nanos: u32,
}

impl Moment {
    /// Whether the nanoseconds are less than a second, and the calendar reaches the time.
    pub open spec fn valid(self) -> bool {
        &&& self.nanos < 1_000_000_000
        &&& in_calendar(self.secs as int)
    }

    /// The milliseconds from the epoch.
    pub open spec fn millis(self) -> int {
        self.secs * 1000 + self.nanos as int / 1_000_000
    }
}

/// The time at a number of milliseconds from the epoch, where the calendar reaches it.
pub open spec fn moment_at(millis: i64) -> Option<Moment> {
    let secs = millis as int / 1000;
    if in_calendar(secs) {
        Some(Moment { secs: secs as i64, nanos: ((millis as int % 1000) * 1_000_000) as u32 })
    } else {
        None
    }
}

/// Wraps `chrono::DateTime::from_timestamp_millis`: the time that many milliseconds from the epoch,
/// in whole seconds, rounded down, and nanoseconds; `None` outside the years of the calendar.
#[verifier::external_body]
pub(crate) fn moment_from_millis(millis: i64) -> (r: Option<Moment>)
    ensures
        r == moment_at(millis),
{
    chrono::DateTime::from_timestamp_millis(millis).map(
        |t| Moment { secs: t.timestamp(), nanos: t.timestamp_subsec_nanos() },
    )
}

/// How a known entry is held against its file: by the time of its last change, or by its size.
///
/// A file that is only appended to changes when its time does. A database is touched without a
/// change now and then, so its size tells more.
#[derive(Clone, Copy, Debug, PartialEq, Eq, Structural)]
pub enum TranscriptCacheKey {
    Mtime(Moment),
    Size(u64),
}

/// How to read a transcript.
#[derive(Clone, Copy, Debug, PartialEq, Eq, Structural)]
pub struct LoadConfig {
    /// How many entries to read at first; 0 stands for all.
    pub initial_loaded: usize,
    /// Whether to show one entry at a time.
    pub waterfall: bool,
    /// Whether to end after the first reading.
    pub snapshot: bool,
}

/// A session as the picker lists it.
#[derive(Debug, PartialEq)]
pub struct TranscriptEntry {
    pub path: String,
    pub id: String,
    pub title: String,
    pub mtime: Moment,
    pub updated_at: Option<Moment>,
    pub size: Option<u64>,
    pub last_user_message: Option<String>,
    pub message_count: usize,
    pub workspace_path: Option<String>,
    pub provider: ProviderKind,
}

/// What a `TranscriptEntry` holds.
#[verifier::ext_equal]
pub struct EntryModel {
    pub path: Seq<char>,
    pub id: Seq<char>,
    pub title: Seq<char>,
    pub mtime: Moment,
    pub updated_at: Option<Moment>,
    pub size: Option<u64>,
    pub last_user_message: Option<Seq<char>>,
    pub message_count: usize,
    pub workspace_path: Option<Seq<char>>,
    pub provider: ProviderKind,
}

impl View for TranscriptEntry {
    type V = EntryModel;

    open spec fn view(&self) -> EntryModel {
        EntryModel {
            path: self.path@,
            id: self.id@,
            title: self.title@,
            mtime: self.mtime,
            updated_at: self.updated_at,
            size: self.size,
            last_user_message: text_opt(self.last_user_message),
            message_count: self.message_count,
            workspace_path: text_opt(self.workspace_path),
            provider: self.provider,
        }
    }
}

fn copy_text(s: &Option<String>) -> (r: Option<String>)
    ensures
        text_opt(r) == text_opt(*s),
{
    match s {
        Some(t) => Some(t.clone()),
        None => None,
    }
}

impl Clone for TranscriptEntry {
    fn clone(&self) -> (r: Self)
        ensures
            r@ == self@,
    {
        TranscriptEntry {
            path: self.path.clone(),
            id: self.id.clone(),
            title: self.title.clone(),
            mtime: self.mtime,
            updated_at: self.updated_at,
            size: self.size,
            last_user_message: copy_text(&self.last_user_message),
            message_count: self.message_count,
            workspace_path: copy_text(&self.workspace_path),
            provider: self.provider,
        }
    }
}

/// The place of a session in the order of reading: the lower, the earlier. Newer files come first,
/// and a file from before the epoch is taken for one of its beginning.
pub open spec fn recency(mtime: Moment) -> int {
    if mtime.secs < 0 {
        0
    } else {
        -(mtime.secs as int)
    }
}

/// The place of a session in the order of reading.
pub fn recency_priority(mtime: Moment) -> (r: i64)
    ensures
        r == recency(mtime),
{
    if mtime.secs < 0 {
        0
    } else {
        -mtime.secs
    }
}

} // verus!
