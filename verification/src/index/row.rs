//! The rows of the index: what is stored of a session, and when it still holds.
use crate::paths::{plain_path, tidy_path};
use crate::providers::{
    moment_at, moment_from_millis, EntryModel, Moment, ProviderKind, ProviderNames,
    TranscriptCacheKey, TranscriptEntry,
};
use crate::text::{concat2, joined, same_text};
use crate::tree::text_opt;
use vstd::hash_map::StringHashMap;
use vstd::prelude::*;
use vstd::string::*;

verus! {

broadcast use vstd::string::group_string_axioms;

/// A session that a scan came upon.
#[derive(Debug, PartialEq)]
pub struct ScannedPath {
    pub path: String,
    pub key: TranscriptCacheKey,
    /// The place in the order of reading: the lower, the earlier. 0 asks for reading the session
    /// again, whatever is known of it.
    pub priority: i64,
    /// The provider's number.
    pub provider: usize,
}

/// What a `ScannedPath` holds.
#[verifier::ext_equal]
pub struct ScannedModel {
    pub path: Seq<char>,
    pub key: TranscriptCacheKey,
    pub priority: i64,
    pub provider: usize,
}

impl View for ScannedPath {
    type V = ScannedModel;

    open spec fn view(&self) -> ScannedModel {
        ScannedModel {
            path: self.path@,
            key: self.key,
            priority: self.priority,
            provider: self.provider,
        }
    }
}

/// What paths hold.
pub open spec fn scanned_views(paths: Seq<ScannedPath>) -> Seq<ScannedModel> {
    paths.map_values(|p: ScannedPath| p@)
}

impl Clone for ScannedPath {
    fn clone(&self) -> (r: Self)
        ensures
            r@ == self@,
    {
        ScannedPath {
            path: self.path.clone(),
            key: self.key,
            priority: self.priority,
            provider: self.provider,
        }
    }
}

/// A row of the index.
#[derive(Debug, PartialEq)]
pub struct StoredRow {
    pub path: String,
    pub provider: String,
    pub id: String,
    pub title: String,
    pub mtime_secs: i64,
    pub mtime_nanos: i64,
    pub last_user_message: Option<String>,
    pub message_count: i64,
    pub workspace_path: Option<String>,
    pub updated_at_ms: Option<i64>,
    pub size: Option<i64>,
}

/// What a `StoredRow` holds.
#[verifier::ext_equal]
pub struct RowModel {
    pub path: Seq<char>,
    pub provider: Seq<char>,
    pub id: Seq<char>,
    pub title: Seq<char>,
    pub mtime_secs: i64,
    pub mtime_nanos: i64,
    pub last_user_message: Option<Seq<char>>,
    pub message_count: i64,
    pub workspace_path: Option<Seq<char>>,
    pub updated_at_ms: Option<i64>,
    pub size: Option<i64>,
}

impl View for StoredRow {
    type V = RowModel;

    open spec fn view(&self) -> RowModel {
        RowModel {
            path: self.path@,
            provider: self.provider@,
            id: self.id@,
            title: self.title@,
            mtime_secs: self.mtime_secs,
            mtime_nanos: self.mtime_nanos,
            last_user_message: text_opt(self.last_user_message),
            message_count: self.message_count,
            workspace_path: text_opt(self.workspace_path),
            updated_at_ms: self.updated_at_ms,
            size: self.size,
        }
    }
}

/// What rows hold.
pub open spec fn row_views(rows: Seq<StoredRow>) -> Seq<RowModel> {
    rows.map_values(|r: StoredRow| r@)
}

/// The seconds and nanoseconds from the epoch; a time before it is taken for the epoch itself.
pub open spec fn time_parts(t: Moment) -> (u64, u32) {
    if t.secs < 0 {
        (0, 0)
    } else {
        (t.secs as u64, t.nanos)
    }
}

/// The seconds and nanoseconds from the epoch.
pub fn system_time_to_parts(t: Moment) -> (r: (u64, u32))
    ensures
        r == time_parts(t),
{
    if t.secs < 0 {
        (0, 0)
    } else {
        (t.secs as u64, t.nanos)
    }
}

// ---------------------------------------------------------------------------
// Looking up
// ---------------------------------------------------------------------------

/// The query for the rows of `count` paths.
pub open spec fn lookup_text(count: nat) -> Seq<char> {
    "SELECT path, provider, id, title, mtime_secs, mtime_nanos, last_user_message, message_count, workspace_path, updated_at_ms, size FROM transcripts WHERE path IN ("@
        + joined(Seq::new(count, |i: int| "?"@), ","@) + ")"@
}

/// The query for the rows of `count` paths.
pub fn lookup_query(count: usize) -> (r: String)
    ensures
        r@ == lookup_text(count as nat),
{
    let head =
        "SELECT path, provider, id, title, mtime_secs, mtime_nanos, last_user_message, message_count, workspace_path, updated_at_ms, size FROM transcripts WHERE path IN (";
    let mut marks = String::new();
    let mut i: usize = 0;
    assert(marks@ =~= joined(Seq::new(0nat, |i: int| "?"@), ","@));
    while i < count
        invariant
            i <= count,
            marks@ == joined(Seq::new(i as nat, |i: int| "?"@), ","@),
        decreases count - i,
    {
        proof {
            let now = Seq::new(i as nat, |i: int| "?"@);
            let next = Seq::new((i + 1) as nat, |i: int| "?"@);
            assert(next.drop_last() =~= now);
            assert(next.last() == "?"@);
        }
        if i > 0 {
            marks.append(",");
        }
        marks.append("?");
        i = i + 1;
        proof {
            let next = Seq::new(i as nat, |i: int| "?"@);
            if i == 1 {
                assert(next =~= seq!["?"@]);
                assert(marks@ =~= "?"@);
                assert(joined(next, ","@) =~= "?"@);
            }
        }
    }
    let mut r = concat2(head, marks.as_str());
    r.append(")");
    r
}

/// Whether a row tells of the file as the scan found it: its time is the stored one, or its size
/// is.
pub open spec fn row_hits(row: RowModel, key: TranscriptCacheKey) -> bool {
    match key {
        TranscriptCacheKey::Mtime(t) => row.mtime_secs == time_parts(t).0 as i64 && row.mtime_nanos
            == time_parts(t).1 as i64,
        TranscriptCacheKey::Size(s) => row.size == Some(s as i64),
    }
}

/// Whether a row tells of the file as the scan found it.
pub fn is_hit(row: &StoredRow, key: TranscriptCacheKey) -> (r: bool)
    ensures
        r == row_hits(row@, key),
{
    match key {
        TranscriptCacheKey::Mtime(t) => {
            let (secs, nanos) = system_time_to_parts(t);
            row.mtime_secs == secs as i64 && row.mtime_nanos == nanos as i64
        },
        TranscriptCacheKey::Size(s) => match row.size {
            Some(n) => n == s as i64,
            None => false,
        },
    }
}

/// Whether a row's time is from the epoch on and can be counted.
pub open spec fn time_counts(row: RowModel) -> bool {
    0 <= row.mtime_secs <= i64::MAX - 4
}

/// The provider that a word names; one that names none stands for the first.
pub open spec fn provider_named(word: Seq<char>, names: ProviderNames) -> ProviderKind {
    match names.kind_of(word) {
        Some(kind) => kind,
        None => ProviderKind::Claude,
    }
}

/// The entry that a row stores.
pub open spec fn row_entry(row: RowModel, names: ProviderNames) -> EntryModel {
    let nanos = row.mtime_nanos as u32;
    EntryModel {
        path: row.path,
        id: row.id,
        title: row.title,
        mtime: Moment {
            secs: (row.mtime_secs + nanos / 1_000_000_000) as i64,
            nanos: nanos % 1_000_000_000,
        },
        updated_at: match row.updated_at_ms {
            Some(ms) => moment_at(ms),
            None => None,
        },
        size: match row.size {
            Some(n) => Some(n as u64),
            None => None,
        },
        last_user_message: row.last_user_message,
        message_count: row.message_count as usize,
        workspace_path: row.workspace_path,
        provider: provider_named(row.provider, names),
    }
}

/// The entry that a row stores.
pub fn entry_from_row(row: StoredRow, names: &ProviderNames) -> (r: TranscriptEntry)
    requires
        time_counts(row@),
    ensures
        r@ == row_entry(row@, *names),
{
    let nanos = row.mtime_nanos as u32;
    let updated_at = match row.updated_at_ms {
        Some(ms) => moment_from_millis(ms),
        None => None,
    };
    let size = match row.size {
        Some(n) => Some(n as u64),
        None => None,
    };
    let provider = match ProviderKind::parse(row.provider.as_str(), names) {
        Some(kind) => kind,
        None => ProviderKind::Claude,
    };
    TranscriptEntry {
        path: row.path,
        id: row.id,
        title: row.title,
        mtime: Moment {
            secs: row.mtime_secs + (nanos / 1_000_000_000) as i64,
            nanos: nanos % 1_000_000_000,
        },
        updated_at,
        size,
        last_user_message: row.last_user_message,
        message_count: row.message_count as usize,
        workspace_path: row.workspace_path,
        provider,
    }
}

/// The key that a scan found for a path; of several the last one.
pub open spec fn key_of(paths: Seq<ScannedModel>, path: Seq<char>) -> Option<TranscriptCacheKey>
    decreases paths.len(),
{
    if paths.len() == 0 {
        None
    } else if paths.last().path == path {
        Some(paths.last().key)
    } else {
        key_of(paths.drop_last(), path)
    }
}

/// Whether a row tells of a file as the scan found it.
pub open spec fn row_holds(paths: Seq<ScannedModel>, row: RowModel) -> bool {
    match key_of(paths, row.path) {
        Some(key) => row_hits(row, key),
        None => false,
    }
}

/// The known entries by the plainest text of their path: those of the rows that still hold.
pub open spec fn known_entries(
    paths: Seq<ScannedModel>,
    rows: Seq<RowModel>,
    names: ProviderNames,
) -> Map<Seq<char>, EntryModel>
    decreases rows.len(),
{
    if rows.len() == 0 {
        Map::empty()
    } else {
        let before = known_entries(paths, rows.drop_last(), names);
        if row_holds(paths, rows.last()) {
            before.insert(plain_path(rows.last().path), row_entry(rows.last(), names))
        } else {
            before
        }
    }
}

/// What known entries hold.
pub open spec fn entry_map(m: Map<Seq<char>, TranscriptEntry>) -> Map<Seq<char>, EntryModel> {
    m.map_values(|e: TranscriptEntry| e@)
}

fn find_key(paths: &Vec<ScannedPath>, path: &str) -> (r: Option<TranscriptCacheKey>)
    ensures
        r == key_of(scanned_views(paths@), path@),
{
    let ghost all = scanned_views(paths@);
    let mut n: usize = paths.len();
    assert(all.take(n as int) =~= all);
    while n > 0
        invariant
            n <= paths@.len(),
            all == scanned_views(paths@),
            key_of(all.take(n as int), path@) == key_of(all, path@),
        decreases n,
    {
        n = n - 1;
        proof {
            assert(all.take(n + 1).drop_last() =~= all.take(n as int));
            assert(all.take(n + 1).last() == paths@[n as int]@);
        }
        if same_text(paths[n].path.as_str(), path) {
            return Some(paths[n].key);
        }
    }
    None
}

/// The known entries of a chunk of paths, from the rows that the index gave for them. A row that
/// no longer holds is left out.
pub fn lookup_cached_batch(
    chunk: &Vec<ScannedPath>,
    rows: Vec<StoredRow>,
    names: &ProviderNames,
) -> (r: StringHashMap<TranscriptEntry>)
    requires
        forall|i: int|
            0 <= i < rows@.len() && row_holds(scanned_views(chunk@), (#[trigger] rows@[i])@)
                ==> time_counts(rows@[i]@),
    ensures
        entry_map(r@) == known_entries(scanned_views(chunk@), row_views(rows@), *names),
{
    let ghost paths = scanned_views(chunk@);
    let ghost source = rows@;
    let ghost all = row_views(rows@);
    let mut r: StringHashMap<TranscriptEntry> = StringHashMap::new();
    assert(entry_map(r@) =~= known_entries(paths, all.take(0), *names));
    for row in it: rows
        invariant
            it.seq() == source,
            all == row_views(source),
            paths == scanned_views(chunk@),
            entry_map(r@) == known_entries(paths, all.take(it.index() as int), *names),
            forall|i: int|
                0 <= i < source.len() && row_holds(paths, (#[trigger] source[i])@) ==> time_counts(
                    source[i]@,
                ),
    {
        let ghost i = it.index() as int;
        proof {
            assert(row == source[i]);
            assert(all.take(i + 1).drop_last() =~= all.take(i));
            assert(all.take(i + 1).last() == row@);
        }
        let holds = match find_key(chunk, row.path.as_str()) {
            Some(key) => is_hit(&row, key),
            None => false,
        };
        if holds {
            let ghost before = r@;
            let path = tidy_path(row.path.as_str());
            let entry = entry_from_row(row, names);
            r.insert(path, entry);
            assert(entry_map(r@) =~= entry_map(before).insert(path@, entry@));
        }
    }
    assert(all.take(all.len() as int) =~= all);
    r
}

// ---------------------------------------------------------------------------
// Storing
// ---------------------------------------------------------------------------

/// The row to store for an entry: the time and size are those that the scan found, as far as its
/// key tells them.
pub open spec fn row_of(e: EntryModel, key: TranscriptCacheKey, names: ProviderNames) -> RowModel {
    let parts = match key {
        TranscriptCacheKey::Mtime(t) => time_parts(t),
        TranscriptCacheKey::Size(_) => time_parts(e.mtime),
    };
    RowModel {
        path: e.path,
        provider: names.word_of(e.provider),
        id: e.id,
        title: e.title,
        mtime_secs: parts.0 as i64,
        mtime_nanos: parts.1 as i64,
        last_user_message: e.last_user_message,
        message_count: e.message_count as i64,
        workspace_path: e.workspace_path,
        updated_at_ms: match e.updated_at {
            Some(t) => Some(t.millis() as i64),
            None => None,
        },
        size: match key {
            TranscriptCacheKey::Size(s) => Some(s as i64),
            TranscriptCacheKey::Mtime(_) => match e.size {
                Some(s) => Some(s as i64),
                None => None,
            },
        },
    }
}

fn copy_text(s: &Option<String>) -> (r: Option<String>)
    ensures
        text_opt(r) == text_opt(*s),
{
    match s {
        Some(t) => Some(t.clone()),
        None => None,
    }
}

/// The row to store for an entry that a scan found under `key`.
pub fn upsert(entry: &TranscriptEntry, key: TranscriptCacheKey, names: &ProviderNames) -> (r:
    StoredRow)
    requires
        entry.updated_at is Some ==> entry.updated_at->0.valid(),
    ensures
        r@ == row_of(entry@, key, *names),
{
    let (secs, nanos) = match key {
        TranscriptCacheKey::Mtime(t) => system_time_to_parts(t),
        TranscriptCacheKey::Size(_) => system_time_to_parts(entry.mtime),
    };
    let size = match key {
        TranscriptCacheKey::Size(s) => Some(s as i64),
        TranscriptCacheKey::Mtime(_) => match entry.size {
            Some(s) => Some(s as i64),
            None => None,
        },
    };
    let updated_at_ms = match entry.updated_at {
        Some(t) => Some(t.secs * 1000 + (t.nanos / 1_000_000) as i64),
        None => None,
    };
    StoredRow {
        path: entry.path.clone(),
        provider: entry.provider.name(names).to_owned(),
        id: entry.id.clone(),
        title: entry.title.clone(),
        mtime_secs: secs as i64,
        mtime_nanos: nanos as i64,
        last_user_message: copy_text(&entry.last_user_message),
        message_count: entry.message_count as i64,
        workspace_path: copy_text(&entry.workspace_path),
        updated_at_ms,
        size,
    }
}

} // verus!
