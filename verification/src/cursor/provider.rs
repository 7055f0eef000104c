//! Where sessions are and what the picker shows of them.
use crate::claude::message::{at, or_text};
use crate::cursor::hex::{decoded, hex_decode};
use crate::cursor::proto::{
    extract_field26_varint, extract_field9_bytes, fields, payload_in, refs_in,
    value_in,
};
use crate::json::{
    field, json_parsed_bytes, parse_json_bytes, str_field, Json, JsonModel,
};
use crate::cursor::reader::{blob_in, list_message_ids, message_ids, BlobStore};
use crate::paths::{name_of_parent, parent_name};
use crate::providers::{
    moment_at, moment_from_millis, recency, recency_priority, EntryModel, Moment, ProviderKind,
    TranscriptEntry,
};
use crate::text::{
    after_prefix, concat2, concat3, decimal, join, joined, same_text, strip_prefix,
    text_of_bytes, views,
};
use crate::tree::text_opt;
use vstd::prelude::*;
use vstd::string::*;
use vstd::utf8::{decode_utf8, valid_utf8};

verus! {

broadcast use vstd::string::group_string_axioms;

/// The provider of sessions that are databases of blobs.
pub struct CursorProvider;

/// The MD5 digest of bytes, in lower-case hexadecimal digits.
pub uninterp spec fn md5_text(bytes: Seq<u8>) -> Seq<char>;

/// Wraps `md5::compute`, its digest written with `{:x}`, named by `md5_text`.
#[verifier::external_body]
fn md5_hex(bytes: &[u8]) -> (r: String)
    ensures
        r@ == md5_text(bytes@),
{
    format!("{:x}", md5::compute(bytes))
}

/// The directory of a workspace's sessions: it is named after the digest of the workspace's path.
pub open spec fn chats_dir(home: Seq<char>, workspace: Seq<u8>) -> Seq<char> {
    home + "/.cursor/chats/"@ + md5_text(workspace)
}

impl CursorProvider {
    /// The database of a session, whether it is there or not.
    pub fn compute_session_db(home: &str, session_id: &str, workspace: &str) -> (r: String)
        ensures
            r@ == chats_dir(home@, workspace.spec_bytes()) + "/"@ + session_id@ + "/store.db"@,
    {
        let hash = md5_hex(workspace.as_bytes());
        let mut r = concat3(home, "/.cursor/chats/", hash.as_str());
        r.append("/");
        r.append(session_id);
        r.append("/store.db");
        r
    }

    /// The database of a session; it takes a workspace to tell.
    pub fn compute_transcript_path(home: &str, session_id: &str, workspace: Option<&str>) -> (r:
        Option<String>)
        ensures
            text_opt(r) == (match workspace {
                Some(w) => Some(
                    chats_dir(home@, w.spec_bytes()) + "/"@ + session_id@ + "/store.db"@,
                ),
                None => None,
            }),
    {
        match workspace {
            Some(w) => Some(Self::compute_session_db(home, session_id, w)),
            None => None,
        }
    }

    /// The pattern of the databases of a workspace, or of all of them.
    pub fn scan_pattern(home: &str, workspace: Option<&str>) -> (r: String)
        ensures
            r@ == (match workspace {
                Some(w) => chats_dir(home@, w.spec_bytes()) + "/*/store.db"@,
                None => home@ + "/.cursor/chats/*/*/store.db"@,
            }),
    {
        match workspace {
            Some(w) => {
                let hash = md5_hex(w.as_bytes());
                let mut r = concat3(home, "/.cursor/chats/", hash.as_str());
                r.append("/*/store.db");
                r
            },
            None => concat2(home, "/.cursor/chats/*/*/store.db"),
        }
    }

    /// The pattern of the databases of a session in any workspace.
    pub fn session_pattern(home: &str, session_id: &str) -> (r: String)
        ensures
            r@ == home@ + "/.cursor/chats/*/"@ + session_id@ + "/store.db"@,
    {
        let mut r = concat3(home, "/.cursor/chats/*/", session_id);
        r.append("/store.db");
        r
    }
}

/// The place of a session in the order of reading: the lower, the earlier. A session that is being
/// written is read again each time, which 0 stands for; of the others newer ones come first.
pub open spec fn scan_place(wal_bytes: Option<u64>, mtime: Moment) -> int {
    if wal_bytes is Some && wal_bytes->0 > 0 {
        0
    } else {
        recency(mtime)
    }
}

/// The place of a session in the order of reading.
pub fn scan_priority(wal_bytes: Option<u64>, mtime: Moment) -> (r: i64)
    ensures
        r == scan_place(wal_bytes, mtime),
{
    let active = match wal_bytes {
        Some(n) => n > 0,
        None => false,
    };
    if active {
        0
    } else {
        recency_priority(mtime)
    }
}

/// Whether an event's file is the database or its log.
pub fn is_database_file(name: &str) -> (r: bool)
    ensures
        r == (name@ == "store.db"@ || name@ == "store.db-wal"@),
{
    same_text(name, "store.db") || same_text(name, "store.db-wal")
}

// ---------------------------------------------------------------------------
// Session data
// ---------------------------------------------------------------------------

/// What the database tells of its session.
#[derive(Debug, PartialEq)]
pub struct SessionMeta {
    pub name: String,
    pub created_at_ms: i64,
    /// Whether another session's agent started this one.
    pub is_subagent: bool,
}

/// What a `SessionMeta` holds.
#[verifier::ext_equal]
pub struct MetaModel {
    pub name: Seq<char>,
    pub created_at_ms: i64,
    pub is_subagent: bool,
}

impl View for SessionMeta {
    type V = MetaModel;

    open spec fn view(&self) -> MetaModel {
        MetaModel {
            name: self.name@,
            created_at_ms: self.created_at_ms,
            is_subagent: self.is_subagent,
        }
    }
}

/// A number of 64 bits.
pub open spec fn int_of(m: JsonModel) -> Option<i64> {
    match m {
        JsonModel::Unsigned(n) => if n <= i64::MAX {
            Some(n as i64)
        } else {
            None
        },
        JsonModel::Negative(n) => Some(n),
        _ => None,
    }
}

/// What an object tells of a session.
pub open spec fn meta_of(obj: JsonModel) -> MetaModel {
    MetaModel {
        name: or_text(str_field(obj, "name"@), ""@),
        created_at_ms: match int_of(at(obj, "createdAt"@)) {
            Some(n) => n,
            None => 0,
        },
        is_subagent: !(at(obj, "subagentInfo"@) is Null),
    }
}

/// The object that hexadecimal digits hold.
pub open spec fn meta_object(hex: Seq<u8>) -> Result<JsonModel, Seq<char>> {
    if hex.len() % 2 == 1 {
        Err("hex-decoding meta value: odd hex length: "@ + decimal(hex.len()))
    } else {
        match decoded(hex) {
            Some(bytes) => match json_parsed_bytes(bytes) {
                Some(obj) => Ok(obj),
                None => Err("parsing meta JSON"@),
            },
            None => Err("hex-decoding meta value: invalid digit found in string"@),
        }
    }
}

fn read_meta_json(hex: &str) -> (r: Result<Json, String>)
    ensures
        match r {
            Ok(obj) => meta_object(hex.spec_bytes()) == Ok::<JsonModel, Seq<char>>(obj@),
            Err(e) => meta_object(hex.spec_bytes()) == Err::<JsonModel, Seq<char>>(e@),
        },
{
    match hex_decode(hex) {
        Ok(bytes) => match parse_json_bytes(bytes.as_slice()) {
            Some(obj) => Ok(obj),
            None => Err("parsing meta JSON".to_owned()),
        },
        Err(e) => {
            proof {
                let n = decimal(hex.spec_bytes().len());
                assert("hex-decoding meta value: "@ + ("odd hex length: "@ + n)
                    =~= "hex-decoding meta value: odd hex length: "@ + n) by {
                    reveal_strlit("hex-decoding meta value: ");
                    reveal_strlit("odd hex length: ");
                    reveal_strlit("hex-decoding meta value: odd hex length: ");
                }
                assert("hex-decoding meta value: "@ + "invalid digit found in string"@
                    =~= "hex-decoding meta value: invalid digit found in string"@) by {
                    reveal_strlit("hex-decoding meta value: ");
                    reveal_strlit("invalid digit found in string");
                    reveal_strlit("hex-decoding meta value: invalid digit found in string");
                }
            }
            Err(concat2("hex-decoding meta value: ", e.as_str()))
        },
    }
}

/// What an object tells of a session.
pub fn meta_from_value(obj: &Json) -> (r: SessionMeta)
    ensures
        r@ == meta_of(obj@),
{
    let name = match obj.get_str("name") {
        Some(n) => n.to_owned(),
        None => "".to_owned(),
    };
    let created_at_ms = match obj.get("createdAt") {
        Some(Json::Unsigned(n)) => {
            if *n <= i64::MAX as u64 {
                *n as i64
            } else {
                0
            }
        },
        Some(Json::Negative(n)) => *n,
        _ => 0,
    };
    let is_subagent = match obj.get("subagentInfo") {
        Some(Json::Null) => false,
        Some(_) => true,
        None => false,
    };
    SessionMeta { name, created_at_ms, is_subagent }
}

/// What the database tells of its session. `hex` is the value of its entry, in digits.
pub fn session_meta(hex: &str) -> (r: Result<SessionMeta, String>)
    ensures
        match r {
            Ok(meta) => meta_object(hex.spec_bytes()) is Ok && meta@ == meta_of(
                meta_object(hex.spec_bytes())->Ok_0,
            ),
            Err(e) => meta_object(hex.spec_bytes()) == Err::<JsonModel, Seq<char>>(e@),
        },
{
    match read_meta_json(hex) {
        Ok(obj) => Ok(meta_from_value(&obj)),
        Err(e) => Err(e),
    }
}

/// The id of the session's last snapshot, or the empty text.
pub fn latest_root_blob_id(hex: &str) -> (r: Result<String, String>)
    ensures
        match r {
            Ok(id) => meta_object(hex.spec_bytes()) is Ok && id@ == or_text(
                str_field(meta_object(hex.spec_bytes())->Ok_0, "latestRootBlobId"@),
                ""@,
            ),
            Err(e) => meta_object(hex.spec_bytes()) == Err::<JsonModel, Seq<char>>(e@),
        },
{
    match read_meta_json(hex) {
        Ok(obj) => match obj.get_str("latestRootBlobId") {
            Some(id) => Ok(id.to_owned()),
            None => Ok("".to_owned()),
        },
        Err(e) => Err(e),
    }
}

/// The title to list a session under.
pub open spec fn titled(name: Seq<char>) -> Seq<char> {
    if name.len() == 0 {
        "(unnamed)"@
    } else {
        name
    }
}

/// The title to list a session under.
pub fn shown_title(name: &str) -> (r: String)
    ensures
        r@ == titled(name@),
{
    if name.is_empty() {
        "(unnamed)".to_owned()
    } else {
        name.to_owned()
    }
}

/// The workspace of a snapshot, from its `file://` address.
pub open spec fn workspace_of(root: Seq<u8>) -> Option<Seq<char>> {
    match payload_in(fields(root), 9) {
        Some(bytes) => if valid_utf8(bytes) {
            after_prefix(decode_utf8(bytes), "file://"@)
        } else {
            None
        },
        None => None,
    }
}

/// The workspace of a snapshot.
pub fn workspace_path(root: &[u8]) -> (r: Option<String>)
    ensures
        text_opt(r) == workspace_of(root@),
{
    match extract_field9_bytes(root) {
        Some(bytes) => match text_of_bytes(bytes.as_slice()) {
            Some(uri) => strip_prefix(uri.as_str(), "file://"),
            None => None,
        },
        None => None,
    }
}

// ---------------------------------------------------------------------------
// The last message of the user
// ---------------------------------------------------------------------------

/// What a message tells about what the user wrote last, read from the last message on.
#[derive(Debug, PartialEq)]
pub enum LastUser {
    /// Look at the message before.
    Earlier,
    /// There is nothing to show.
    Nothing,
    /// This is it.
    Text(String),
}

/// What a `LastUser` holds.
pub enum LastUserModel {
    Earlier,
    Nothing,
    Text(Seq<char>),
}

impl View for LastUser {
    type V = LastUserModel;

    open spec fn view(&self) -> LastUserModel {
        match *self {
            LastUser::Earlier => LastUserModel::Earlier,
            LastUser::Nothing => LastUserModel::Nothing,
            LastUser::Text(t) => LastUserModel::Text(t@),
        }
    }
}

/// The texts of the text blocks.
pub open spec fn texts_in(items: Seq<JsonModel>) -> Seq<Seq<char>>
    decreases items.len(),
{
    if items.len() == 0 {
        Seq::empty()
    } else {
        let before = texts_in(items.drop_last());
        match str_field(items.last(), "text"@) {
            Some(t) => if str_field(items.last(), "type"@) == Some("text"@) {
                before.push(t)
            } else {
                before
            },
            None => before,
        }
    }
}

/// What a message tells: the text of the user's message, where it is not empty. A user's message
/// without content ends the search.
pub open spec fn last_user(obj: JsonModel) -> LastUserModel {
    if str_field(obj, "role"@) != Some("user"@) {
        LastUserModel::Earlier
    } else {
        match field(obj, "content"@) {
            None => LastUserModel::Nothing,
            Some(content) => {
                let text = match content {
                    JsonModel::Str(s) => s,
                    JsonModel::Array(items) => joined(texts_in(items), " "@),
                    _ => Seq::empty(),
                };
                if text.len() == 0 {
                    LastUserModel::Earlier
                } else {
                    LastUserModel::Text(text)
                }
            },
        }
    }
}

/// What a message tells about what the user wrote last.
pub fn last_user_of_value(obj: &Json) -> (r: LastUser)
    ensures
        r@ == last_user(obj@),
{
    let user = match obj.get_str("role") {
        Some(role) => same_text(role, "user"),
        None => false,
    };
    if !user {
        return LastUser::Earlier;
    }
    let text = match obj.get("content") {
        None => {
            return LastUser::Nothing;
        },
        Some(Json::Str(s)) => s.clone(),
        Some(Json::Array(items)) => {
            let ghost all = at(obj@, "content"@)->Array_0;
            let mut parts: Vec<String> = Vec::new();
            let mut i: usize = 0;
            assert(all.len() == items@.len());
            assert(views(parts@) =~= texts_in(all.take(0)));
            while i < items.len()
                invariant
                    i <= items@.len(),
                    all.len() == items@.len(),
                    forall|k: int| 0 <= k < all.len() ==> all[k] == items@[k]@,
                    views(parts@) == texts_in(all.take(i as int)),
                decreases items@.len() - i,
            {
                proof {
                    assert(all.take(i + 1).drop_last() =~= all.take(i as int));
                    assert(all.take(i + 1).last() == items@[i as int]@);
                }
                let is_text = match items[i].get_str("type") {
                    Some(t) => same_text(t, "text"),
                    None => false,
                };
                if is_text {
                    if let Some(t) = items[i].get_str("text") {
                        let ghost before = parts@;
                        parts.push(t.to_owned());
                        assert(views(parts@) =~= views(before).push(t@));
                    }
                }
                i = i + 1;
            }
            assert(all.take(items@.len() as int) =~= all);
            join(&parts, " ")
        },
        _ => String::new(),
    };
    if text.as_str().is_empty() {
        LastUser::Earlier
    } else {
        LastUser::Text(text)
    }
}

/// What a blob tells; one that is no JSON is passed over.
pub open spec fn last_user_in(data: Seq<u8>) -> LastUserModel {
    match json_parsed_bytes(data) {
        Some(obj) => last_user(obj),
        None => LastUserModel::Earlier,
    }
}

/// The text of the user's last message among blobs, where it can be read and is not empty.
pub open spec fn last_message(ids: Seq<Seq<char>>, store: Map<Seq<char>, Vec<u8>>) -> Option<
    Seq<char>,
>
    decreases ids.len(),
{
    if ids.len() == 0 {
        None
    } else {
        match blob_in(store, ids.last()) {
            None => last_message(ids.drop_last(), store),
            Some(data) => match last_user_in(data) {
                LastUserModel::Earlier => last_message(ids.drop_last(), store),
                LastUserModel::Nothing => None,
                LastUserModel::Text(t) => Some(t),
            },
        }
    }
}

/// What the user wrote last, from the messages with the given ids.
pub fn find_last_user_message(ids: &Vec<String>, store: &BlobStore) -> (r: Option<String>)
    ensures
        text_opt(r) == last_message(views(ids@), store@),
{
    let ghost all = views(ids@);
    let mut n: usize = ids.len();
    assert(all.take(n as int) =~= all);
    while n > 0
        invariant
            n <= ids@.len(),
            all == views(ids@),
            last_message(all.take(n as int), store@) == last_message(all, store@),
        decreases n,
    {
        n = n - 1;
        proof {
            assert(all.take(n + 1).drop_last() =~= all.take(n as int));
            assert(all.take(n + 1).last() == ids@[n as int]@);
        }
        if let Some(data) = store.get(ids[n].as_str()) {
            if let Some(obj) = parse_json_bytes(data.as_slice()) {
                match last_user_of_value(&obj) {
                    LastUser::Earlier => {},
                    LastUser::Nothing => {
                        return None;
                    },
                    LastUser::Text(t) => {
                        return Some(t);
                    },
                }
            }
        }
    }
    None
}

// ---------------------------------------------------------------------------
// Entries
// ---------------------------------------------------------------------------

/// The id of a session: the name of the directory that holds its database.
pub open spec fn session_id_of(path: Seq<char>) -> Seq<char> {
    or_text(parent_name(path), "unknown"@)
}

/// The entry of a session: what its database tells, beside its file's time and size. There is none
/// where the database's own entry or the last snapshot cannot be read.
pub open spec fn entry_of(
    path: Seq<char>,
    hex: Seq<u8>,
    store: Map<Seq<char>, Vec<u8>>,
    mtime: Moment,
    size: Option<u64>,
) -> Option<EntryModel> {
    match meta_object(hex) {
        Err(_) => None,
        Ok(obj) => match blob_in(store, or_text(str_field(obj, "latestRootBlobId"@), ""@)) {
            None => None,
            Some(root) => Some(
                EntryModel {
                    path,
                    id: session_id_of(path),
                    title: titled(or_text(str_field(obj, "name"@), ""@)),
                    mtime,
                    updated_at: match value_in(fields(root), 26) {
                        Some(ms) => moment_at(ms as i64),
                        None => None,
                    },
                    size,
                    last_user_message: last_message(message_ids(root), store),
                    message_count: refs_in(fields(root), 1).len() as usize,
                    workspace_path: workspace_of(root),
                    provider: ProviderKind::Cursor,
                },
            ),
        },
    }
}

fn read_session_id(path: &str) -> (r: String)
    ensures
        r@ == session_id_of(path@),
{
    match name_of_parent(path) {
        Some(name) => name,
        None => "unknown".to_owned(),
    }
}

impl CursorProvider {
    /// The entry of a session. `hex` is what the database tells of its session, in digits, and
    /// `store` holds the last snapshot and its messages.
    pub fn read_entry(
        path: &str,
        hex: &str,
        store: &BlobStore,
        mtime: Moment,
        size: Option<u64>,
    ) -> (r: Option<TranscriptEntry>)
        ensures
            match r {
                Some(e) => entry_of(path@, hex.spec_bytes(), store@, mtime, size) == Some(e@),
                None => entry_of(path@, hex.spec_bytes(), store@, mtime, size) is None,
            },
    {
        let meta = match session_meta(hex) {
            Ok(meta) => meta,
            Err(_) => {
                return None;
            },
        };
        let root_id = match latest_root_blob_id(hex) {
            Ok(id) => id,
            Err(_) => {
                return None;
            },
        };
        let root = match store.get(root_id.as_str()) {
            Some(root) => root,
            None => {
                return None;
            },
        };
        let updated_at = match extract_field26_varint(root.as_slice()) {
            Some(ms) => moment_from_millis(ms as i64),
            None => None,
        };
        let ids = list_message_ids(root.as_slice());
        let message_count = ids.len();
        let last_user_message = find_last_user_message(&ids, store);
        Some(
            TranscriptEntry {
                path: path.to_owned(),
                id: read_session_id(path),
                title: shown_title(meta.name.as_str()),
                mtime,
                updated_at,
                size,
                last_user_message,
                message_count,
                workspace_path: workspace_path(root.as_slice()),
                provider: ProviderKind::Cursor,
            },
        )
    }
}

} // verus!
