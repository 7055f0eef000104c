//! What holds of sessions and of what the list shows of them.
use crate::cursor::hex::{decoded, hash_of, hex_digit, hex_text, nibble, pair_value, pairs_value};
use crate::cursor::message::{empty_state, pending_ops, ParseModel};
use crate::cursor::notification::{
    header, header_key, header_line, headers, line_end, notice, status_label, task_notice,
};
use crate::cursor::proto::{fields, payload_in, refs_in, value_in, FieldModel};
use crate::cursor::provider::{
    chats_dir, entry_of, int_of, last_message, last_user, last_user_in, md5_text, meta_object,
    meta_of, session_id_of, texts_in, titled, workspace_of, LastUserModel,
};
use crate::cursor::reader::{
    all_among, blob_in, blob_step, blobs_steps, collected, db_change, earlier_ids, earlier_roots,
    message_ids, prompt_first, settled, snapshot_ops, tree_ops, ReaderModel,
};
use crate::cursor::timestamp::{
    date_format, date_text, instant_of_local, local_seconds, timestamp_of, zone_offset, zone_text,
};
use crate::claude::xml::tag_text;
use crate::json::{field, json_parsed_bytes, str_field, JsonModel};
use crate::number::int_value;
use crate::providers::{moment_at, ProviderKind};
use crate::text::{
    capitalized, decimal, drop_char, first_at, joined, last_at, lemma_first_at, lemma_next_char,
    occurs_at, skip_char, skip_words, starts, trimmed, trimmed_end, trimmed_start,
};
use crate::text_laws::{law_name_of_the_parent, law_prefixes};
use crate::tree::{OpModel, ReaderOpModel};
use vstd::prelude::*;
use vstd::utf8::{decode_utf8, valid_utf8};

verus! {

// ---------------------------------------------------------------------------
// Fields
// ---------------------------------------------------------------------------

/// The references of a number are the payloads of 32 bytes in the fields of that number, in order.
pub proof fn law_references(fs: Seq<FieldModel>, f: FieldModel, number: nat)
    ensures
        refs_in(Seq::empty(), number) == Seq::<Seq<u8>>::empty(),
        match f {
            FieldModel::Payload { number: n, bytes } => {
                &&& n == number && bytes.len() == 32 ==> refs_in(seq![f] + fs, number) == seq![bytes]
                    + refs_in(fs, number)
                &&& n != number || bytes.len() != 32 ==> refs_in(seq![f] + fs, number) == refs_in(
                    fs,
                    number,
                )
            },
            _ => refs_in(seq![f] + fs, number) == refs_in(fs, number),
        },
{
    assert((seq![f] + fs).skip(1) =~= fs);
}

/// The payload and the value of a number are those of the first field of that number that has one.
pub proof fn law_first_fields(fs: Seq<FieldModel>, f: FieldModel, number: nat)
    ensures
        payload_in(Seq::empty(), number) is None,
        value_in(Seq::empty(), number) is None,
        match f {
            FieldModel::Payload { number: n, bytes } => n == number ==> payload_in(
                seq![f] + fs,
                number,
            ) == Some(bytes),
            _ => payload_in(seq![f] + fs, number) == payload_in(fs, number),
        },
        match f {
            FieldModel::Varint { number: n, value } => n == number ==> value_in(
                seq![f] + fs,
                number,
            ) == Some(value),
            _ => value_in(seq![f] + fs, number) == value_in(fs, number),
        },
        match f {
            FieldModel::Payload { number: n, .. } => n != number ==> payload_in(
                seq![f] + fs,
                number,
            ) == payload_in(fs, number),
            FieldModel::Varint { number: n, .. } => n != number ==> value_in(seq![f] + fs, number)
                == value_in(fs, number),
            _ => true,
        },
{
    assert((seq![f] + fs).skip(1) =~= fs);
}

/// The digits are those of base 16, letters of either case read and small ones written.
pub proof fn law_hex_digits(v: u8)
    ensures
        v < 10 ==> hex_digit(v) as u32 == '0' as u32 + v && nibble((0x30 + v) as u8) == Some(v),
        10 <= v < 16 ==> hex_digit(v) as u32 == 'a' as u32 + v - 10 && nibble((0x61 + v - 10) as u8)
            == Some(v) && nibble((0x41 + v - 10) as u8) == Some(v),
        v < 0x30 || 0x39 < v < 0x41 || 0x46 < v < 0x61 || v > 0x66 ==> nibble(v) is None,
{
}

/// Bytes are read from pairs of digits, the higher digit first.
pub proof fn law_hex_pairs(digits: Seq<u8>, a: u8, b: u8)
    requires
        digits.len() % 2 == 0,
    ensures
        pairs_value(digits) is Some && nibble(a) is Some && nibble(b) is Some ==> pairs_value(
            digits.push(a).push(b),
        ) == Some(pairs_value(digits)->0.push((16 * nibble(a)->0 + nibble(b)->0) as u8)),
        pairs_value(digits) is None || nibble(a) is None || nibble(b) is None ==> pairs_value(
            digits.push(a).push(b),
        ) is None,
        decoded(digits) is Some && pair_value(a, b) is Some ==> decoded(digits.push(a).push(b))
            == Some(decoded(digits)->0.push(pair_value(a, b)->0)),
        decoded(digits) is None || pair_value(a, b) is None ==> decoded(
            digits.push(a).push(b),
        ) is None,
        nibble(a) is Some && nibble(b) is Some ==> pair_value(a, b) == Some(
            (16 * nibble(a)->0 + nibble(b)->0) as u8,
        ),
        nibble(b) is None ==> pair_value(a, b) is None,
        digits.len() == 64 ==> hash_of(digits) == pairs_value(digits),
        digits.len() != 64 ==> hash_of(digits) is None,
{
    let all = digits.push(a).push(b);
    assert(all.take(all.len() - 2) =~= digits);
}

// ---------------------------------------------------------------------------
// What the list shows
// ---------------------------------------------------------------------------

/// What the database tells of its session: its name, when it was made, and whether another
/// session's agent started it.
pub proof fn law_meta(obj: JsonModel)
    ensures
        str_field(obj, "name"@) is Some ==> meta_of(obj).name == str_field(obj, "name"@)->0,
        str_field(obj, "name"@) is None ==> meta_of(obj).name == ""@,
        field(obj, "createdAt"@) is Some && field(obj, "createdAt"@)->0 is Unsigned && field(
            obj,
            "createdAt"@,
        )->0->Unsigned_0 <= i64::MAX ==> meta_of(obj).created_at_ms == field(
            obj,
            "createdAt"@,
        )->0->Unsigned_0,
        field(obj, "createdAt"@) is None || field(obj, "createdAt"@)->0 is Str ==> meta_of(
            obj,
        ).created_at_ms == 0,
        meta_of(obj).is_subagent <==> field(obj, "subagentInfo"@) is Some && !(field(
            obj,
            "subagentInfo"@,
        )->0 is Null),
{
}

/// A session without a name is listed as unnamed, and any other under its name.
pub proof fn law_titles(name: Seq<char>)
    ensures
        name.len() > 0 ==> titled(name) == name,
        name.len() == 0 ==> titled(name) == "(unnamed)"@,
{
}

/// The workspace of a snapshot is the path of the address that it holds.
pub proof fn law_workspace(root: Seq<u8>, bytes: Seq<u8>, path: Seq<char>)
    ensures
        payload_in(fields(root), 9) is None ==> workspace_of(root) is None,
        payload_in(fields(root), 9) == Some(bytes) && valid_utf8(bytes) && decode_utf8(bytes)
            == "file://"@ + path ==> workspace_of(root) == Some(path),
        payload_in(fields(root), 9) == Some(bytes) && valid_utf8(bytes) && !starts(
            decode_utf8(bytes),
            "file://"@,
        ) ==> workspace_of(root) is None,
        payload_in(fields(root), 9) == Some(bytes) && !valid_utf8(bytes) ==> workspace_of(
            root,
        ) is None,
{
    law_prefixes("file://"@, path, decode_utf8(bytes));
}

/// What the user wrote is the content of the user's message: a string, or the texts of its blocks
/// with a blank between them. Messages of others and empty ones are passed over, and a user's
/// message without a content ends the search.
pub proof fn law_what_the_user_wrote(obj: JsonModel)
    ensures
        str_field(obj, "role"@) != Some("user"@) ==> last_user(obj) is Earlier,
        str_field(obj, "role"@) == Some("user"@) && field(obj, "content"@) is None ==> last_user(
            obj,
        ) is Nothing,
        str_field(obj, "role"@) == Some("user"@) && str_field(obj, "content"@) is Some ==> (
        str_field(obj, "content"@)->0.len() > 0 ==> last_user(obj) == LastUserModel::Text(
            str_field(obj, "content"@)->0,
        )) && (str_field(obj, "content"@)->0.len() == 0 ==> last_user(obj) is Earlier),
        str_field(obj, "role"@) == Some("user"@) && field(obj, "content"@) is Some && field(
            obj,
            "content"@,
        )->0 is Array ==> ({
            let text = joined(texts_in(field(obj, "content"@)->0->Array_0), " "@);
            &&& text.len() > 0 ==> last_user(obj) == LastUserModel::Text(text)
            &&& text.len() == 0 ==> last_user(obj) is Earlier
        }),
{
}

/// The texts of blocks are those of the text blocks, in order.
pub proof fn law_texts_of_blocks(items: Seq<JsonModel>, item: JsonModel)
    ensures
        texts_in(Seq::empty()) == Seq::<Seq<char>>::empty(),
        str_field(item, "type"@) == Some("text"@) && str_field(item, "text"@) is Some ==> texts_in(
            items.push(item),
        ) == texts_in(items).push(str_field(item, "text"@)->0),
        str_field(item, "type"@) != Some("text"@) || str_field(item, "text"@) is None ==> texts_in(
            items.push(item),
        ) == texts_in(items),
{
    assert(items.push(item).drop_last() =~= items);
}

/// Whether a message tells something about what the user wrote last.
pub open spec fn tells(id: Seq<char>, store: Map<Seq<char>, Vec<u8>>) -> bool {
    &&& store.contains_key(id)
    &&& json_parsed_bytes(store[id]@) is Some
    &&& !(last_user(json_parsed_bytes(store[id]@)->0) is Earlier)
}

/// What the user wrote last is what the last message says that tells of it, and nothing where none
/// does.
pub proof fn law_last_message(ids: Seq<Seq<char>>, store: Map<Seq<char>, Vec<u8>>)
    ensures
        forall|i: int|
            0 <= i < ids.len() && (#[trigger] tells(ids[i], store)) && (forall|j: int|
                i < j < ids.len() ==> !(#[trigger] tells(ids[j], store))) ==> match last_user(
                json_parsed_bytes(store[ids[i]]@)->0,
            ) {
                LastUserModel::Text(t) => last_message(ids, store) == Some(t),
                _ => last_message(ids, store) is None,
            },
        (forall|i: int| 0 <= i < ids.len() ==> !(#[trigger] tells(ids[i], store))) ==> last_message(
            ids,
            store,
        ) is None,
    decreases ids.len(),
{
    if ids.len() > 0 {
        let front = ids.drop_last();
        law_last_message(front, store);
        assert forall|i: int|
            0 <= i < ids.len() && (#[trigger] tells(ids[i], store)) && (forall|j: int|
                i < j < ids.len() ==> !(#[trigger] tells(ids[j], store))) implies match last_user(
            json_parsed_bytes(store[ids[i]]@)->0,
        ) {
            LastUserModel::Text(t) => last_message(ids, store) == Some(t),
            _ => last_message(ids, store) is None,
        } by {
            if i < ids.len() - 1 {
                assert(!tells(ids[ids.len() - 1], store));
                assert(tells(front[i], store));
                assert forall|j: int| i < j < front.len() implies !(#[trigger] tells(
                    front[j],
                    store,
                )) by {
                    assert(!tells(ids[j], store));
                }
            }
        }
        if forall|i: int| 0 <= i < ids.len() ==> !(#[trigger] tells(ids[i], store)) {
            assert(!tells(ids[ids.len() - 1], store));
            assert forall|j: int| 0 <= j < front.len() implies !(#[trigger] tells(
                front[j],
                store,
            )) by {
                assert(!tells(ids[j], store));
            }
        }
    }
}

/// The id of a session is the name of the directory that holds its database.
pub proof fn law_session_id(dir: Seq<char>, id: Seq<char>, file: Seq<char>)
    requires
        !id.contains('/') && id.len() > 0 && id != seq!['.'] && id != seq!['.', '.'],
        !file.contains('/') && file.len() > 0 && file != seq!['.'],
    ensures
        session_id_of(dir + seq!['/'] + id + seq!['/'] + file) == id,
        session_id_of(file) == "unknown"@,
{
    law_name_of_the_parent(dir, id, file);
}

/// The sessions of a workspace lie in a directory named after the digest of its path.
pub proof fn law_chats_directory(home: Seq<char>, workspace: Seq<u8>)
    ensures
        starts(chats_dir(home, workspace), home),
        chats_dir(home, workspace) == home + ("/.cursor/chats/"@ + md5_text(workspace)),
{
    let rest = "/.cursor/chats/"@ + md5_text(workspace);
    assert(chats_dir(home, workspace) =~= home + rest);
    law_prefixes(home, rest, home);
}

/// The entry of a session tells what its database and its last snapshot tell; there is none where
/// one of them cannot be read.
pub proof fn law_entry(
    path: Seq<char>,
    hex: Seq<u8>,
    store: Map<Seq<char>, Vec<u8>>,
    mtime: crate::providers::Moment,
    size: Option<u64>,
)
    ensures
        meta_object(hex) is Err ==> entry_of(path, hex, store, mtime, size) is None,
        meta_object(hex) is Ok ==> ({
            let obj = meta_object(hex)->Ok_0;
            let id = str_field(obj, "latestRootBlobId"@);
            let entry = entry_of(path, hex, store, mtime, size);
            &&& id is Some && !store.contains_key(id->0) ==> entry is None
            &&& id is Some && store.contains_key(id->0) ==> {
                let root = store[id->0]@;
                let told = value_in(fields(root), 26);
                &&& entry is Some
                &&& entry->0.path == path
                &&& entry->0.id == session_id_of(path)
                &&& str_field(obj, "name"@) is Some && str_field(obj, "name"@)->0.len() > 0
                    ==> entry->0.title == str_field(obj, "name"@)->0
                &&& str_field(obj, "name"@) is None ==> entry->0.title == "(unnamed)"@
                &&& entry->0.mtime == mtime
                &&& entry->0.size == size
                &&& told is Some ==> entry->0.updated_at == moment_at(told->0 as i64)
                &&& told is None ==> entry->0.updated_at is None
                &&& entry->0.last_user_message == last_message(message_ids(root), store)
                &&& entry->0.message_count == refs_in(fields(root), 1).len() as usize
                &&& entry->0.workspace_path == workspace_of(root)
                &&& entry->0.provider == ProviderKind::Cursor
            }
        }),
{
    reveal_strlit("");
    assert(""@.len() == 0);
}

/// What the database holds of its session is read from pairs of digits, and an odd number of them
/// is refused.
pub proof fn law_meta_object(hex: Seq<u8>)
    ensures
        hex.len() % 2 == 1 ==> meta_object(hex) is Err,
        hex.len() % 2 == 0 && decoded(hex) is None ==> meta_object(hex) is Err,
        hex.len() % 2 == 0 && decoded(hex) is Some && json_parsed_bytes(decoded(hex)->0) is None
            ==> meta_object(hex) is Err,
        hex.len() % 2 == 0 && decoded(hex) is Some && json_parsed_bytes(decoded(hex)->0) is Some
            ==> meta_object(hex) == Ok::<JsonModel, Seq<char>>(
            json_parsed_bytes(decoded(hex)->0)->0,
        ),
{
}

// ---------------------------------------------------------------------------
// Reading
// ---------------------------------------------------------------------------

/// The messages of a snapshot are known by the digits of their hashes, in order.
pub proof fn law_message_ids(root: Seq<u8>)
    ensures
        message_ids(root).len() == refs_in(fields(root), 1).len(),
        forall|i: int|
            0 <= i < message_ids(root).len() ==> #[trigger] message_ids(root)[i] == hex_text(
                refs_in(fields(root), 1)[i],
            ),
        earlier_roots(root).len() == refs_in(fields(root), 13).len(),
        forall|i: int|
            0 <= i < earlier_roots(root).len() ==> #[trigger] earlier_roots(root)[i] == hex_text(
                refs_in(fields(root), 13)[i],
            ),
{
}

/// Blobs do one after the other what each does: one that has been parsed does nothing, and one that
/// cannot be read does nothing either, but may count as parsed from then on.
pub proof fn law_blobs_in_order(
    s: ParseModel,
    ids: Seq<Seq<char>>,
    id: Seq<char>,
    store: Map<Seq<char>, Vec<u8>>,
    give_up: bool,
)
    ensures
        blobs_steps(s, Seq::empty(), store, give_up) == (s, Seq::<OpModel>::empty()),
        ({
            let (s1, before) = blobs_steps(s, ids, store, give_up);
            let now = blobs_steps(s, ids.push(id), store, give_up);
            &&& s1.seen.contains(id) ==> now == (s1, before)
            &&& !s1.seen.contains(id) && !store.contains_key(id) && !give_up ==> now == (s1, before)
            &&& !s1.seen.contains(id) && !store.contains_key(id) && give_up ==> now == (
                (ParseModel { seen: s1.seen.insert(id), ..s1 }),
                before,
            )
            &&& !s1.seen.contains(id) && store.contains_key(id) ==> {
                let (s2, more) = blob_step(s1, id, store[id]@);
                now == (s2, before + more)
            }
        }),
{
    assert(ids.push(id).drop_last() =~= ids);
}

/// The ids of several snapshots' messages are those of each, in order; where one snapshot cannot be
/// read there are none.
pub proof fn law_earlier_messages(
    roots: Seq<Seq<char>>,
    root: Seq<char>,
    store: Map<Seq<char>, Vec<u8>>,
)
    ensures
        earlier_ids(Seq::empty(), store) == Some(Seq::<Seq<char>>::empty()),
        earlier_ids(roots, store) is Some && store.contains_key(root) ==> earlier_ids(
            roots.push(root),
            store,
        ) == Some(earlier_ids(roots, store)->0 + message_ids(store[root]@)),
        earlier_ids(roots, store) is None || !store.contains_key(root) ==> earlier_ids(
            roots.push(root),
            store,
        ) is None,
{
    assert(roots.push(root).drop_last() =~= roots);
}

/// A snapshot does away with the node of the message that was being written, then shows the prompt
/// where it comes first, the messages from before each summarization, its own, and the one that is
/// being written now.
pub proof fn law_snapshot_in_order(s: ParseModel, root: Seq<u8>, store: Map<Seq<char>, Vec<u8>>)
    ensures
        s.has_pending ==> settled(s) == (
            (ParseModel { has_pending: false, ..s }),
            seq![OpModel::Remove { id: "streaming:pending"@ }],
        ),
        !s.has_pending ==> settled(s) == (s, Seq::<OpModel>::empty()),
        ({
            let earlier = earlier_ids(earlier_roots(root), store);
            let partial = payload_in(fields(root), 4);
            let (s1, gone) = settled(s);
            let (s2, prompt) = prompt_first(s1, message_ids(root), store);
            let (s3, old_ones) = if earlier is Some {
                blobs_steps(s2, earlier->0, store, false)
            } else {
                (s2, Seq::empty())
            };
            let (s4, own) = blobs_steps(s3, message_ids(root), store, true);
            let (s5, written) = if partial is Some {
                pending_ops(s4, json_parsed_bytes(partial->0))
            } else {
                (s4, Seq::empty())
            };
            snapshot_ops(s, root, store) == (s5, gone + prompt + old_ones + own + written)
        }),
{
}

/// The prompt comes first only where it is the first message, was not parsed and is the system's.
pub proof fn law_prompt_first(
    s: ParseModel,
    ids: Seq<Seq<char>>,
    store: Map<Seq<char>, Vec<u8>>,
)
    ensures
        ids.len() > 0 && !s.seen.contains(ids[0]) && store.contains_key(ids[0])
            && json_parsed_bytes(store[ids[0]]@) is Some && str_field(
            json_parsed_bytes(store[ids[0]]@)->0,
            "role"@,
        ) == Some("system"@) ==> prompt_first(s, ids, store) == blob_step(
            s,
            ids[0],
            store[ids[0]]@,
        ),
        ids.len() == 0 || s.seen.contains(ids[0]) || !store.contains_key(ids[0])
            || json_parsed_bytes(store[ids[0]]@) is None || str_field(
            json_parsed_bytes(store[ids[0]]@)->0,
            "role"@,
        ) != Some("system"@) ==> prompt_first(s, ids, store) == (s, Seq::<OpModel>::empty()),
{
}

/// The same snapshot, and one that cannot be read, changes nothing. A new one is taken in, as if
/// nothing had been read before where messages of the last one are missing.
pub proof fn law_changes_of_the_database(
    r: ReaderModel,
    root_id: Seq<char>,
    root: Seq<u8>,
    store: Map<Seq<char>, Vec<u8>>,
)
    ensures
        db_change(r, r.last_root, Some(root), store) == (r, None::<Seq<ReaderOpModel>>),
        db_change(r, root_id, None, store) == (r, None::<Seq<ReaderOpModel>>),
        root_id != r.last_root ==> ({
            let (after, told) = db_change(r, root_id, Some(root), store);
            let kept = forall|i: int|
                0 <= i < r.last_ids.len() ==> message_ids(root).contains(#[trigger] r.last_ids[i]);
            let before = if kept {
                r.state
            } else {
                ParseModel {
                    seen: Set::empty(),
                    pending: Map::empty(),
                    has_pending: false,
                    tasks: Map::empty(),
                }
            };
            let (s, ops) = snapshot_ops(before, root, store);
            &&& after.last_root == root_id
            &&& after.last_ids == message_ids(root)
            &&& after.state == s
            &&& told is Some
            &&& kept ==> told->0.len() == ops.len() && forall|i: int|
                0 <= i < ops.len() ==> #[trigger] told->0[i] == ReaderOpModel::Tree(ops[i])
            &&& !kept ==> told->0.len() == ops.len() + 2 && told->0[0] == (ReaderOpModel::Reset {
                id: None,
            }) && told->0.last() == ReaderOpModel::ResetDone && forall|i: int|
                0 < i <= ops.len() ==> #[trigger] told->0[i] == ReaderOpModel::Tree(ops[i - 1])
        }),
{
}

// ---------------------------------------------------------------------------
// Notices
// ---------------------------------------------------------------------------

proof fn lemma_status_words()
    ensures
        "success"@ != "error"@ && "success"@ != "failure"@ && "success"@ != "failed"@,
        "completed"@ != "error"@ && "completed"@ != "failure"@ && "completed"@ != "failed"@,
        "cancelled"@ != "success"@ && "cancelled"@ != "completed"@ && "cancelled"@ != "error"@
            && "cancelled"@ != "failure"@ && "cancelled"@ != "failed"@,
        "error"@ != "success"@ && "error"@ != "completed"@,
        "failure"@ != "success"@ && "failure"@ != "completed"@,
        "failed"@ != "success"@ && "failed"@ != "completed"@,
        "canceled"@ != "success"@ && "canceled"@ != "completed"@ && "canceled"@ != "error"@
            && "canceled"@ != "failure"@ && "canceled"@ != "failed"@,
        "aborted"@ != "success"@ && "aborted"@ != "completed"@ && "aborted"@ != "error"@
            && "aborted"@ != "failure"@ && "aborted"@ != "failed"@,
        "Failed"@ != "Completed"@ && "Failed"@ != "Cancelled"@ && "Failed"@ != "Finished"@,
{
    reveal_strlit("success");
    reveal_strlit("completed");
    reveal_strlit("error");
    reveal_strlit("failure");
    reveal_strlit("failed");
    reveal_strlit("cancelled");
    reveal_strlit("canceled");
    reveal_strlit("aborted");
    reveal_strlit("Failed");
    reveal_strlit("Completed");
    reveal_strlit("Cancelled");
    reveal_strlit("Finished");
    assert("success"@.len() == 7 && "completed"@.len() == 9 && "error"@.len() == 5);
    assert("failure"@.len() == 7 && "failed"@.len() == 6 && "cancelled"@.len() == 9);
    assert("canceled"@.len() == 8 && "aborted"@.len() == 7);
    assert("Failed"@.len() == 6 && "Completed"@.len() == 9 && "Cancelled"@.len() == 9);
    assert("Finished"@.len() == 8);
    assert("success"@[0] == 's' && "failure"@[0] == 'f' && "aborted"@[0] == 'a');
    assert("completed"@[1] == 'o' && "cancelled"@[1] == 'a');
}

/// A task that succeeded is told as completed, one that did not as failed, and one that was stopped
/// as cancelled; one of which nothing is known as finished.
pub proof fn law_status_labels()
    ensures
        status_label("success"@) == "Completed"@,
        status_label("completed"@) == "Completed"@,
        status_label("error"@) == "Failed"@,
        status_label("failure"@) == "Failed"@,
        status_label("failed"@) == "Failed"@,
        status_label("cancelled"@) == "Cancelled"@,
        status_label("canceled"@) == "Cancelled"@,
        status_label("aborted"@) == "Cancelled"@,
{
    lemma_status_words();
}

/// A notice needs a title. It tells the title, the task's id, how the task ended, whether that is a
/// failure, the detail where there is one, and what follows the header lines.
pub proof fn law_task_notice(task: Seq<char>)
    ensures
        ({
            let (found, end) = headers(task, 0, Map::empty());
            let told = task_notice(task);
            &&& !found.contains_key("title"@) || found["title"@].len() == 0 ==> told is None
            &&& found.contains_key("title"@) && found["title"@].len() > 0 ==> {
                &&& told is Some
                &&& told->0.title == found["title"@]
                &&& found.contains_key("task_id"@) ==> told->0.task_id == Some(found["task_id"@])
                &&& !found.contains_key("task_id"@) ==> told->0.task_id is None
                &&& found.contains_key("status"@) ==> told->0.label == status_label(found["status"@])
                &&& found.contains_key("status"@) && (found["status"@] == "error"@
                    || found["status"@] == "failure"@ || found["status"@] == "failed"@)
                    ==> told->0.is_error
                &&& found.contains_key("status"@) && (found["status"@] == "success"@
                    || found["status"@] == "completed"@ || found["status"@] == "cancelled"@
                    || found["status"@] == "canceled"@ || found["status"@] == "aborted"@)
                    ==> !told->0.is_error
                &&& found.contains_key("detail"@) && found["detail"@].len() > 0 ==> told->0.detail
                    == Some(found["detail"@])
                &&& !found.contains_key("detail"@) ==> told->0.detail is None
                &&& told->0.body == trimmed(task.skip(end))
            }
        }),
{
    lemma_status_words();
    law_status_labels();
}

/// A message is a notice only where it begins as one does, after white space, and holds a task.
pub proof fn law_notice(text: Seq<char>)
    ensures
        ({
            let t = trimmed_start(text);
            &&& !starts(t, "<system_notification>"@) ==> notice(text) is None
            &&& starts(t, "<system_notification>"@) && tag_text(t, "task"@) is None ==> notice(
                text,
            ) is None
            &&& starts(t, "<system_notification>"@) && tag_text(t, "task"@) is Some ==> notice(text)
                == task_notice(skip_char(tag_text(t, "task"@)->0, '\n'))
        }),
{
}

/// A header line is a known word, a colon and a blank, and a value, which is trimmed.
pub proof fn law_header_line(key: Seq<char>, value: Seq<char>)
    requires
        key == "kind"@ || key == "status"@ || key == "task_id"@ || key == "title"@ || key
            == "detail"@,
        trimmed_end(key + ": "@ + value) == key + ": "@ + value,
        forall|j: int| 0 <= j < key.len() ==> !#[trigger] occurs_at(
            key + ": "@ + value,
            ": "@,
            j,
        ),
    ensures
        header_line(key + ": "@ + value) == Some((key, trimmed(value))),
{
    let l = key + ": "@ + value;
    reveal_strlit(": ");
    assert(": "@.len() == 2);
    assert(l.subrange(key.len() as int, key.len() as int + 2) =~= ": "@);
    assert(occurs_at(l, ": "@, key.len() as int));
    lemma_first_at(l, ": "@, 0);
    assert(l.take(key.len() as int) =~= key);
    assert(l.skip(key.len() as int + 2) =~= value);
}

/// A line of another word is no header line.
pub proof fn law_other_lines(line: Seq<char>)
    ensures
        ({
            let l = trimmed_end(line);
            &&& first_at(l, ": "@, 0) is None ==> header_line(line) is None
            &&& first_at(l, ": "@, 0) is Some ==> ({
                let key = l.take(first_at(l, ": "@, 0)->0);
                key != "kind"@ && key != "status"@ && key != "task_id"@ && key != "title"@ && key
                    != "detail"@ ==> header_line(line) is None
            })
        }),
{
}

/// Header lines are read one after the other, the last of a word kept, up to the first line that is
/// none.
pub proof fn law_headers(s: Seq<char>, pos: int, found: Map<Seq<char>, Seq<char>>)
    requires
        0 <= pos <= s.len(),
    ensures
        pos == s.len() ==> headers(s, pos, found) == (found, pos),
        pos < s.len() ==> ({
            let line = s.subrange(pos, line_end(s, pos));
            &&& pos < line_end(s, pos) <= s.len()
            &&& header_line(line) is None ==> headers(s, pos, found) == (found, pos)
            &&& header_line(line) is Some ==> headers(s, pos, found) == headers(
                s,
                line_end(s, pos),
                found.insert((header_line(line)->0).0, (header_line(line)->0).1),
            )
        }),
{
    lemma_next_char(s, '\n', pos);
}

// ---------------------------------------------------------------------------
// Times
// ---------------------------------------------------------------------------

/// A zone ahead of UTC has a positive offset of its hours and minutes, and one behind it the
/// negative one.
pub proof fn law_zone_offset(digits: Seq<char>, hours: int)
    requires
        first_at(digits, seq![':'], 0) is None,
        int_value(digits) == Some(hours),
        -24 < hours < 24,
    ensures
        zone_offset(seq!['+'] + digits) == Some(hours * 3600),
        zone_offset(seq!['-'] + digits) == Some(-hours * 3600),
{
    assert((seq!['+'] + digits).skip(1) =~= digits);
    assert((seq!['-'] + digits).skip(1) =~= digits);
}

/// Minutes of a zone follow a colon and count as sixty seconds each, in the direction of the zone.
pub proof fn law_zone_minutes(h: Seq<char>, m: Seq<char>, hours: int, minutes: int)
    requires
        first_at(h + seq![':'] + m, seq![':'], 0) == Some(h.len() as int),
        int_value(h) == Some(hours),
        int_value(m) == Some(minutes),
        -86_400 < hours * 3600 + minutes * 60 < 86_400,
    ensures
        zone_offset(seq!['+'] + (h + seq![':'] + m)) == Some(hours * 3600 + minutes * 60),
        zone_offset(seq!['-'] + (h + seq![':'] + m)) == Some(-(hours * 3600 + minutes * 60)),
{
    let digits = h + seq![':'] + m;
    assert((seq!['+'] + digits).skip(1) =~= digits);
    assert((seq!['-'] + digits).skip(1) =~= digits);
    assert(digits.take(h.len() as int) =~= h);
    assert(digits.skip(h.len() as int + 1) =~= m);
}

/// A zone without a sign is none.
pub proof fn law_zone_needs_a_sign(s: Seq<char>)
    requires
        s.len() == 0 || (s[0] != '+' && s[0] != '-'),
    ensures
        zone_offset(s) is None,
{
}

/// A local time at a place ahead of UTC is an earlier instant by as much as the place is ahead.
pub proof fn law_instants(local: i64, offset: i32)
    ensures
        instant_of_local(local, offset) is Some ==> instant_of_local(local, offset)->0 + offset
            == local,
        instant_of_local(local, 0) is Some ==> instant_of_local(local, 0)->0 == local,
{
}

/// A timestamp is the local time before the zone, taken at the zone's offset; without a zone, or
/// with a date that cannot be read, there is none.
pub proof fn law_timestamps(date: Seq<char>, zone: Seq<char>, offset: int, local: i64)
    requires
        last_at(date + zone, "(UTC"@, (date + zone).len() - "(UTC"@.len()) == Some(
            date.len() as int,
        ),
        zone_offset(zone_text(zone)) == Some(offset),
    ensures
        local_seconds(date_text(date), date_format()) is None ==> timestamp_of(date + zone) is None,
        local_seconds(date_text(date), date_format()) == Some(local) ==> ({
            let told = timestamp_of(date + zone);
            &&& told is Some <==> instant_of_local(local, offset as i32) is Some
            &&& told is Some ==> told->0.offset_seconds == offset as i32
            &&& told is Some ==> told->0.utc_seconds + (offset as i32) == local
        }),
{
    let s = date + zone;
    assert(s.take(date.len() as int) =~= date);
    assert(s.skip(date.len() as int) =~= zone);
}

/// A text that names no zone is no timestamp.
pub proof fn law_no_zone(s: Seq<char>)
    ensures
        last_at(s, "(UTC"@, s.len() - "(UTC"@.len()) is None ==> timestamp_of(s) is None,
        date_format() == "%B %-d, %Y, %I:%M %p"@,
{
}

/// The zone is read between its brackets, behind its name; the date behind the day of the week and
/// its comma, where there is one.
pub proof fn law_parts_of_a_timestamp(s: Seq<char>)
    ensures
        zone_text(s) == skip_words(drop_char(skip_char(s, '('), ')'), "UTC"@),
        first_at(trimmed(s), ", "@, 0) is None ==> date_text(s) == trimmed(s),
        first_at(trimmed(s), ", "@, 0) is Some ==> trimmed(s) == trimmed(s).take(
            first_at(trimmed(s), ", "@, 0)->0,
        ) + ", "@ + date_text(s),
{
    reveal_strlit(", ");
    assert(", "@.len() == 2);
    let all = trimmed(s);
    lemma_first_at(all, ", "@, 0);
    if let Some(i) = first_at(all, ", "@, 0) {
        assert(all.subrange(i, i + 2) == ", "@);
        assert(all =~= all.take(i) + ", "@ + all.skip(i + 2));
    }
}

} // verus!
