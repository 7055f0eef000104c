//! What holds of sessions as a whole.
use crate::cursor::hex::{ascii_bytes, hex_text, law_hex_round_trip};
use crate::cursor::message::{
    blob_ops, blocks_ops, known_id, message_ops, pending_ops, results_ops, content_items,
    ParseModel,
};
use crate::cursor::reader::{all_among, blob_in, blobs_steps, db_change, message_ids, ReaderModel};
use crate::json::{json_parsed_bytes, JsonModel};
use crate::tree::{OpModel, ReaderOpModel};
use vstd::prelude::*;
use vstd::utf8::{encode_utf8, is_ascii_chars, is_ascii_chars_encode_utf8};

verus! {

proof fn lemma_hex_is_ascii(bytes: Seq<u8>)
    ensures
        is_ascii_chars(hex_text(bytes)),
    decreases bytes.len(),
{
    if bytes.len() > 0 {
        lemma_hex_is_ascii(bytes.drop_last());
    }
}

/// A blob is known by the id that its hash is written as.
pub proof fn law_id_is_known(hash: Seq<u8>)
    requires
        hash.len() == 32,
    ensures
        known_id(encode_utf8(hex_text(hash))) == Some(hex_text(hash)),
{
    let id = hex_text(hash);
    lemma_hex_is_ascii(hash);
    law_hex_round_trip(hash);
    is_ascii_chars_encode_utf8(id);
    assert(encode_utf8(id) =~= ascii_bytes(id));
}

proof fn lemma_blocks_keep_seen(s: ParseModel, hex: Seq<char>, blocks: Seq<JsonModel>)
    ensures
        blocks_ops(s, hex, blocks).0.seen == s.seen,
    decreases blocks.len(),
{
    if blocks.len() > 0 {
        lemma_blocks_keep_seen(s, hex, blocks.drop_last());
    }
}

proof fn lemma_results_keep_seen(s: ParseModel, obj: JsonModel, blocks: Seq<JsonModel>)
    ensures
        results_ops(s, obj, blocks).0.seen == s.seen,
    decreases blocks.len(),
{
    if blocks.len() > 0 {
        lemma_results_keep_seen(s, obj, blocks.drop_last());
    }
}

/// Parsing a message marks no blob as parsed and forgets none.
pub proof fn law_message_keeps_seen(s: ParseModel, obj: JsonModel, hex: Seq<char>)
    ensures
        message_ops(s, obj, hex).0.seen == s.seen,
{
    lemma_blocks_keep_seen(s, hex, content_items(obj));
    lemma_results_keep_seen(s, obj, content_items(obj));
}

/// A blob is parsed once: the second time it does nothing.
pub proof fn law_blob_parsed_once(
    s: ParseModel,
    id: Seq<char>,
    bytes: Seq<u8>,
    data: Option<JsonModel>,
    again: Option<JsonModel>,
)
    requires
        known_id(bytes) is Some,
    ensures
        ({
            let after = blob_ops(s, id, bytes, data).0;
            &&& after.seen.contains(known_id(bytes)->0)
            &&& blob_ops(after, id, bytes, again) == (after, Seq::<OpModel>::empty())
        }),
{
    let known = known_id(bytes)->0;
    if !s.seen.contains(known) {
        let s1 = ParseModel { seen: s.seen.insert(known), ..s };
        if let Some(obj) = data {
            law_message_keeps_seen(s1, obj, crate::cursor::message::short_id(id));
        }
    }
}

/// Each id is the text of a hash.
pub open spec fn proper_ids(ids: Seq<Seq<char>>) -> bool {
    forall|i: int|
        0 <= i < ids.len() ==> known_id(encode_utf8(#[trigger] ids[i])) == Some(ids[i])
}

proof fn lemma_blobs_seen(
    s: ParseModel,
    ids: Seq<Seq<char>>,
    store: Map<Seq<char>, Vec<u8>>,
)
    requires
        proper_ids(ids),
    ensures
        s.seen.subset_of(blobs_steps(s, ids, store, true).0.seen),
        forall|i: int|
            0 <= i < ids.len() ==> blobs_steps(s, ids, store, true).0.seen.contains(
                #[trigger] ids[i],
            ),
    decreases ids.len(),
{
    if ids.len() > 0 {
        let front = ids.drop_last();
        assert forall|i: int| 0 <= i < front.len() implies known_id(
            encode_utf8(#[trigger] front[i]),
        ) == Some(front[i]) by {
            assert(front[i] == ids[i]);
        }
        lemma_blobs_seen(s, front, store);
        let s1 = blobs_steps(s, front, store, true).0;
        let s2 = blobs_steps(s, ids, store, true).0;
        let id = ids.last();
        assert(known_id(encode_utf8(ids[ids.len() - 1])) == Some(id));
        if !s1.seen.contains(id) {
            if let Some(data) = blob_in(store, id) {
                law_blob_parsed_once(
                    s1,
                    id,
                    encode_utf8(id),
                    json_parsed_bytes(data),
                    None,
                );
                let marked = ParseModel { seen: s1.seen.insert(id), ..s1 };
                if let Some(obj) = json_parsed_bytes(data) {
                    law_message_keeps_seen(marked, obj, crate::cursor::message::short_id(id));
                }
            }
        }
        assert(s1.seen.subset_of(s2.seen));
        assert forall|i: int| 0 <= i < ids.len() implies s2.seen.contains(#[trigger] ids[i]) by {
            if i < front.len() {
                assert(s1.seen.contains(front[i]));
            }
        }
    }
}

proof fn lemma_seen_blobs_idle(
    s: ParseModel,
    ids: Seq<Seq<char>>,
    store: Map<Seq<char>, Vec<u8>>,
)
    requires
        forall|i: int| 0 <= i < ids.len() ==> s.seen.contains(#[trigger] ids[i]),
    ensures
        blobs_steps(s, ids, store, true) == (s, Seq::<OpModel>::empty()),
    decreases ids.len(),
{
    if ids.len() > 0 {
        let front = ids.drop_last();
        assert forall|i: int| 0 <= i < front.len() implies s.seen.contains(#[trigger] front[i]) by {
            assert(front[i] == ids[i]);
        }
        lemma_seen_blobs_idle(s, front, store);
        assert(s.seen.contains(ids[ids.len() - 1]));
    }
}

/// The messages of a snapshot are handed on once: reading them again hands on nothing, whatever
/// the database then holds.
pub proof fn law_messages_once(
    s: ParseModel,
    ids: Seq<Seq<char>>,
    store: Map<Seq<char>, Vec<u8>>,
    later: Map<Seq<char>, Vec<u8>>,
)
    requires
        proper_ids(ids),
    ensures
        ({
            let after = blobs_steps(s, ids, store, true).0;
            blobs_steps(after, ids, later, true) == (after, Seq::<OpModel>::empty())
        }),
{
    lemma_blobs_seen(s, ids, store);
    lemma_seen_blobs_idle(blobs_steps(s, ids, store, true).0, ids, later);
}

/// A session that only grows is not reset; one that lost messages is reset first and complete
/// last, and parsed anew.
pub proof fn law_reset_on_loss(
    r: ReaderModel,
    root_id: Seq<char>,
    root: Seq<u8>,
    store: Map<Seq<char>, Vec<u8>>,
)
    requires
        root_id != r.last_root,
    ensures
        ({
            let ops = db_change(r, root_id, Some(root), store).1;
            &&& ops is Some
            &&& if all_among(r.last_ids, message_ids(root)) {
                forall|i: int| 0 <= i < ops->0.len() ==> (#[trigger] ops->0[i]) is Tree
            } else {
                &&& ops->0.len() >= 2
                &&& ops->0[0] == ReaderOpModel::Reset { id: None }
                &&& ops->0.last() == ReaderOpModel::ResetDone
                &&& forall|i: int| 0 < i < ops->0.len() - 1 ==> (#[trigger] ops->0[i]) is Tree
            }
        }),
{
}

/// The node of the message that is being written is there exactly while the state says so: it is
/// appended only when it is not there, and replaced or removed only when it is.
pub proof fn law_one_pending_node(s: ParseModel, data: Option<JsonModel>)
    ensures
        ({
            let (after, ops) = pending_ops(s, data);
            &&& ops.len() <= 1
            &&& ops.len() == 0 ==> after.has_pending == s.has_pending
            &&& ops.len() == 1 ==> match ops[0] {
                OpModel::Append { .. } => !s.has_pending && after.has_pending,
                OpModel::Replace { .. } => s.has_pending && after.has_pending,
                OpModel::Remove { .. } => s.has_pending && !after.has_pending,
                OpModel::Update { .. } => false,
            }
        }),
{
}

} // verus!
