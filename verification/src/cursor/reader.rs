//! Reading a session and following it while it changes.
use crate::cursor::hex::{bytes_to_hex, hex_text};
use crate::cursor::message::{
    blob_ops, empty_state, parse_blob, parse_pending_blob, pending_ops, ParseModel, ParseState,
};
use crate::cursor::proto::{
    extract_field13_refs, extract_field1_blobs, extract_field4_bytes, fields, hash_views, payload_in,
    refs_in,
};
use crate::json::{json_parsed_bytes, parse_json_bytes, str_field};
use crate::text::{same_text, views};
use crate::tree::{op_views, reader_op_views, OpModel, ReaderOp, ReaderOpModel, TreeOperation};
use vstd::hash_map::StringHashMap;
use vstd::prelude::*;
use vstd::string::*;
use vstd::utf8::{encode_utf8, is_ascii_chars};

verus! {

broadcast use vstd::string::group_string_axioms;

/// Blobs of the database by their ids; a blob that could not be read is not there.
pub type BlobStore = StringHashMap<Vec<u8>>;

/// The blob `id`.
pub open spec fn blob_in(store: Map<Seq<char>, Vec<u8>>, id: Seq<char>) -> Option<Seq<u8>> {
    if store.contains_key(id) {
        Some(store[id]@)
    } else {
        None
    }
}

/// The ids of hashes.
pub open spec fn ids_of(hashes: Seq<Seq<u8>>) -> Seq<Seq<char>> {
    hashes.map_values(|h: Seq<u8>| hex_text(h))
}

/// The ids of the messages of a snapshot.
pub open spec fn message_ids(root: Seq<u8>) -> Seq<Seq<char>> {
    ids_of(refs_in(fields(root), 1))
}

/// The ids of the snapshots from before each summarization.
pub open spec fn earlier_roots(root: Seq<u8>) -> Seq<Seq<char>> {
    ids_of(refs_in(fields(root), 13))
}

/// The ids of the messages of several snapshots, in order; `None` where one of these cannot be
/// read.
pub open spec fn earlier_ids(roots: Seq<Seq<char>>, store: Map<Seq<char>, Vec<u8>>) -> Option<
    Seq<Seq<char>>,
>
    decreases roots.len(),
{
    if roots.len() == 0 {
        Some(Seq::empty())
    } else {
        match (earlier_ids(roots.drop_last(), store), blob_in(store, roots.last())) {
            (Some(front), Some(data)) => Some(front + message_ids(data)),
            _ => None,
        }
    }
}

/// What the blob `id` does.
pub open spec fn blob_step(s: ParseModel, id: Seq<char>, data: Seq<u8>) -> (
    ParseModel,
    Seq<OpModel>,
) {
    blob_ops(s, id, encode_utf8(id), json_parsed_bytes(data))
}

/// What blobs do, one after the other: those that have been parsed are passed over, and so are
/// those that cannot be read; with `give_up` these count as parsed.
pub open spec fn blobs_steps(
    s: ParseModel,
    ids: Seq<Seq<char>>,
    store: Map<Seq<char>, Vec<u8>>,
    give_up: bool,
) -> (ParseModel, Seq<OpModel>)
    decreases ids.len(),
{
    if ids.len() == 0 {
        (s, Seq::empty())
    } else {
        let (s1, before) = blobs_steps(s, ids.drop_last(), store, give_up);
        let id = ids.last();
        if s1.seen.contains(id) {
            (s1, before)
        } else {
            match blob_in(store, id) {
                Some(data) => {
                    let (s2, more) = blob_step(s1, id, data);
                    (s2, before + more)
                },
                None => if give_up {
                    (ParseModel { seen: s1.seen.insert(id), ..s1 }, before)
                } else {
                    (s1, before)
                },
            }
        }
    }
}

/// The message that was being written is there now: its node goes.
pub open spec fn settled(s: ParseModel) -> (ParseModel, Seq<OpModel>) {
    if s.has_pending {
        (
            ParseModel { has_pending: false, ..s },
            seq![OpModel::Remove { id: "streaming:pending"@ }],
        )
    } else {
        (s, Seq::empty())
    }
}

/// The system prompt, where it is the first message, comes before everything else.
pub open spec fn prompt_first(
    s: ParseModel,
    ids: Seq<Seq<char>>,
    store: Map<Seq<char>, Vec<u8>>,
) -> (ParseModel, Seq<OpModel>) {
    if ids.len() > 0 && !s.seen.contains(ids[0]) {
        match blob_in(store, ids[0]) {
            Some(data) => match json_parsed_bytes(data) {
                Some(obj) => if str_field(obj, "role"@) == Some("system"@) {
                    blob_step(s, ids[0], data)
                } else {
                    (s, Seq::empty())
                },
                None => (s, Seq::empty()),
            },
            None => (s, Seq::empty()),
        }
    } else {
        (s, Seq::empty())
    }
}

/// What a snapshot does: the prompt, the messages from before each summarization, its own
/// messages, and the one that is still being written.
pub open spec fn snapshot_ops(s: ParseModel, root: Seq<u8>, store: Map<Seq<char>, Vec<u8>>) -> (
    ParseModel,
    Seq<OpModel>,
) {
    let ids = message_ids(root);
    let (s1, o1) = settled(s);
    let (s2, o2) = prompt_first(s1, ids, store);
    let (s3, o3) = match earlier_ids(earlier_roots(root), store) {
        Some(earlier) => blobs_steps(s2, earlier, store, false),
        None => (s2, Seq::empty()),
    };
    let (s4, o4) = blobs_steps(s3, ids, store, true);
    let (s5, o5) = match payload_in(fields(root), 4) {
        Some(partial) => pending_ops(s4, json_parsed_bytes(partial)),
        None => (s4, Seq::empty()),
    };
    (s5, o1 + o2 + o3 + o4 + o5)
}

/// The state of reading one session.
pub struct CursorReader {
    pub state: ParseState,
    /// The ids of the messages of the last snapshot.
    pub last_field1_hashes: Vec<String>,
    /// The id of the last snapshot.
    pub last_root_id: String,
}

/// What a `CursorReader` holds.
#[verifier::ext_equal]
pub struct ReaderModel {
    pub state: ParseModel,
    pub last_ids: Seq<Seq<char>>,
    pub last_root: Seq<char>,
}

impl View for CursorReader {
    type V = ReaderModel;

    open spec fn view(&self) -> ReaderModel {
        ReaderModel {
            state: self.state@,
            last_ids: views(self.last_field1_hashes@),
            last_root: self.last_root_id@,
        }
    }
}

/// The reader after a snapshot, and what it hands on. A snapshot that cannot be read does nothing.
pub open spec fn collected(
    r: ReaderModel,
    root: Option<Seq<u8>>,
    store: Map<Seq<char>, Vec<u8>>,
) -> (ReaderModel, Seq<OpModel>) {
    match root {
        Some(data) => {
            let (s, ops) = snapshot_ops(r.state, data, store);
            (ReaderModel { state: s, last_ids: message_ids(data), ..r }, ops)
        },
        None => (r, Seq::empty()),
    }
}

/// Whether each of `a` is among `b`.
pub open spec fn all_among(a: Seq<Seq<char>>, b: Seq<Seq<char>>) -> bool {
    forall|i: int| 0 <= i < a.len() ==> b.contains(#[trigger] a[i])
}

/// Changes of the tree as operations of the reader.
pub open spec fn tree_ops(ops: Seq<OpModel>) -> Seq<ReaderOpModel> {
    ops.map_values(|op: OpModel| ReaderOpModel::Tree(op))
}

/// What a change of the database does: nothing where the snapshot is the same or cannot be read.
/// Where messages of the last snapshot are missing, the session was rewound: all is parsed again.
pub open spec fn db_change(
    r: ReaderModel,
    root_id: Seq<char>,
    root: Option<Seq<u8>>,
    store: Map<Seq<char>, Vec<u8>>,
) -> (ReaderModel, Option<Seq<ReaderOpModel>>) {
    if root_id == r.last_root || root is None {
        (r, None)
    } else {
        let rewind = !all_among(r.last_ids, message_ids(root->0));
        let r1 = if rewind {
            ReaderModel { state: empty_state(), last_ids: Seq::empty(), last_root: root_id }
        } else {
            ReaderModel { last_root: root_id, ..r }
        };
        let (r2, ops) = collected(r1, root, store);
        if rewind {
            (
                r2,
                Some(
                    seq![ReaderOpModel::Reset { id: None }] + tree_ops(ops)
                        + seq![ReaderOpModel::ResetDone],
                ),
            )
        } else {
            (r2, Some(tree_ops(ops)))
        }
    }
}

// ---------------------------------------------------------------------------
// Ids
// ---------------------------------------------------------------------------

proof fn lemma_hex_ascii(bytes: Seq<u8>)
    ensures
        is_ascii_chars(hex_text(bytes)),
    decreases bytes.len(),
{
    if bytes.len() > 0 {
        lemma_hex_ascii(bytes.drop_last());
    }
}

fn id_list(hashes: &Vec<[u8; 32]>) -> (r: Vec<String>)
    ensures
        views(r@) == ids_of(hash_views(hashes@)),
        forall|i: int| 0 <= i < r@.len() ==> is_ascii_chars((#[trigger] r@[i])@),
{
    let mut out: Vec<String> = Vec::new();
    let mut i: usize = 0;
    while i < hashes.len()
        invariant
            i <= hashes@.len(),
            out@.len() == i,
            forall|k: int| 0 <= k < i ==> (#[trigger] out@[k])@ == hex_text(hashes@[k]@),
        decreases hashes@.len() - i,
    {
        out.push(bytes_to_hex(&hashes[i]));
        i = i + 1;
    }
    assert(views(out@) =~= ids_of(hash_views(hashes@)));
    assert forall|i: int| 0 <= i < out@.len() implies is_ascii_chars((#[trigger] out@[i])@) by {
        lemma_hex_ascii(hashes@[i]@);
    }
    out
}

/// The ids of the messages of a snapshot.
pub fn list_message_ids(root: &[u8]) -> (r: Vec<String>)
    ensures
        views(r@) == message_ids(root@),
        forall|i: int| 0 <= i < r@.len() ==> is_ascii_chars((#[trigger] r@[i])@),
{
    id_list(&extract_field1_blobs(root))
}

/// The ids of the snapshots from before each summarization.
pub fn list_earlier_roots(root: &[u8]) -> (r: Vec<String>)
    ensures
        views(r@) == earlier_roots(root@),
{
    id_list(&extract_field13_refs(root))
}

fn list_earlier_ids(roots: &Vec<String>, store: &BlobStore) -> (r: Option<Vec<String>>)
    ensures
        match r {
            Some(ids) => earlier_ids(views(roots@), store@) == Some(views(ids@)) && forall|i: int|
                0 <= i < ids@.len() ==> is_ascii_chars((#[trigger] ids@[i])@),
            None => earlier_ids(views(roots@), store@) is None,
        },
{
    let ghost all = views(roots@);
    let mut out: Vec<String> = Vec::new();
    let mut i: usize = 0;
    assert(views(out@) =~= Seq::<Seq<char>>::empty());
    while i < roots.len()
        invariant
            i <= roots@.len(),
            all == views(roots@),
            earlier_ids(all.take(i as int), store@) == Some(views(out@)),
            forall|k: int| 0 <= k < out@.len() ==> is_ascii_chars((#[trigger] out@[k])@),
        decreases roots@.len() - i,
    {
        proof {
            assert(all.take(i + 1).drop_last() =~= all.take(i as int));
            assert(all.take(i + 1).last() == roots@[i as int]@);
        }
        match store.get(roots[i].as_str()) {
            Some(data) => {
                let ghost before = out@;
                let mut more = list_message_ids(data.as_slice());
                let ghost added = more@;
                out.append(&mut more);
                assert(views(out@) =~= views(before) + views(added));
            },
            None => {
                proof {
                    lemma_earlier_none(all, i + 1, store@);
                }
                return None;
            },
        }
        i = i + 1;
    }
    assert(all.take(roots@.len() as int) =~= all);
    Some(out)
}

proof fn lemma_earlier_none(roots: Seq<Seq<char>>, k: int, store: Map<Seq<char>, Vec<u8>>)
    requires
        0 <= k <= roots.len(),
        earlier_ids(roots.take(k), store) is None,
    ensures
        earlier_ids(roots, store) is None,
    decreases roots.len() - k,
{
    if k == roots.len() {
        assert(roots.take(k) =~= roots);
    } else {
        assert(roots.take(k + 1).drop_last() =~= roots.take(k));
        lemma_earlier_none(roots, k + 1, store);
    }
}

// ---------------------------------------------------------------------------
// Snapshots
// ---------------------------------------------------------------------------

fn parse_known(id: &String, data: &Vec<u8>, state: &mut ParseState) -> (r: Vec<TreeOperation>)
    requires
        is_ascii_chars(id@),
    ensures
        (final(state)@, op_views(r@)) == blob_step(old(state)@, id@, data@),
{
    let text = id.as_str();
    parse_blob(text, data.as_slice(), state)
}

fn parse_blobs(
    ids: &Vec<String>,
    store: &BlobStore,
    give_up: bool,
    state: &mut ParseState,
    out: &mut Vec<TreeOperation>,
)
    requires
        forall|i: int| 0 <= i < ids@.len() ==> is_ascii_chars((#[trigger] ids@[i])@),
    ensures
        final(state)@ == blobs_steps(old(state)@, views(ids@), store@, give_up).0,
        op_views(final(out)@) == op_views(old(out)@) + blobs_steps(
            old(state)@,
            views(ids@),
            store@,
            give_up,
        ).1,
{
    let ghost all = views(ids@);
    let ghost s0 = state@;
    let ghost start = op_views(out@);
    let mut i: usize = 0;
    assert(start + blobs_steps(s0, all.take(0), store@, give_up).1 =~= start);
    while i < ids.len()
        invariant
            i <= ids@.len(),
            all == views(ids@),
            forall|k: int| 0 <= k < ids@.len() ==> is_ascii_chars((#[trigger] ids@[k])@),
            state@ == blobs_steps(s0, all.take(i as int), store@, give_up).0,
            op_views(out@) == start + blobs_steps(s0, all.take(i as int), store@, give_up).1,
        decreases ids@.len() - i,
    {
        proof {
            assert(all.take(i + 1).drop_last() =~= all.take(i as int));
            assert(all.take(i + 1).last() == ids@[i as int]@);
        }
        if !state.seen_blobs.contains(ids[i].as_str()) {
            match store.get(ids[i].as_str()) {
                Some(data) => {
                    let ghost before = op_views(out@);
                    let ghost so_far = blobs_steps(s0, all.take(i as int), store@, give_up).1;
                    let mut more = parse_known(&ids[i], data, state);
                    let ghost added = op_views(more@);
                    out.append(&mut more);
                    assert(op_views(out@) =~= before + added);
                    assert((start + so_far) + added =~= start + (so_far + added));
                },
                None => {
                    if give_up {
                        let ghost s1 = state@;
                        let _ = state.seen_blobs.insert(ids[i].clone());
                        assert(state@ =~= (ParseModel { seen: s1.seen.insert(all[i as int]), ..s1 }));
                    }
                },
            }
        }
        i = i + 1;
    }
    assert(all.take(ids@.len() as int) =~= all);
}

fn parse_prompt(ids: &Vec<String>, store: &BlobStore, state: &mut ParseState) -> (r: Vec<
    TreeOperation,
>)
    requires
        forall|i: int| 0 <= i < ids@.len() ==> is_ascii_chars((#[trigger] ids@[i])@),
    ensures
        (final(state)@, op_views(r@)) == prompt_first(old(state)@, views(ids@), store@),
{
    let none: Vec<TreeOperation> = Vec::new();
    assert(op_views(none@) =~= Seq::<OpModel>::empty());
    assert(views(ids@).len() == ids@.len());
    if ids.len() == 0 || state.seen_blobs.contains(ids[0].as_str()) {
        return none;
    }
    assert(views(ids@)[0] == ids@[0]@);
    match store.get(ids[0].as_str()) {
        Some(data) => match parse_json_bytes(data.as_slice()) {
            Some(obj) => {
                let system = match obj.get_str("role") {
                    Some(role) => same_text(role, "system"),
                    None => false,
                };
                if system {
                    parse_known(&ids[0], data, state)
                } else {
                    none
                }
            },
            None => none,
        },
        None => none,
    }
}

fn parse_snapshot(root: &[u8], store: &BlobStore, state: &mut ParseState) -> (r: Vec<TreeOperation>)
    ensures
        (final(state)@, op_views(r@)) == snapshot_ops(old(state)@, root@, store@),
{
    let ids = list_message_ids(root);
    let mut out: Vec<TreeOperation> = Vec::new();
    assert(op_views(out@) =~= Seq::<OpModel>::empty());
    let ghost (s1, o1) = settled(state@);
    if state.has_pending {
        state.has_pending = false;
        out.push(TreeOperation::Remove { id: "streaming:pending".to_owned() });
    }
    assert(op_views(out@) =~= o1);
    assert(state@ =~= s1);
    let ghost (s2, o2) = prompt_first(s1, views(ids@), store@);
    let mut prompt = parse_prompt(&ids, store, state);
    out.append(&mut prompt);
    assert(op_views(out@) =~= o1 + o2);
    let ghost (s3, o3) = match earlier_ids(earlier_roots(root@), store@) {
        Some(earlier) => blobs_steps(s2, earlier, store@, false),
        None => (s2, Seq::empty()),
    };
    let roots = list_earlier_roots(root);
    match list_earlier_ids(&roots, store) {
        Some(earlier) => {
            parse_blobs(&earlier, store, false, state, &mut out);
        },
        None => {},
    }
    assert(op_views(out@) =~= o1 + o2 + o3);
    parse_blobs(&ids, store, true, state, &mut out);
    let ghost o4 = blobs_steps(s3, views(ids@), store@, true).1;
    assert(op_views(out@) =~= o1 + o2 + o3 + o4);
    match extract_field4_bytes(root) {
        Some(partial) => {
            let ghost before = op_views(out@);
            let mut more = parse_pending_blob(partial.as_slice(), state);
            let ghost added = op_views(more@);
            out.append(&mut more);
            assert(op_views(out@) =~= before + added);
        },
        None => {
            assert(o1 + o2 + o3 + o4 + Seq::<OpModel>::empty() =~= o1 + o2 + o3 + o4);
        },
    }
    out
}

fn is_among(id: &str, ids: &Vec<String>) -> (r: bool)
    ensures
        r == views(ids@).contains(id@),
{
    let mut i: usize = 0;
    while i < ids.len()
        invariant
            i <= ids@.len(),
            forall|k: int| 0 <= k < i ==> (#[trigger] views(ids@)[k]) != id@,
        decreases ids@.len() - i,
    {
        if same_text(ids[i].as_str(), id) {
            assert(views(ids@)[i as int] == id@);
            return true;
        }
        i = i + 1;
    }
    assert(views(ids@).len() == ids@.len());
    false
}

fn are_among(a: &Vec<String>, b: &Vec<String>) -> (r: bool)
    ensures
        r == all_among(views(a@), views(b@)),
{
    let mut i: usize = 0;
    while i < a.len()
        invariant
            i <= a@.len(),
            forall|k: int| 0 <= k < i ==> views(b@).contains(#[trigger] views(a@)[k]),
        decreases a@.len() - i,
    {
        if !is_among(a[i].as_str(), b) {
            assert(!views(b@).contains(views(a@)[i as int]));
            return false;
        }
        i = i + 1;
    }
    assert(views(a@).len() == a@.len());
    true
}

impl CursorReader {
    /// A reader of the session whose snapshot is `root_id`.
    pub fn new(root_id: String) -> (r: Self)
        ensures
            r@ == (ReaderModel {
                state: empty_state(),
                last_ids: Seq::empty(),
                last_root: root_id@,
            }),
    {
        let r = CursorReader {
            state: ParseState::new(),
            last_field1_hashes: Vec::new(),
            last_root_id: root_id,
        };
        assert(r@.last_ids =~= Seq::<Seq<char>>::empty());
        r
    }

    /// The operations of a snapshot. `root` is the snapshot, where it can be read, and `store`
    /// holds the blobs that it needs.
    pub fn collect_ops(&mut self, root: Option<&[u8]>, store: &BlobStore) -> (r: Vec<TreeOperation>)
        ensures
            ({
                let data = match root {
                    Some(d) => Some(d@),
                    None => None,
                };
                (final(self)@, op_views(r@)) == collected(old(self)@, data, store@)
            }),
    {
        match root {
            Some(data) => {
                let ghost goal = collected(self@, Some(data@), store@);
                let ops = parse_snapshot(data, store, &mut self.state);
                self.last_field1_hashes = list_message_ids(data);
                assert(self@ =~= goal.0);
                ops
            },
            None => {
                let none: Vec<TreeOperation> = Vec::new();
                assert(op_views(none@) =~= Seq::<OpModel>::empty());
                none
            },
        }
    }

    /// What a change of the database does; `None` where there is nothing new.
    pub fn handle_db_change(&mut self, root_id: &str, root: Option<&[u8]>, store: &BlobStore) -> (r:
        Option<Vec<ReaderOp>>)
        ensures
            ({
                let data = match root {
                    Some(d) => Some(d@),
                    None => None,
                };
                let (after, ops) = db_change(old(self)@, root_id@, data, store@);
                &&& final(self)@ == after
                &&& match r {
                    Some(v) => ops == Some(reader_op_views(v@)),
                    None => ops is None,
                }
            }),
    {
        let ghost r0 = self@;
        if same_text(root_id, self.last_root_id.as_str()) {
            return None;
        }
        let data = match root {
            Some(d) => d,
            None => {
                return None;
            },
        };
        let ids = list_message_ids(data);
        let rewind = !are_among(&self.last_field1_hashes, &ids);
        self.last_root_id = root_id.to_owned();
        if rewind {
            self.state = ParseState::new();
            self.last_field1_hashes = Vec::new();
            assert(self@.last_ids =~= Seq::<Seq<char>>::empty());
        }
        let ops = self.collect_ops(root, store);
        let mut out: Vec<ReaderOp> = Vec::new();
        if rewind {
            out.push(ReaderOp::Reset { id: None });
        }
        let ghost first = reader_op_views(out@);
        let ghost all = op_views(ops@);
        let ghost source = ops@;
        assert(first + tree_ops(all.take(0)) =~= first);
        for op in it: ops
            invariant
                it.seq() == source,
                all == op_views(source),
                reader_op_views(out@) == first + tree_ops(all.take(it.index() as int)),
        {
            let ghost i = it.index() as int;
            let ghost here = out@;
            let ghost view = ReaderOpModel::Tree(op@);
            proof {
                assert(op == source[i]);
                assert(tree_ops(all.take(i + 1)) =~= tree_ops(all.take(i)).push(view));
            }
            out.push(ReaderOp::Tree(op));
            assert(reader_op_views(out@) =~= reader_op_views(here).push(view));
            assert((first + tree_ops(all.take(i))).push(view) =~= first + tree_ops(
                all.take(i),
            ).push(view));
        }
        assert(all.take(all.len() as int) =~= all);
        if rewind {
            let ghost here = out@;
            out.push(ReaderOp::ResetDone);
            assert(reader_op_views(out@) =~= reader_op_views(here).push(ReaderOpModel::ResetDone));
            assert(first =~= seq![ReaderOpModel::Reset { id: None }]);
            assert(reader_op_views(out@) =~= seq![ReaderOpModel::Reset { id: None }] + tree_ops(all)
                + seq![ReaderOpModel::ResetDone]);
        } else {
            assert(reader_op_views(out@) =~= tree_ops(all));
        }
        Some(out)
    }
}

} // verus!
