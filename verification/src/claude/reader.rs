//! Reading a transcript and following it while it grows.
use crate::claude::lines::{
    find_line_end, lemma_line_end, lemma_next_feed, line_end, line_text, next_feed, read_line,
};
use crate::claude::message::{
    any_result, at, empty_state, entry_steps, has_result, parse_entry_value, step_views, ParseModel,
    ParseState, ParseStep, StepModel,
};
use crate::claude::path::{
    backward_from, forward_step, fresh_path, ForwardPathResult, MessageNode, MessagePath, NodeModel,
    PathModel,
};
use crate::json::{json_parsed, parse_json, str_field, Json, JsonModel};
use crate::tree::{text_opt, ReaderOp, ReaderOpModel};
use vstd::prelude::*;

verus! {

broadcast use vstd::string::group_string_axioms;

// ---------------------------------------------------------------------------
// Entries
// ---------------------------------------------------------------------------

/// An entry of a transcript and where its line starts.
#[derive(Debug, PartialEq)]
pub struct Entry {
    pub offset: usize,
    pub value: Json,
}

/// What an `Entry` holds.
pub struct EntryModel {
    pub offset: usize,
    pub value: JsonModel,
}

impl View for Entry {
    type V = EntryModel;

    open spec fn view(&self) -> EntryModel {
        EntryModel { offset: self.offset, value: self.value@ }
    }
}

/// The views of a sequence of entries.
pub open spec fn entry_views(entries: Seq<Entry>) -> Seq<EntryModel> {
    entries.map_values(|e: Entry| e@)
}

/// The id that an entry follows.
pub open spec fn parent_of(obj: JsonModel) -> Option<Seq<char>> {
    match str_field(obj, "parentUuid"@) {
        Some(p) => Some(p),
        None => str_field(obj, "logicalParentUuid"@),
    }
}

/// Whether an entry carries a tool's result.
pub open spec fn is_result(obj: JsonModel) -> bool {
    let content = at(at(obj, "message"@), "content"@);
    content is Array && has_result(content->Array_0)
}

/// An entry as a message of the path; one without an id is none.
pub open spec fn node_of(e: EntryModel) -> Option<NodeModel> {
    match str_field(e.value, "uuid"@) {
        Some(uuid) => Some(
            NodeModel {
                uuid,
                parent: parent_of(e.value),
                is_tool_result: is_result(e.value),
                offset: e.offset,
            },
        ),
        None => None,
    }
}

fn carries_result(obj: &Json) -> (r: bool)
    ensures
        r == is_result(obj@),
{
    match obj.get("message") {
        Some(m) => match m.get("content") {
            Some(Json::Array(items)) => {
                assert(at(at(obj@, "message"@), "content"@)->Array_0 =~= items@.map_values(
                    |b: Json| b@,
                ));
                any_result(items)
            },
            _ => false,
        },
        None => false,
    }
}

/// An entry as a message of the path; one without an id is none.
pub fn value_to_message_node<'a>(obj: &'a Json, byte_offset: usize) -> (r: Option<MessageNode<'a>>)
    ensures
        match r {
            Some(n) => node_of(EntryModel { offset: byte_offset, value: obj@ }) == Some(n@),
            None => node_of(EntryModel { offset: byte_offset, value: obj@ }) is None,
        },
{
    let uuid = match obj.get_str("uuid") {
        Some(u) => u,
        None => {
            return None;
        },
    };
    let parent_uuid = match obj.get_str("parentUuid") {
        Some(p) => Some(p),
        None => obj.get_str("logicalParentUuid"),
    };
    Some(
        MessageNode { uuid, parent_uuid, is_tool_result: carries_result(obj), byte_offset },
    )
}

/// How far a reading got.
#[verifier::ext_equal]
pub struct ScanModel {
    pub entries: Seq<EntryModel>,
    pub consumed: int,
    /// Whether a line was no text.
    pub broken: bool,
}

/// The entries with an id on the complete lines from `pos` on, up to `limit` in all. Lines that
/// are empty or no JSON are passed over.
pub open spec fn scan(data: Seq<u8>, pos: int, limit: nat, found: Seq<EntryModel>) -> ScanModel
    decreases data.len() - pos,
    via scan_decreases
{
    match line_end(data, pos) {
        Some(end) => match line_text(data, pos, end) {
            Some(text) => match json_parsed(text) {
                Some(obj) => if text.len() > 0 && str_field(obj, "uuid"@) is Some {
                    let more = found.push(EntryModel { offset: pos as usize, value: obj });
                    if more.len() >= limit {
                        ScanModel { entries: more, consumed: end, broken: false }
                    } else {
                        scan(data, end, limit, more)
                    }
                } else {
                    scan(data, end, limit, found)
                },
                None => scan(data, end, limit, found),
            },
            None => ScanModel { entries: found, consumed: pos, broken: true },
        },
        None => ScanModel { entries: found, consumed: pos, broken: false },
    }
}

#[via_fn]
proof fn scan_decreases(data: Seq<u8>, pos: int, limit: nat, found: Seq<EntryModel>) {
    lemma_line_end(data, pos);
}

/// What a reading of the whole file found.
pub struct Scan {
    pub entries: Vec<Entry>,
    pub consumed: usize,
    pub broken: bool,
}

/// The entries with an id on the complete lines of a file, up to `limit` of them.
pub fn scan_entries(data: &[u8], limit: usize) -> (r: Scan)
    ensures
        (ScanModel {
            entries: entry_views(r.entries@),
            consumed: r.consumed as int,
            broken: r.broken,
        }) == scan(data@, 0, limit as nat, Seq::empty()),
        r.consumed <= data@.len(),
{
    let ghost goal = scan(data@, 0, limit as nat, Seq::empty());
    let mut entries: Vec<Entry> = Vec::new();
    let mut pos: usize = 0;
    assert(entry_views(entries@) =~= Seq::<EntryModel>::empty());
    loop
        invariant
            pos <= data@.len(),
            goal == scan(data@, 0, limit as nat, Seq::empty()),
            goal == scan(data@, pos as int, limit as nat, entry_views(entries@)),
        decreases data@.len() - pos,
    {
        let end: usize = match find_line_end(data, pos) {
            Some(end) => end,
            None => {
                return Scan { entries, consumed: pos, broken: false };
            },
        };
        match read_line(data, pos, end) {
            Some(text) => {
                if !text.as_str().is_empty() {
                    if let Some(value) = parse_json(text.as_str()) {
                        if value.get_str("uuid").is_some() {
                            let ghost before = entries@;
                            let entry = Entry { offset: pos, value };
                            entries.push(entry);
                            assert(entry_views(entries@) =~= entry_views(before).push(entry@));
                            if entries.len() >= limit {
                                return Scan { entries, consumed: end, broken: false };
                            }
                        }
                    }
                }
                pos = end;
            },
            None => {
                return Scan { entries, consumed: pos, broken: true };
            },
        }
    }
}

// ---------------------------------------------------------------------------
// The two passes
// ---------------------------------------------------------------------------

/// What a forward pass over entries has done.
#[verifier::ext_equal]
pub struct ReplayModel {
    pub path: PathModel,
    pub state: ParseModel,
    pub steps: Seq<StepModel>,
    /// The message that asked for a rewind, which ends the pass.
    pub failed: Option<Seq<char>>,
}

/// The entries with an id, as messages of the path.
pub open spec fn entry_nodes(entries: Seq<EntryModel>) -> Seq<NodeModel> {
    Seq::new(entries.len(), |i: int| node_of(entries[i])->0)
}

/// Each entry has an id.
pub open spec fn all_have_ids(entries: Seq<EntryModel>) -> bool {
    forall|i: int| 0 <= i < entries.len() ==> node_of(#[trigger] entries[i]) is Some
}

/// A forward pass over entries: those that the path takes are parsed.
pub open spec fn replay(path: PathModel, state: ParseModel, entries: Seq<EntryModel>) -> ReplayModel
    decreases entries.len(),
{
    if entries.len() == 0 {
        ReplayModel { path, state, steps: Seq::empty(), failed: None }
    } else {
        let before = replay(path, state, entries.drop_last());
        let node = node_of(entries.last())->0;
        if before.failed is Some {
            before
        } else {
            let (p, result) = forward_step(before.path, node);
            match result {
                ForwardPathResult::Ingest => {
                    let (s, steps) = entry_steps(before.state, entries.last().value);
                    ReplayModel { path: p, state: s, steps: before.steps + steps, failed: None }
                },
                ForwardPathResult::Drop => ReplayModel { path: p, ..before },
                ForwardPathResult::Rewind => ReplayModel { failed: Some(node.uuid), ..before },
            }
        }
    }
}

proof fn lemma_scan_ids(data: Seq<u8>, pos: int, limit: nat, found: Seq<EntryModel>)
    requires
        all_have_ids(found),
    ensures
        all_have_ids(scan(data, pos, limit, found).entries),
    decreases data.len() - pos,
{
    lemma_line_end(data, pos);
    if let Some(end) = line_end(data, pos) {
        if let Some(text) = line_text(data, pos, end) {
            match json_parsed(text) {
                Some(obj) => {
                    if text.len() > 0 && str_field(obj, "uuid"@) is Some {
                        let more = found.push(EntryModel { offset: pos as usize, value: obj });
                        assert(all_have_ids(more));
                        if more.len() < limit {
                            lemma_scan_ids(data, end, limit, more);
                        }
                    } else {
                        lemma_scan_ids(data, end, limit, found);
                    }
                },
                None => lemma_scan_ids(data, end, limit, found),
            }
        }
    }
}

fn backward_pass(entries: &Vec<Entry>) -> (r: MessagePath)
    requires
        all_have_ids(entry_views(entries@)),
    ensures
        r@ == backward_from(entry_nodes(entry_views(entries@)), 0),
        r@.valid(),
{
    let ghost all = entry_views(entries@);
    let ghost nodes = entry_nodes(all);
    let mut path = MessagePath::new();
    let mut i: usize = entries.len();
    while i > 0
        invariant
            i <= entries@.len(),
            all == entry_views(entries@),
            nodes == entry_nodes(all),
            all_have_ids(all),
            path@ == backward_from(nodes, i as int),
            path@.valid(),
        decreases i,
    {
        i = i - 1;
        assert(all[i as int] == entries@[i as int]@);
        match value_to_message_node(&entries[i].value, entries[i].offset) {
            Some(node) => {
                path.backward(&node);
            },
            None => {},
        }
    }
    path
}

/// What a forward pass over entries has done.
pub struct Replay {
    pub steps: Vec<ParseStep>,
    pub failed: Option<String>,
}

fn forward_pass(entries: &Vec<Entry>, path: &mut MessagePath, state: &mut ParseState) -> (r: Replay)
    requires
        all_have_ids(entry_views(entries@)),
        old(path)@.valid(),
    ensures
        (ReplayModel {
            path: final(path)@,
            state: final(state)@,
            steps: step_views(r.steps@),
            failed: text_opt(r.failed),
        }) == replay(old(path)@, old(state)@, entry_views(entries@)),
        final(path)@.valid(),
{
    let ghost all = entry_views(entries@);
    let ghost p0 = path@;
    let ghost s0 = state@;
    let mut steps: Vec<ParseStep> = Vec::new();
    let mut i: usize = 0;
    assert(step_views(steps@) =~= Seq::<StepModel>::empty());
    while i < entries.len()
        invariant
            i <= entries@.len(),
            all == entry_views(entries@),
            all_have_ids(all),
            p0 == old(path)@,
            s0 == old(state)@,
            path@.valid(),
            (ReplayModel {
                path: path@,
                state: state@,
                steps: step_views(steps@),
                failed: None,
            }) == replay(p0, s0, all.take(i as int)),
        decreases entries@.len() - i,
    {
        proof {
            assert(all.take(i + 1).drop_last() =~= all.take(i as int));
            assert(all.take(i + 1).last() == entries@[i as int]@);
            assert(all[i as int] == entries@[i as int]@);
        }
        let ghost before = step_views(steps@);
        if let Some(node) = value_to_message_node(&entries[i].value, entries[i].offset) {
            match path.forward(&node) {
                ForwardPathResult::Ingest => {
                    let mut more = parse_entry_value(&entries[i].value, state);
                    let ghost added = step_views(more@);
                    steps.append(&mut more);
                    assert(step_views(steps@) =~= before + added);
                },
                ForwardPathResult::Drop => {},
                ForwardPathResult::Rewind => {
                    let failed = Some(node.uuid.to_owned());
                    proof {
                        lemma_replay_stops(p0, s0, all, i + 1);
                    }
                    return Replay { steps, failed };
                },
            }
        }
        i = i + 1;
    }
    assert(all.take(entries@.len() as int) =~= all);
    Replay { steps, failed: None }
}

proof fn lemma_replay_stops(path: PathModel, state: ParseModel, entries: Seq<EntryModel>, k: int)
    requires
        0 <= k <= entries.len(),
        replay(path, state, entries.take(k)).failed is Some,
    ensures
        replay(path, state, entries) == replay(path, state, entries.take(k)),
    decreases entries.len() - k,
{
    if k == entries.len() {
        assert(entries.take(k) =~= entries);
    } else {
        assert(entries.take(k + 1).drop_last() =~= entries.take(k));
        lemma_replay_stops(path, state, entries, k + 1);
    }
}

// ---------------------------------------------------------------------------
// The reader
// ---------------------------------------------------------------------------

/// The state of reading one transcript.
pub struct ClaudeReader {
    pub state: ParseState,
    pub message_path: MessagePath,
    /// How many bytes of the file have been read.
    pub byte_offset: usize,
    /// Whether to take one entry at a time.
    pub waterfall: bool,
    /// How many entries with an id to read at first.
    pub waterfall_message_limit: usize,
}

/// What a `ClaudeReader` holds.
#[verifier::ext_equal]
pub struct ReaderModel {
    pub state: ParseModel,
    pub path: PathModel,
    pub byte_offset: usize,
    pub waterfall: bool,
    pub limit: usize,
}

impl View for ClaudeReader {
    type V = ReaderModel;

    open spec fn view(&self) -> ReaderModel {
        ReaderModel {
            state: self.state@,
            path: self.message_path@,
            byte_offset: self.byte_offset,
            waterfall: self.waterfall,
            limit: self.waterfall_message_limit,
        }
    }
}

/// How many entries with an id to read at first: one where they are taken one at a time, else the
/// number given, where 0 stands for all.
pub open spec fn first_limit(waterfall: bool, initial_loaded: usize) -> usize {
    if waterfall {
        1
    } else if initial_loaded > 0 {
        initial_loaded
    } else {
        usize::MAX
    }
}

/// Why a reading failed.
#[derive(Debug, PartialEq)]
pub enum ReadError {
    /// A line is no text.
    NotText,
    /// The forward pass over what was there asked for a rewind.
    UnexpectedRewind { uuid: String },
}

/// What a `ReadError` holds.
#[verifier::ext_equal]
pub enum ReadErrorModel {
    NotText,
    UnexpectedRewind { uuid: Seq<char> },
}

impl View for ReadError {
    type V = ReadErrorModel;

    open spec fn view(&self) -> ReadErrorModel {
        match *self {
            ReadError::NotText => ReadErrorModel::NotText,
            ReadError::UnexpectedRewind { uuid } => ReadErrorModel::UnexpectedRewind {
                uuid: uuid@,
            },
        }
    }
}

impl ReadError {
    /// The error in words.
    pub fn message(&self) -> (r: String)
        ensures
            r@ == (match self@ {
                ReadErrorModel::NotText => "stream did not contain valid UTF-8"@,
                ReadErrorModel::UnexpectedRewind {
                    uuid,
                } => "unexpected rewind during initial read forward pass, node: "@ + uuid,
            }),
    {
        match self {
            ReadError::NotText => "stream did not contain valid UTF-8".to_owned(),
            ReadError::UnexpectedRewind { uuid } => crate::text::concat2(
                "unexpected rewind during initial read forward pass, node: ",
                uuid.as_str(),
            ),
        }
    }
}

/// The view of an optional error.
pub open spec fn error_opt(e: Option<ReadError>) -> Option<ReadErrorModel> {
    match e {
        Some(x) => Some(x@),
        None => None,
    }
}

/// What the first reading gives.
pub struct InitialRead {
    pub steps: Vec<ParseStep>,
    pub error: Option<ReadError>,
}

/// What the first reading of a file does: the reader after it, the steps of the entries on the
/// active branch, and why it failed.
pub open spec fn initial(r: ReaderModel, data: Seq<u8>) -> (
    ReaderModel,
    Seq<StepModel>,
    Option<ReadErrorModel>,
) {
    let found = scan(data, 0, r.limit as nat, Seq::empty());
    if found.broken {
        (r, Seq::empty(), Some(ReadErrorModel::NotText))
    } else {
        let start = backward_from(entry_nodes(found.entries), 0);
        let done = replay(start, r.state, found.entries);
        match done.failed {
            Some(uuid) => (
                ReaderModel { state: done.state, ..r },
                done.steps,
                Some(ReadErrorModel::UnexpectedRewind { uuid }),
            ),
            None => (
                ReaderModel {
                    state: done.state,
                    path: done.path,
                    byte_offset: found.consumed as usize,
                    ..r
                },
                done.steps,
                None,
            ),
        }
    }
}

impl ClaudeReader {
    /// A reader before its first reading.
    pub fn new(waterfall: bool, initial_loaded: usize) -> (r: Self)
        ensures
            r@ == (ReaderModel {
                state: empty_state(),
                path: fresh_path(),
                byte_offset: 0,
                waterfall,
                limit: first_limit(waterfall, initial_loaded),
            }),
            r@.path.valid(),
    {
        ClaudeReader {
            state: ParseState::default(),
            message_path: MessagePath::new(),
            byte_offset: 0,
            waterfall,
            waterfall_message_limit: if waterfall {
                1
            } else if initial_loaded > 0 {
                initial_loaded
            } else {
                usize::MAX
            },
        }
    }

    /// The first reading of the file: finds the active branch and parses its entries.
    pub fn do_initial_read(&mut self, content: &[u8]) -> (r: InitialRead)
        requires
            old(self)@.path.valid(),
        ensures
            (final(self)@, step_views(r.steps@), error_opt(r.error)) == initial(
                old(self)@,
                content@,
            ),
            final(self)@.path.valid(),
    {
        let ghost goal = initial(self@, content@);
        let found = scan_entries(content, self.waterfall_message_limit);
        let none: Vec<ParseStep> = Vec::new();
        assert(step_views(none@) =~= Seq::<StepModel>::empty());
        if found.broken {
            return InitialRead { steps: none, error: Some(ReadError::NotText) };
        }
        proof {
            lemma_scan_ids(content@, 0, self.waterfall_message_limit as nat, Seq::empty());
        }
        let mut path = backward_pass(&found.entries);
        let done = forward_pass(&found.entries, &mut path, &mut self.state);
        match done.failed {
            Some(uuid) => {
                assert(self@ =~= goal.0);
                InitialRead {
                    steps: done.steps,
                    error: Some(ReadError::UnexpectedRewind { uuid }),
                }
            },
            None => {
                self.message_path = path;
                self.byte_offset = found.consumed;
                assert(self@ =~= goal.0);
                InitialRead { steps: done.steps, error: None }
            },
        }
    }
}

// ---------------------------------------------------------------------------
// Following the file
// ---------------------------------------------------------------------------

/// What a reading gives, in order.
#[derive(Debug, PartialEq)]
pub enum ReaderStep {
    /// Hand an operation on.
    Emit(ReaderOp),
    /// Tell the agents of a call of the agent tool or its result, and hand on what they give; where
    /// it is quiet, drop that.
    AgentTool { tool_use_id: String, value: String, is_result: bool, quiet: bool },
    /// Forget the agents.
    ClearAgents,
    /// Look for the files of agents, and hand on what they give.
    ScanAgents,
}

/// What a `ReaderStep` holds.
#[verifier::ext_equal]
pub enum ReaderStepModel {
    Emit(ReaderOpModel),
    AgentTool { tool_use_id: Seq<char>, value: Seq<char>, is_result: bool, quiet: bool },
    ClearAgents,
    ScanAgents,
}

impl View for ReaderStep {
    type V = ReaderStepModel;

    open spec fn view(&self) -> ReaderStepModel {
        match *self {
            ReaderStep::Emit(op) => ReaderStepModel::Emit(op@),
            ReaderStep::AgentTool { tool_use_id, value, is_result, quiet } => {
                ReaderStepModel::AgentTool {
                    tool_use_id: tool_use_id@,
                    value: value@,
                    is_result,
                    quiet,
                }
            },
            ReaderStep::ClearAgents => ReaderStepModel::ClearAgents,
            ReaderStep::ScanAgents => ReaderStepModel::ScanAgents,
        }
    }
}

/// The views of a sequence of steps.
pub open spec fn reader_step_views(steps: Seq<ReaderStep>) -> Seq<ReaderStepModel> {
    steps.map_values(|s: ReaderStep| s@)
}

/// The steps of parsed entries as steps of the reader. Quiet ones hand nothing on; the agents are
/// told all the same.
pub open spec fn handed_on(steps: Seq<StepModel>, quiet: bool) -> Seq<ReaderStepModel>
    decreases steps.len(),
{
    if steps.len() == 0 {
        Seq::empty()
    } else {
        let before = handed_on(steps.drop_last(), quiet);
        match steps.last() {
            StepModel::Op(op) => if quiet {
                before
            } else {
                before.push(ReaderStepModel::Emit(ReaderOpModel::Tree(op)))
            },
            StepModel::AgentTool { tool_use_id, value, is_result } => before.push(
                ReaderStepModel::AgentTool { tool_use_id, value, is_result, quiet },
            ),
        }
    }
}

fn hand_on(steps: Vec<ParseStep>, quiet: bool, out: &mut Vec<ReaderStep>)
    ensures
        reader_step_views(final(out)@) == reader_step_views(old(out)@) + handed_on(
            step_views(steps@),
            quiet,
        ),
{
    let ghost start = reader_step_views(out@);
    let ghost all = step_views(steps@);
    let ghost source = steps@;
    assert(start + handed_on(all.take(0), quiet) =~= start);
    for step in it: steps
        invariant
            it.seq() == source,
            all == step_views(source),
            reader_step_views(out@) == start + handed_on(all.take(it.index() as int), quiet),
    {
        let ghost i = it.index() as int;
        let ghost before = handed_on(all.take(i), quiet);
        proof {
            assert(step == source[i]);
            assert(all.take(i + 1).drop_last() =~= all.take(i));
            assert(all.take(i + 1).last() == step@);
        }
        let ghost old_out = out@;
        match step {
            ParseStep::Op(op) => {
                if !quiet {
                    let s = ReaderStep::Emit(ReaderOp::Tree(op));
                    out.push(s);
                    assert(reader_step_views(out@) =~= reader_step_views(old_out).push(s@));
                    assert((start + before).push(s@) =~= start + before.push(s@));
                }
            },
            ParseStep::AgentTool { tool_use_id, value, is_result } => {
                let s = ReaderStep::AgentTool { tool_use_id, value, is_result, quiet };
                out.push(s);
                assert(reader_step_views(out@) =~= reader_step_views(old_out).push(s@));
                assert((start + before).push(s@) =~= start + before.push(s@));
            },
        }
    }
    assert(all.take(all.len() as int) =~= all);
}

/// The steps that change the tree.
pub open spec fn op_steps(steps: Seq<StepModel>) -> Seq<StepModel> {
    steps.filter(|s: StepModel| s is Op)
}

fn keep_ops(steps: Vec<ParseStep>) -> (r: Vec<ParseStep>)
    ensures
        step_views(r@) == op_steps(step_views(steps@)),
{
    let ghost all = step_views(steps@);
    let ghost keep = |s: StepModel| s is Op;
    let ghost source = steps@;
    let mut out: Vec<ParseStep> = Vec::new();
    proof {
        reveal(Seq::filter);
        assert(step_views(out@) =~= all.take(0).filter(keep));
    }
    for step in it: steps
        invariant
            it.seq() == source,
            all == step_views(source),
            keep == (|s: StepModel| s is Op),
            step_views(out@) == all.take(it.index() as int).filter(keep),
    {
        proof {
            reveal(Seq::filter);
            let i = it.index() as int;
            assert(step == source[i]);
            assert(all.take(i + 1).drop_last() =~= all.take(i));
            assert(all.take(i + 1).last() == step@);
        }
        let ghost before = out@;
        let is_op = match &step {
            ParseStep::Op(_) => true,
            _ => false,
        };
        if is_op {
            let ghost view = step@;
            out.push(step);
            assert(step_views(out@) =~= step_views(before).push(view));
        }
    }
    assert(all.take(all.len() as int) =~= all);
    out
}

/// How following the file ended.
#[verifier::ext_equal]
pub enum FollowEnd {
    /// At the end of what can be read.
    Done,
    /// At a message that asks for a rewind.
    Rewind(Seq<char>),
    /// At a line that is no text.
    NotText,
}

/// What following the file has done.
#[verifier::ext_equal]
pub struct FollowModel {
    pub path: PathModel,
    pub state: ParseModel,
    pub steps: Seq<StepModel>,
    pub pos: int,
    pub end: FollowEnd,
}

/// What one entry does while the file is followed: the reading goes on, or a rewind is due. An
/// entry without an id is on no branch; it is parsed, and the agents are not told of it.
pub open spec fn follow_entry(
    path: PathModel,
    state: ParseModel,
    steps: Seq<StepModel>,
    offset: usize,
    obj: JsonModel,
) -> FollowModel {
    match node_of(EntryModel { offset, value: obj }) {
        Some(node) => {
            let (p, result) = forward_step(path, node);
            match result {
                ForwardPathResult::Ingest => {
                    let (s, more) = entry_steps(state, obj);
                    FollowModel {
                        path: p,
                        state: s,
                        steps: steps + more,
                        pos: offset as int,
                        end: FollowEnd::Done,
                    }
                },
                ForwardPathResult::Drop => FollowModel {
                    path: p,
                    state,
                    steps,
                    pos: offset as int,
                    end: FollowEnd::Done,
                },
                ForwardPathResult::Rewind => FollowModel {
                    path: p,
                    state,
                    steps,
                    pos: offset as int,
                    end: FollowEnd::Rewind(node.uuid),
                },
            }
        },
        None => {
            let (s, more) = entry_steps(state, obj);
            FollowModel {
                path,
                state: s,
                steps: steps + op_steps(more),
                pos: offset as int,
                end: FollowEnd::Done,
            }
        },
    }
}

/// Follows the complete lines from `pos` on. A line that is no JSON ends the reading in front of
/// it; with `single`, one entry does.
pub open spec fn follow(
    data: Seq<u8>,
    pos: int,
    single: bool,
    path: PathModel,
    state: ParseModel,
    steps: Seq<StepModel>,
) -> FollowModel
    decreases data.len() - pos,
    via follow_decreases
{
    let here = FollowModel { path, state, steps, pos, end: FollowEnd::Done };
    match line_end(data, pos) {
        Some(end) => match line_text(data, pos, end) {
            Some(text) => if text.len() == 0 {
                follow(data, end, single, path, state, steps)
            } else {
                match json_parsed(text) {
                    Some(obj) => {
                        let next = follow_entry(path, state, steps, pos as usize, obj);
                        if next.end is Done {
                            if single {
                                FollowModel { pos: end, ..next }
                            } else {
                                follow(data, end, single, next.path, next.state, next.steps)
                            }
                        } else {
                            next
                        }
                    },
                    None => here,
                }
            },
            None => FollowModel { end: FollowEnd::NotText, ..here },
        },
        None => here,
    }
}

#[via_fn]
proof fn follow_decreases(
    data: Seq<u8>,
    pos: int,
    single: bool,
    path: PathModel,
    state: ParseModel,
    steps: Seq<StepModel>,
) {
    lemma_line_end(data, pos);
}

/// One more, as far as numbers go.
pub open spec fn one_more(n: usize) -> usize {
    if n == usize::MAX {
        n
    } else {
        (n + 1) as usize
    }
}

/// The reader that starts over after a rewind.
pub open spec fn starting_over(r: ReaderModel) -> ReaderModel {
    ReaderModel {
        state: empty_state(),
        path: fresh_path(),
        limit: if r.waterfall {
            one_more(r.limit)
        } else {
            r.limit
        },
        ..r
    }
}

/// What new content of the file does: the reader after it, its steps, and why it failed.
///
/// A rewind drops what was found, resets the tree and reads the file again; the replay is complete
/// where it did not fail.
pub open spec fn main_event(r: ReaderModel, data: Seq<u8>) -> (
    ReaderModel,
    Seq<ReaderStepModel>,
    Option<ReadErrorModel>,
) {
    let f = follow(data, r.byte_offset as int, r.waterfall, r.path, r.state, Seq::empty());
    match f.end {
        FollowEnd::NotText => (
            ReaderModel { path: f.path, state: f.state, ..r },
            Seq::empty(),
            Some(ReadErrorModel::NotText),
        ),
        FollowEnd::Done => (
            ReaderModel {
                path: f.path,
                state: f.state,
                byte_offset: f.pos as usize,
                limit: if r.waterfall && f.pos > r.byte_offset {
                    one_more(r.limit)
                } else {
                    r.limit
                },
                ..r
            },
            handed_on(f.steps, false),
            None,
        ),
        FollowEnd::Rewind(uuid) => {
            let reset = handed_on(f.steps, true).push(ReaderStepModel::ClearAgents).push(
                ReaderStepModel::Emit(ReaderOpModel::Reset { id: Some(uuid) }),
            );
            let (again, steps, error) = initial(
                starting_over(ReaderModel { path: f.path, ..r }),
                data,
            );
            match error {
                Some(_) => (again, reset + handed_on(steps, true), None),
                None => (
                    again,
                    (reset + handed_on(steps, false)).push(ReaderStepModel::ScanAgents).push(
                        ReaderStepModel::Emit(ReaderOpModel::ResetDone),
                    ),
                    None,
                ),
            }
        },
    }
}

/// What new content of the file gives.
pub struct MainRead {
    pub steps: Vec<ReaderStep>,
    pub error: Option<ReadError>,
}

/// Where following the file has got to.
struct Followed {
    steps: Vec<ParseStep>,
    pos: usize,
    rewind: Option<String>,
    broken: bool,
}

spec fn follow_view(f: Followed, path: PathModel, state: ParseModel) -> FollowModel {
    FollowModel {
        path,
        state,
        steps: step_views(f.steps@),
        pos: f.pos as int,
        end: if f.broken {
            FollowEnd::NotText
        } else {
            match f.rewind {
                Some(uuid) => FollowEnd::Rewind(uuid@),
                None => FollowEnd::Done,
            }
        },
    }
}

proof fn lemma_step_push(out: Seq<ReaderStep>, s: ReaderStep)
    ensures
        reader_step_views(out.push(s)) == reader_step_views(out).push(s@),
{
    assert(reader_step_views(out.push(s)) =~= reader_step_views(out).push(s@));
}

impl ClaudeReader {
    fn follow_value(&mut self, obj: &Json, offset: usize, steps: &mut Vec<ParseStep>) -> (r: Option<
        String,
    >)
        requires
            old(self)@.path.valid(),
        ensures
            ({
                let next = follow_entry(
                    old(self)@.path,
                    old(self)@.state,
                    step_views(old(steps)@),
                    offset,
                    obj@,
                );
                &&& final(self)@ == (ReaderModel {
                    path: next.path,
                    state: next.state,
                    ..old(self)@
                })
                &&& step_views(final(steps)@) == next.steps
                &&& next.end == (match r {
                    Some(uuid) => FollowEnd::Rewind(uuid@),
                    None => FollowEnd::Done,
                })
            }),
            final(self)@.path.valid(),
    {
        let ghost before = step_views(steps@);
        match value_to_message_node(obj, offset) {
            Some(node) => match self.message_path.forward(&node) {
                ForwardPathResult::Ingest => {
                    let mut more = parse_entry_value(obj, &mut self.state);
                    let ghost added = step_views(more@);
                    steps.append(&mut more);
                    assert(step_views(steps@) =~= before + added);
                    None
                },
                ForwardPathResult::Drop => None,
                ForwardPathResult::Rewind => Some(node.uuid.to_owned()),
            },
            None => {
                let all = parse_entry_value(obj, &mut self.state);
                let mut more = keep_ops(all);
                let ghost added = step_views(more@);
                steps.append(&mut more);
                assert(step_views(steps@) =~= before + added);
                None
            },
        }
    }

    fn follow_lines(&mut self, content: &[u8]) -> (r: Followed)
        requires
            old(self)@.path.valid(),
        ensures
            follow_view(r, final(self)@.path, final(self)@.state) == follow(
                content@,
                old(self)@.byte_offset as int,
                old(self)@.waterfall,
                old(self)@.path,
                old(self)@.state,
                Seq::empty(),
            ),
            final(self)@ == (ReaderModel {
                path: final(self)@.path,
                state: final(self)@.state,
                ..old(self)@
            }),
            final(self)@.path.valid(),
    {
        let ghost goal = follow(
            content@,
            self.byte_offset as int,
            self.waterfall,
            self@.path,
            self@.state,
            Seq::empty(),
        );
        let ghost r0 = self@;
        let mut steps: Vec<ParseStep> = Vec::new();
        let mut pos: usize = self.byte_offset;
        assert(step_views(steps@) =~= Seq::<StepModel>::empty());
        if pos > content.len() {
            return Followed { steps, pos, rewind: None, broken: false };
        }
        loop
            invariant
                pos <= content@.len(),
                r0 == old(self)@,
                goal == follow(
                    content@,
                    r0.byte_offset as int,
                    r0.waterfall,
                    r0.path,
                    r0.state,
                    Seq::empty(),
                ),
                self@ == (ReaderModel { path: self@.path, state: self@.state, ..r0 }),
                self@.path.valid(),
                goal == follow(
                    content@,
                    pos as int,
                    r0.waterfall,
                    self@.path,
                    self@.state,
                    step_views(steps@),
                ),
            decreases content@.len() - pos,
        {
            let end: usize = match find_line_end(content, pos) {
                Some(end) => end,
                None => {
                    return Followed { steps, pos, rewind: None, broken: false };
                },
            };
            let text = match read_line(content, pos, end) {
                Some(t) => t,
                None => {
                    return Followed { steps, pos, rewind: None, broken: true };
                },
            };
            if !text.as_str().is_empty() {
                let obj = match parse_json(text.as_str()) {
                    Some(obj) => obj,
                    None => {
                        return Followed { steps, pos, rewind: None, broken: false };
                    },
                };
                if let Some(uuid) = self.follow_value(&obj, pos, &mut steps) {
                    return Followed { steps, pos, rewind: Some(uuid), broken: false };
                }
                if self.waterfall {
                    return Followed { steps, pos: end, rewind: None, broken: false };
                }
            }
            pos = end;
        }
    }

    fn start_over(&mut self)
        ensures
            final(self)@ == starting_over(old(self)@),
            final(self)@.path.valid(),
    {
        let ghost goal = starting_over(self@);
        if self.waterfall && self.waterfall_message_limit < usize::MAX {
            self.waterfall_message_limit = self.waterfall_message_limit + 1;
        }
        self.state = ParseState::default();
        self.message_path.reset();
        assert(self@ =~= goal);
    }

    /// Reads what the file has got since the last reading. `content` is the whole file.
    pub fn handle_main_event(&mut self, content: &[u8]) -> (r: MainRead)
        requires
            old(self)@.path.valid(),
        ensures
            (final(self)@, reader_step_views(r.steps@), error_opt(r.error)) == main_event(
                old(self)@,
                content@,
            ),
            final(self)@.path.valid(),
    {
        let ghost goal = main_event(self@, content@);
        let ghost r0 = self@;
        let followed = self.follow_lines(content);
        let mut out: Vec<ReaderStep> = Vec::new();
        assert(reader_step_views(out@) =~= Seq::<ReaderStepModel>::empty());
        if followed.broken {
            assert(self@ =~= goal.0);
            return MainRead { steps: out, error: Some(ReadError::NotText) };
        }
        match followed.rewind {
            Some(uuid) => {
                let ghost dropped = step_views(followed.steps@);
                hand_on(followed.steps, true, &mut out);
                assert(reader_step_views(out@) =~= handed_on(dropped, true));
                let reset = ReaderStep::Emit(ReaderOp::Reset { id: Some(uuid) });
                proof {
                    lemma_step_push(out@, ReaderStep::ClearAgents);
                    lemma_step_push(out@.push(ReaderStep::ClearAgents), reset);
                }
                out.push(ReaderStep::ClearAgents);
                out.push(reset);
                self.start_over();
                assert(self@ =~= starting_over(
                    ReaderModel { path: followed_path(r0, content@), ..r0 },
                ));
                let again = self.do_initial_read(content);
                match again.error {
                    Some(_) => {
                        hand_on(again.steps, true, &mut out);
                    },
                    None => {
                        hand_on(again.steps, false, &mut out);
                        let done = ReaderStep::Emit(ReaderOp::ResetDone);
                        proof {
                            lemma_step_push(out@, ReaderStep::ScanAgents);
                            lemma_step_push(out@.push(ReaderStep::ScanAgents), done);
                        }
                        out.push(ReaderStep::ScanAgents);
                        out.push(done);
                    },
                }
                MainRead { steps: out, error: None }
            },
            None => {
                let ghost found = step_views(followed.steps@);
                hand_on(followed.steps, false, &mut out);
                assert(reader_step_views(out@) =~= handed_on(found, false));
                if self.waterfall && followed.pos > self.byte_offset
                    && self.waterfall_message_limit < usize::MAX {
                    self.waterfall_message_limit = self.waterfall_message_limit + 1;
                }
                self.byte_offset = followed.pos;
                assert(self@ =~= goal.0);
                MainRead { steps: out, error: None }
            },
        }
    }
}

spec fn followed_path(r: ReaderModel, data: Seq<u8>) -> PathModel {
    follow(data, r.byte_offset as int, r.waterfall, r.path, r.state, Seq::empty()).path
}

// ---------------------------------------------------------------------------
// Laws
// ---------------------------------------------------------------------------

proof fn lemma_feed_stays(data: Seq<u8>, more: Seq<u8>, pos: int)
    requires
        0 <= pos <= data.len(),
    ensures
        next_feed(data, pos) < data.len() ==> next_feed(data + more, pos) == next_feed(data, pos),
    decreases data.len() - pos,
{
    if pos < data.len() && data[pos] != 10 {
        lemma_feed_stays(data, more, pos + 1);
    }
}

/// A file that grows is read as if all of it had been there: following a part of it and then the
/// rest gives what following the whole gives, where the part does not end in the middle of a line
/// end and asked for no rewind.
pub proof fn law_follow_in_parts(
    data: Seq<u8>,
    more: Seq<u8>,
    pos: int,
    path: PathModel,
    state: ParseModel,
    steps: Seq<StepModel>,
)
    requires
        data.len() == 0 || data.last() != 13,
        follow(data, pos, false, path, state, steps).end is Done,
    ensures
        ({
            let f = follow(data, pos, false, path, state, steps);
            follow(data + more, pos, false, path, state, steps) == follow(
                data + more,
                f.pos,
                false,
                f.path,
                f.state,
                f.steps,
            )
        }),
    decreases data.len() - pos,
{
    lemma_line_end(data, pos);
    if let Some(end) = line_end(data, pos) {
        lemma_feed_stays(data, more, pos);
        lemma_next_feed(data, pos);
        assert(line_end(data + more, pos) == Some(end));
        assert((data + more).subrange(pos, end) =~= data.subrange(pos, end));
        if let Some(text) = line_text(data, pos, end) {
            if text.len() == 0 {
                law_follow_in_parts(data, more, end, path, state, steps);
            } else if let Some(obj) = json_parsed(text) {
                let next = follow_entry(path, state, steps, pos as usize, obj);
                if next.end is Done {
                    law_follow_in_parts(data, more, end, next.path, next.state, next.steps);
                }
            }
        }
    }
}

proof fn lemma_quiet_steps(steps: Seq<StepModel>)
    ensures
        forall|i: int|
            0 <= i < handed_on(steps, true).len() ==> !(#[trigger] handed_on(
                steps,
                true,
            )[i] is Emit),
    decreases steps.len(),
{
    if steps.len() > 0 {
        lemma_quiet_steps(steps.drop_last());
    }
}

/// A rewind is announced by one reset before anything else is handed on; where the replay
/// succeeds, the last thing handed on says that it is complete.
pub proof fn law_rewind_resets(r: ReaderModel, data: Seq<u8>)
    requires
        follow(data, r.byte_offset as int, r.waterfall, r.path, r.state, Seq::empty()).end is Rewind,
    ensures
        ({
            let f = follow(data, r.byte_offset as int, r.waterfall, r.path, r.state, Seq::empty());
            let steps = main_event(r, data).1;
            let k = handed_on(f.steps, true).len() as int;
            &&& steps.len() >= k + 2
            &&& forall|i: int| 0 <= i < k + 1 ==> !(#[trigger] steps[i] is Emit)
            &&& steps[k] == ReaderStepModel::ClearAgents
            &&& steps[k + 1] == ReaderStepModel::Emit(
                ReaderOpModel::Reset { id: Some(f.end->Rewind_0) },
            )
            &&& main_event(r, data).2 is None
            &&& initial(starting_over(ReaderModel { path: f.path, ..r }), data).2 is None
                ==> steps.last() == ReaderStepModel::Emit(ReaderOpModel::ResetDone)
        }),
{
    let f = follow(data, r.byte_offset as int, r.waterfall, r.path, r.state, Seq::empty());
    let steps = main_event(r, data).1;
    let quiet = handed_on(f.steps, true);
    lemma_quiet_steps(f.steps);
    assert forall|i: int| 0 <= i < quiet.len() + 1 implies !(#[trigger] steps[i] is Emit) by {
        if i < quiet.len() {
            assert(steps[i] == quiet[i]);
        }
    }
}

proof fn lemma_loud_steps(steps: Seq<StepModel>)
    ensures
        forall|i: int|
            0 <= i < handed_on(steps, false).len() ==> match #[trigger] handed_on(
                steps,
                false,
            )[i] {
                ReaderStepModel::Emit(op) => op is Tree,
                ReaderStepModel::AgentTool { quiet, .. } => !quiet,
                _ => false,
            },
    decreases steps.len(),
{
    if steps.len() > 0 {
        lemma_loud_steps(steps.drop_last());
    }
}

/// Without a rewind nothing is reset: what is handed on are changes of the tree, in the order of
/// the file.
pub proof fn law_no_reset_without_rewind(r: ReaderModel, data: Seq<u8>)
    requires
        !(follow(
            data,
            r.byte_offset as int,
            r.waterfall,
            r.path,
            r.state,
            Seq::empty(),
        ).end is Rewind),
    ensures
        forall|i: int|
            0 <= i < main_event(r, data).1.len() ==> match #[trigger] main_event(r, data).1[i] {
                ReaderStepModel::Emit(op) => op is Tree,
                ReaderStepModel::AgentTool { quiet, .. } => !quiet,
                _ => false,
            },
{
    let f = follow(data, r.byte_offset as int, r.waterfall, r.path, r.state, Seq::empty());
    lemma_loud_steps(f.steps);
}

proof fn lemma_follow_advances(
    data: Seq<u8>,
    pos: int,
    single: bool,
    path: PathModel,
    state: ParseModel,
    steps: Seq<StepModel>,
)
    requires
        0 <= pos,
        data.len() <= usize::MAX,
    ensures
        follow(data, pos, single, path, state, steps).pos >= pos,
        follow(data, pos, single, path, state, steps).pos == pos || follow(
            data,
            pos,
            single,
            path,
            state,
            steps,
        ).pos <= data.len(),
    decreases data.len() - pos,
{
    lemma_line_end(data, pos);
    if let Some(end) = line_end(data, pos) {
        if let Some(text) = line_text(data, pos, end) {
            if text.len() == 0 {
                lemma_follow_advances(data, end, single, path, state, steps);
            } else if let Some(obj) = json_parsed(text) {
                let next = follow_entry(path, state, steps, pos as usize, obj);
                lemma_follow_advances(data, end, single, next.path, next.state, next.steps);
            }
        }
    }
}

/// Without a rewind, what has been read of the file never becomes less.
pub proof fn law_offset_only_grows(r: ReaderModel, data: Seq<u8>)
    requires
        data.len() <= usize::MAX,
        !(follow(
            data,
            r.byte_offset as int,
            r.waterfall,
            r.path,
            r.state,
            Seq::empty(),
        ).end is Rewind),
    ensures
        main_event(r, data).0.byte_offset >= r.byte_offset,
{
    lemma_follow_advances(
        data,
        r.byte_offset as int,
        r.waterfall,
        r.path,
        r.state,
        Seq::empty(),
    );
}

} // verus!
