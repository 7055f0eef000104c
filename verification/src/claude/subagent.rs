//! The transcripts of agents that a session starts.
use crate::claude::lines::{find_line_end, lemma_line_end, line_end, line_text, read_line};
use crate::claude::message::{
    empty_state, entry_steps, ops_among, ops_of_steps, parse_entry_value, ParseModel,
    ParseState,
};
use crate::claude::reader::{ReadError, ReadErrorModel};
use crate::json::{json_parsed, parse_json, str_field};
use crate::text::{
    after_prefix, before_suffix, concat2, concat3, same_text, strip_prefix, strip_suffix, trim,
    trimmed,
};
use crate::tree::{leaf, op_views, text_opt, MessageState, MessageType, OpModel, TreeOperation};
use vstd::hash_map::StringHashMap;
use vstd::prelude::*;

verus! {

broadcast use vstd::string::group_string_axioms;

/// An agent whose transcript is read.
pub struct SubagentWatcher {
    pub agent_id: String,
    /// The call that started the agent, once it is known.
    pub tool_use_id: Option<String>,
    /// The description that the agent was started with, once it is known.
    pub description: Option<String>,
    pub placeholder_emitted: bool,
    /// How many bytes of the transcript have been read.
    pub byte_offset: usize,
    pub parse_state: ParseState,
}

/// What a `SubagentWatcher` holds.
#[verifier::ext_equal]
pub struct WatcherModel {
    pub agent_id: Seq<char>,
    pub tool_use_id: Option<Seq<char>>,
    pub description: Option<Seq<char>>,
    pub placeholder_emitted: bool,
    pub byte_offset: usize,
    pub parse_state: ParseModel,
}

impl View for SubagentWatcher {
    type V = WatcherModel;

    open spec fn view(&self) -> WatcherModel {
        WatcherModel {
            agent_id: self.agent_id@,
            tool_use_id: text_opt(self.tool_use_id),
            description: text_opt(self.description),
            placeholder_emitted: self.placeholder_emitted,
            byte_offset: self.byte_offset,
            parse_state: self.parse_state@,
        }
    }
}

/// The views of a sequence of watchers.
pub open spec fn watcher_views(w: Seq<SubagentWatcher>) -> Seq<WatcherModel> {
    w.map_values(|x: SubagentWatcher| x@)
}

/// The agents of a session, matched with the calls that started them.
pub struct ClaudeSubagentManager {
    tool_uses_by_description: StringHashMap<String>,
    tool_uses_by_agent_id: StringHashMap<String>,
    subagents: Vec<SubagentWatcher>,
}

/// What a `ClaudeSubagentManager` holds.
#[verifier::ext_equal]
pub struct ManagerModel {
    pub by_description: Map<Seq<char>, Seq<char>>,
    pub by_agent_id: Map<Seq<char>, Seq<char>>,
    /// The agents in the order in which they were found.
    pub agents: Seq<WatcherModel>,
}

/// The views of the values of a map.
pub open spec fn texts_of(m: Map<Seq<char>, String>) -> Map<Seq<char>, Seq<char>> {
    Map::new(|k: Seq<char>| m.contains_key(k), |k: Seq<char>| m[k]@)
}

impl View for ClaudeSubagentManager {
    type V = ManagerModel;

    closed spec fn view(&self) -> ManagerModel {
        ManagerModel {
            by_description: texts_of(self.tool_uses_by_description@),
            by_agent_id: texts_of(self.tool_uses_by_agent_id@),
            agents: watcher_views(self.subagents@),
        }
    }
}

/// The manager of a session without agents.
pub open spec fn no_agents() -> ManagerModel {
    ManagerModel { by_description: Map::empty(), by_agent_id: Map::empty(), agents: Seq::empty() }
}

/// The position of the agent `id`, or the number of agents.
pub open spec fn agent_at(agents: Seq<WatcherModel>, id: Seq<char>) -> int
    decreases agents.len(),
{
    if agents.len() == 0 || agents[0].agent_id == id {
        0
    } else {
        1 + agent_at(agents.skip(1), id)
    }
}

/// The position of the first agent with a description and no call, or the number of agents.
pub open spec fn unmatched_at(agents: Seq<WatcherModel>, description: Seq<char>) -> int
    decreases agents.len(),
{
    if agents.len() == 0 || (agents[0].description == Some(description)
        && agents[0].tool_use_id is None) {
        0
    } else {
        1 + unmatched_at(agents.skip(1), description)
    }
}

/// An agent with its call.
pub open spec fn matched(w: WatcherModel, tool_use_id: Seq<char>) -> WatcherModel {
    WatcherModel { tool_use_id: Some(tool_use_id), ..w }
}

/// The manager after a call of the agent tool: the call is noted by its description, and an agent
/// that waited for it gets it.
pub open spec fn after_tool_use(
    m: ManagerModel,
    tool_use_id: Seq<char>,
    description: Seq<char>,
) -> ManagerModel {
    let i = unmatched_at(m.agents, description);
    ManagerModel {
        by_description: m.by_description.insert(description, tool_use_id),
        agents: if i < m.agents.len() {
            m.agents.update(i, matched(m.agents[i], tool_use_id))
        } else {
            m.agents
        },
        ..m
    }
}

/// The manager after a result of the agent tool: the call is noted by its agent, and the agent,
/// where it is known, gets it.
pub open spec fn after_tool_result(
    m: ManagerModel,
    tool_use_id: Seq<char>,
    agent_id: Seq<char>,
) -> ManagerModel {
    let i = agent_at(m.agents, agent_id);
    ManagerModel {
        by_agent_id: m.by_agent_id.insert(agent_id, tool_use_id),
        agents: if i < m.agents.len() {
            m.agents.update(i, matched(m.agents[i], tool_use_id))
        } else {
            m.agents
        },
        ..m
    }
}

/// An agent that was just found.
pub open spec fn new_watcher(agent_id: Seq<char>) -> WatcherModel {
    WatcherModel {
        agent_id,
        tool_use_id: None,
        description: None,
        placeholder_emitted: false,
        byte_offset: 0,
        parse_state: ParseModel { id_prefix: "sa:"@ + agent_id + ":"@, ..empty_state() },
    }
}

/// The description in the text of an agent's file.
pub open spec fn described(text: Option<Seq<char>>) -> Option<Seq<char>> {
    match text {
        Some(t) => match json_parsed(t) {
            Some(obj) => str_field(obj, "description"@),
            None => None,
        },
        None => None,
    }
}

/// The value of a key that is there.
pub open spec fn lookup(m: Map<Seq<char>, Seq<char>>, k: Seq<char>) -> Option<Seq<char>> {
    if m.contains_key(k) {
        Some(m[k])
    } else {
        None
    }
}

/// An agent after one of its files was seen: it may get its description from it, and its call from
/// that or from its id. What it has, it keeps.
pub open spec fn recognized(m: ManagerModel, w: WatcherModel, text: Option<Seq<char>>) -> WatcherModel {
    let description = match w.description {
        Some(d) => Some(d),
        None => described(text),
    };
    let by_description = match (w.tool_use_id, description) {
        (Some(t), _) => Some(t),
        (None, Some(d)) => lookup(m.by_description, d),
        (None, None) => None,
    };
    let tool_use_id = match by_description {
        Some(t) => Some(t),
        None => lookup(m.by_agent_id, w.agent_id),
    };
    WatcherModel { description, tool_use_id, ..w }
}

/// The manager after a file of the agent `agent_id` was seen.
pub open spec fn after_file(m: ManagerModel, agent_id: Seq<char>, text: Option<Seq<char>>) -> ManagerModel {
    let i = agent_at(m.agents, agent_id);
    if i < m.agents.len() {
        ManagerModel { agents: m.agents.update(i, recognized(m, m.agents[i], text)), ..m }
    } else {
        ManagerModel {
            agents: m.agents.push(recognized(m, new_watcher(agent_id), text)),
            ..m
        }
    }
}

/// The agent that a file belongs to, by its name.
pub open spec fn agent_of_name(name: Seq<char>, suffix: Seq<char>) -> Option<Seq<char>> {
    match after_prefix(name, "agent-"@) {
        Some(rest) => before_suffix(rest, suffix),
        None => None,
    }
}

/// The agent of `agent-{id}.meta.json`.
pub fn parse_meta_filename(name: &str) -> (r: Option<String>)
    ensures
        text_opt(r) == agent_of_name(name@, ".meta.json"@),
{
    match strip_prefix(name, "agent-") {
        Some(rest) => strip_suffix(rest.as_str(), ".meta.json"),
        None => None,
    }
}

/// The agent of `agent-{id}.jsonl`.
pub fn parse_sa_jsonl_filename(name: &str) -> (r: Option<String>)
    ensures
        text_opt(r) == agent_of_name(name@, ".jsonl"@),
{
    match strip_prefix(name, "agent-") {
        Some(rest) => strip_suffix(rest.as_str(), ".jsonl"),
        None => None,
    }
}

/// The agent that a file belongs to.
pub open spec fn file_agent(name: Seq<char>) -> Option<Seq<char>> {
    match agent_of_name(name, ".meta.json"@) {
        Some(id) => Some(id),
        None => agent_of_name(name, ".jsonl"@),
    }
}

/// The agent that a file belongs to; `None` where it is no agent's file.
pub fn agent_of_file(name: &str) -> (r: Option<String>)
    ensures
        text_opt(r) == file_agent(name@),
{
    match parse_meta_filename(name) {
        Some(id) => Some(id),
        None => parse_sa_jsonl_filename(name),
    }
}

// ---------------------------------------------------------------------------
// Reading an agent's transcript
// ---------------------------------------------------------------------------

/// An operation with its new node under `parent`.
pub open spec fn under(op: OpModel, parent: Seq<char>) -> OpModel {
    match op {
        OpModel::Append { message, .. } => OpModel::Append { parent_id: Some(parent), message },
        _ => op,
    }
}

/// Operations with their new nodes under `parent`.
pub open spec fn all_under(ops: Seq<OpModel>, parent: Seq<char>) -> Seq<OpModel> {
    ops.map_values(|op: OpModel| under(op, parent))
}

/// How far an agent's transcript has been read.
#[verifier::ext_equal]
pub struct StreamModel {
    pub state: ParseModel,
    pub ops: Seq<OpModel>,
    pub pos: int,
    pub broken: bool,
}

/// The operations of the complete lines from `pos` on, their new nodes under `parent`.
pub open spec fn stream(
    data: Seq<u8>,
    pos: int,
    state: ParseModel,
    ops: Seq<OpModel>,
    parent: Seq<char>,
) -> StreamModel
    decreases data.len() - pos,
    via stream_decreases
{
    match line_end(data, pos) {
        Some(end) => match line_text(data, pos, end) {
            Some(text) => match json_parsed(trimmed(text)) {
                Some(obj) => {
                    let (s, steps) = entry_steps(state, obj);
                    stream(data, end, s, ops + all_under(ops_among(steps), parent), parent)
                },
                None => stream(data, end, state, ops, parent),
            },
            None => StreamModel { state, ops, pos, broken: true },
        },
        None => StreamModel { state, ops, pos, broken: false },
    }
}

#[via_fn]
proof fn stream_decreases(
    data: Seq<u8>,
    pos: int,
    state: ParseModel,
    ops: Seq<OpModel>,
    parent: Seq<char>,
) {
    lemma_line_end(data, pos);
}

/// The node that stands for an agent until its result comes.
pub open spec fn placeholder(agent_id: Seq<char>, tool_use_id: Seq<char>) -> OpModel {
    OpModel::Append {
        parent_id: Some("tool_call:"@ + tool_use_id),
        message: leaf(
            "task_summary:"@ + tool_use_id,
            "Agent ID: "@ + agent_id,
            Seq::empty(),
            MessageType::TaskSummary,
        ),
    }
}

/// What reading an agent's transcript does: nothing before the agent has its call; then its
/// placeholder, once, and what the file has got since the last time. `data` is the whole file, or
/// `None` where there is none yet.
pub open spec fn agent_read(w: WatcherModel, data: Option<Seq<u8>>) -> (
    WatcherModel,
    Seq<OpModel>,
    bool,
) {
    match w.tool_use_id {
        Some(tool) => {
            let first = if w.placeholder_emitted {
                Seq::empty()
            } else {
                seq![placeholder(w.agent_id, tool)]
            };
            let w1 = WatcherModel { placeholder_emitted: true, ..w };
            match data {
                Some(bytes) => {
                    let s = stream(
                        bytes,
                        w.byte_offset as int,
                        w.parse_state,
                        first,
                        "tool_call:"@ + tool,
                    );
                    (
                        WatcherModel {
                            parse_state: s.state,
                            byte_offset: s.pos as usize,
                            ..w1
                        },
                        s.ops,
                        s.broken,
                    )
                },
                None => (w1, first, false),
            }
        },
        None => (w, Seq::empty(), false),
    }
}

proof fn lemma_agent_at(agents: Seq<WatcherModel>, id: Seq<char>, k: int)
    requires
        0 <= k <= agents.len(),
        forall|i: int| 0 <= i < k ==> (#[trigger] agents[i]).agent_id != id,
        k < agents.len() ==> agents[k].agent_id == id,
    ensures
        agent_at(agents, id) == k,
    decreases agents.len(),
{
    if k > 0 {
        assert(agents[0].agent_id != id);
        assert forall|i: int| 0 <= i < k - 1 implies (#[trigger] agents.skip(1)[i]).agent_id
            != id by {
            assert(agents[i + 1].agent_id != id);
        }
        lemma_agent_at(agents.skip(1), id, k - 1);
    }
}

proof fn lemma_unmatched_at(agents: Seq<WatcherModel>, d: Seq<char>, k: int)
    requires
        0 <= k <= agents.len(),
        forall|i: int|
            0 <= i < k ==> !((#[trigger] agents[i]).description == Some(d)
                && agents[i].tool_use_id is None),
        k < agents.len() ==> agents[k].description == Some(d) && agents[k].tool_use_id is None,
    ensures
        unmatched_at(agents, d) == k,
    decreases agents.len(),
{
    if k > 0 {
        assert(!(agents[0].description == Some(d) && agents[0].tool_use_id is None));
        assert forall|i: int| 0 <= i < k - 1 implies !((#[trigger] agents.skip(1)[i]).description
            == Some(d) && agents.skip(1)[i].tool_use_id is None) by {
            assert(!(agents[i + 1].description == Some(d) && agents[i + 1].tool_use_id is None));
        }
        lemma_unmatched_at(agents.skip(1), d, k - 1);
    }
}

fn copy_value(m: &StringHashMap<String>, k: &str) -> (r: Option<String>)
    ensures
        text_opt(r) == lookup(texts_of(m@), k@),
{
    match m.get(k) {
        Some(v) => Some(v.clone()),
        None => None,
    }
}

fn move_under(ops: Vec<TreeOperation>, parent: &str, out: &mut Vec<TreeOperation>)
    ensures
        op_views(final(out)@) == op_views(old(out)@) + all_under(op_views(ops@), parent@),
{
    let ghost start = op_views(out@);
    let ghost all = op_views(ops@);
    let ghost source = ops@;
    assert(start + all_under(all.take(0), parent@) =~= start);
    for op in it: ops
        invariant
            it.seq() == source,
            all == op_views(source),
            op_views(out@) == start + all_under(all.take(it.index() as int), parent@),
    {
        let ghost i = it.index() as int;
        let ghost here = out@;
        let ghost view = under(op@, parent@);
        proof {
            assert(op == source[i]);
            assert(all_under(all.take(i + 1), parent@) =~= all_under(all.take(i), parent@).push(
                view,
            ));
        }
        let moved = match op {
            TreeOperation::Append { message, .. } => TreeOperation::Append {
                parent_id: Some(parent.to_owned()),
                message,
            },
            other => other,
        };
        out.push(moved);
        assert(op_views(out@) =~= op_views(here).push(view));
        assert((start + all_under(all.take(i), parent@)).push(view) =~= start + all_under(
            all.take(i),
            parent@,
        ).push(view));
    }
    assert(all.take(all.len() as int) =~= all);
}

impl SubagentWatcher {
    fn read(&mut self, content: Option<&[u8]>) -> (r: Result<Vec<TreeOperation>, ReadError>)
        ensures
            ({
                let data = match content {
                    Some(c) => Some(c@),
                    None => None,
                };
                let (after, ops, broken) = agent_read(old(self)@, data);
                &&& final(self)@ == after
                &&& match r {
                    Ok(v) => !broken && op_views(v@) == ops,
                    Err(e) => broken && e@ == ReadErrorModel::NotText,
                }
            }),
    {
        let ghost w0 = self@;
        let mut out: Vec<TreeOperation> = Vec::new();
        assert(op_views(out@) =~= Seq::<OpModel>::empty());
        let tool = match &self.tool_use_id {
            Some(t) => t.clone(),
            None => {
                return Ok(out);
            },
        };
        let parent = concat2("tool_call:", tool.as_str());
        if !self.placeholder_emitted {
            self.placeholder_emitted = true;
            let id = concat2("task_summary:", tool.as_str());
            let text = concat2("Agent ID: ", self.agent_id.as_str());
            let node = MessageState::leaf(id, text, String::new(), MessageType::TaskSummary);
            out.push(TreeOperation::Append { parent_id: Some(parent.clone()), message: node });
            assert(op_views(out@) =~= seq![placeholder(w0.agent_id, tool@)]);
        }
        let ghost first = op_views(out@);
        let ghost w1 = WatcherModel { placeholder_emitted: true, ..w0 };
        assert(self@ =~= w1);
        let data = match content {
            Some(c) => c,
            None => {
                return Ok(out);
            },
        };
        let ghost goal = stream(
            data@,
            w0.byte_offset as int,
            w0.parse_state,
            first,
            parent@,
        );
        let mut pos: usize = self.byte_offset;
        if pos > data.len() {
            assert(self@ =~= agent_read(w0, Some(data@)).0);
            return Ok(out);
        }
        loop
            invariant
                pos <= data@.len(),
                content is Some && content->0@ == data@,
                w0 == old(self)@,
                w1 == (WatcherModel { placeholder_emitted: true, ..w0 }),
                w0.tool_use_id == Some(tool@),
                parent@ == "tool_call:"@ + tool@,
                first == (if w0.placeholder_emitted {
                    Seq::empty()
                } else {
                    seq![placeholder(w0.agent_id, tool@)]
                }),
                goal == stream(data@, w0.byte_offset as int, w0.parse_state, first, parent@),
                self@ == (WatcherModel { parse_state: self@.parse_state, ..w1 }),
                goal == stream(data@, pos as int, self@.parse_state, op_views(out@), parent@),
            decreases data@.len() - pos,
        {
            let end: usize = match find_line_end(data, pos) {
                Some(end) => end,
                None => {
                    self.byte_offset = pos;
                    assert(self@ =~= agent_read(w0, Some(data@)).0);
                    return Ok(out);
                },
            };
            let text = match read_line(data, pos, end) {
                Some(t) => t,
                None => {
                    self.byte_offset = pos;
                    assert(self@ =~= agent_read(w0, Some(data@)).0);
                    return Err(ReadError::NotText);
                },
            };
            let bare = trim(text.as_str());
            if let Some(obj) = parse_json(bare.as_str()) {
                let steps = parse_entry_value(&obj, &mut self.parse_state);
                let ops = ops_of_steps(steps);
                move_under(ops, parent.as_str(), &mut out);
            }
            pos = end;
        }
    }
}

/// What a change of a file does: its agent is noted, and what is new in its transcript is taken.
pub open spec fn file_change(
    m: ManagerModel,
    name: Seq<char>,
    text: Option<Seq<char>>,
    data: Option<Seq<u8>>,
) -> (ManagerModel, Seq<OpModel>, bool) {
    match file_agent(name) {
        Some(id) => {
            let noted = after_file(m, id, text);
            let i = agent_at(noted.agents, id);
            if i < noted.agents.len() {
                let (after, ops, broken) = agent_read(noted.agents[i], data);
                (ManagerModel { agents: noted.agents.update(i, after), ..noted }, ops, broken)
            } else {
                (noted, Seq::empty(), false)
            }
        },
        None => (m, Seq::empty(), false),
    }
}

impl ClaudeSubagentManager {
    /// The manager of a session without agents.
    pub fn new() -> (r: Self)
        ensures
            r@ == no_agents(),
    {
        let r = ClaudeSubagentManager {
            tool_uses_by_description: StringHashMap::new(),
            tool_uses_by_agent_id: StringHashMap::new(),
            subagents: Vec::new(),
        };
        assert(r@ =~= no_agents());
        r
    }

    fn position(&self, agent_id: &str) -> (r: Option<usize>)
        ensures
            match r {
                Some(i) => i < self.subagents@.len() && agent_at(self@.agents, agent_id@) == i,
                None => agent_at(self@.agents, agent_id@) == self@.agents.len(),
            },
            self@.agents.len() == self.subagents@.len(),
    {
        let mut i: usize = 0;
        while i < self.subagents.len()
            invariant
                i <= self.subagents@.len(),
                forall|k: int| 0 <= k < i ==> (#[trigger] self@.agents[k]).agent_id != agent_id@,
            decreases self.subagents@.len() - i,
        {
            assert(self@.agents[i as int] == self.subagents@[i as int]@);
            if same_text(self.subagents[i].agent_id.as_str(), agent_id) {
                proof {
                    lemma_agent_at(self@.agents, agent_id@, i as int);
                }
                return Some(i);
            }
            i = i + 1;
        }
        proof {
            lemma_agent_at(self@.agents, agent_id@, i as int);
        }
        None
    }

    /// Notes a call of the agent tool. Gives the agent that waited for it, whose transcript can now
    /// be read.
    pub fn on_subagent_tool_use(&mut self, tool_use_id: &str, description: &str) -> (r: Option<
        String,
    >)
        ensures
            final(self)@ == after_tool_use(old(self)@, tool_use_id@, description@),
            ({
                let i = unmatched_at(old(self)@.agents, description@);
                text_opt(r) == (if i < old(self)@.agents.len() {
                    Some(old(self)@.agents[i].agent_id)
                } else {
                    None
                })
            }),
    {
        let ghost m0 = self@;
        let ghost goal = after_tool_use(self@, tool_use_id@, description@);
        let ghost before = self.tool_uses_by_description@;
        self.tool_uses_by_description.insert(description.to_owned(), tool_use_id.to_owned());
        assert(texts_of(self.tool_uses_by_description@) =~= texts_of(before).insert(
            description@,
            tool_use_id@,
        ));
        let ghost m1 = self@;
        let mut i: usize = 0;
        while i < self.subagents.len()
            invariant
                i <= self.subagents@.len(),
                self@ == m1,
                m1.agents == m0.agents,
                m0 == old(self)@,
                m1 == (ManagerModel {
                    by_description: m0.by_description.insert(description@, tool_use_id@),
                    ..m0
                }),
                goal == after_tool_use(m0, tool_use_id@, description@),
                forall|k: int|
                    0 <= k < i ==> !((#[trigger] m0.agents[k]).description == Some(description@)
                        && m0.agents[k].tool_use_id is None),
            decreases self.subagents@.len() - i,
        {
            assert(m0.agents[i as int] == self.subagents@[i as int]@);
            let fits = match &self.subagents[i].description {
                Some(d) => same_text(d.as_str(), description),
                None => false,
            };
            if fits && self.subagents[i].tool_use_id.is_none() {
                proof {
                    lemma_unmatched_at(m0.agents, description@, i as int);
                }
                let ghost list = self.subagents@;
                self.subagents[i].tool_use_id = Some(tool_use_id.to_owned());
                assert(watcher_views(self.subagents@) =~= watcher_views(list).update(
                    i as int,
                    matched(list[i as int]@, tool_use_id@),
                ));
                assert(self@ =~= goal);
                return Some(self.subagents[i].agent_id.clone());
            }
            i = i + 1;
        }
        proof {
            assert(m0.agents.len() == self.subagents@.len());
            lemma_unmatched_at(m0.agents, description@, i as int);
        }
        assert(self@ =~= goal);
        None
    }

    /// Notes a result of the agent tool. Gives whether the agent is known, so that its transcript
    /// can now be read.
    pub fn on_subagent_tool_result(&mut self, tool_use_id: &str, agent_id: &str) -> (r: bool)
        ensures
            final(self)@ == after_tool_result(old(self)@, tool_use_id@, agent_id@),
            r == (agent_at(old(self)@.agents, agent_id@) < old(self)@.agents.len()),
    {
        let ghost goal = after_tool_result(self@, tool_use_id@, agent_id@);
        let ghost before = self.tool_uses_by_agent_id@;
        let found = self.position(agent_id);
        self.tool_uses_by_agent_id.insert(agent_id.to_owned(), tool_use_id.to_owned());
        assert(texts_of(self.tool_uses_by_agent_id@) =~= texts_of(before).insert(
            agent_id@,
            tool_use_id@,
        ));
        match found {
            Some(i) => {
                let ghost list = self.subagents@;
                self.subagents[i].tool_use_id = Some(tool_use_id.to_owned());
                assert(watcher_views(self.subagents@) =~= watcher_views(list).update(
                    i as int,
                    matched(list[i as int]@, tool_use_id@),
                ));
                assert(self@ =~= goal);
                true
            },
            None => {
                assert(self@ =~= goal);
                false
            },
        }
    }

    /// Notes that a file of an agent was seen. `text` is what the file holds, where it is text.
    pub fn detect_subagent(&mut self, agent_id: &str, text: Option<&str>)
        ensures
            final(self)@ == after_file(
                old(self)@,
                agent_id@,
                match text {
                    Some(t) => Some(t@),
                    None => None,
                },
            ),
    {
        let ghost seen = match text {
            Some(t) => Some(t@),
            None => None,
        };
        let ghost m0 = self@;
        let ghost goal = after_file(self@, agent_id@, seen);
        let at: usize = match self.position(agent_id) {
            Some(i) => i,
            None => {
                let mut parse_state = ParseState::default();
                parse_state.id_prefix = concat3("sa:", agent_id, ":");
                let w = SubagentWatcher {
                    agent_id: agent_id.to_owned(),
                    tool_use_id: None,
                    description: None,
                    placeholder_emitted: false,
                    byte_offset: 0,
                    parse_state,
                };
                assert(w@ =~= new_watcher(agent_id@));
                let ghost list = self.subagents@;
                self.subagents.push(w);
                assert(watcher_views(self.subagents@) =~= watcher_views(list).push(
                    new_watcher(agent_id@),
                ));
                self.subagents.len() - 1
            },
        };
        let ghost list = self.subagents@;
        let ghost w = list[at as int]@;
        let mut description = match &self.subagents[at].description {
            Some(d) => Some(d.clone()),
            None => None,
        };
        if description.is_none() {
            description = match text {
                Some(t) => match parse_json(t) {
                    Some(obj) => match obj.get_str("description") {
                        Some(d) => Some(d.to_owned()),
                        None => None,
                    },
                    None => None,
                },
                None => None,
            };
        }
        let mut tool_use_id = match &self.subagents[at].tool_use_id {
            Some(t) => Some(t.clone()),
            None => match &description {
                Some(d) => copy_value(&self.tool_uses_by_description, d.as_str()),
                None => None,
            },
        };
        if tool_use_id.is_none() {
            tool_use_id = copy_value(&self.tool_uses_by_agent_id, agent_id);
        }
        proof {
            if agent_at(m0.agents, agent_id@) < m0.agents.len() {
                lemma_agent_at_found(m0.agents, agent_id@);
            }
        }
        assert(w.agent_id == agent_id@);
        self.subagents[at].description = description;
        self.subagents[at].tool_use_id = tool_use_id;
        assert(self.subagents@[at as int]@ =~= recognized(m0, w, seen));
        assert(watcher_views(self.subagents@) =~= watcher_views(list).update(
            at as int,
            recognized(m0, w, seen),
        ));
        assert(self@ =~= goal);
    }

    /// Takes a change of a file: its agent is noted, and its transcript is read. `text` is what the
    /// file holds, where it is text, and `content` is the agent's transcript, where there is one.
    pub fn on_subagent_event(
        &mut self,
        name: &str,
        text: Option<&str>,
        content: Option<&[u8]>,
    ) -> (r: Result<Vec<TreeOperation>, ReadError>)
        ensures
            ({
                let (after, ops, broken) = file_change(
                    old(self)@,
                    name@,
                    match text {
                        Some(t) => Some(t@),
                        None => None,
                    },
                    match content {
                        Some(c) => Some(c@),
                        None => None,
                    },
                );
                &&& final(self)@ == after
                &&& match r {
                    Ok(v) => !broken && op_views(v@) == ops,
                    Err(e) => broken && e@ == ReadErrorModel::NotText,
                }
            }),
    {
        match agent_of_file(name) {
            Some(id) => {
                self.detect_subagent(id.as_str(), text);
                self.read_subagent_jsonl(id.as_str(), content)
            },
            None => {
                let none: Vec<TreeOperation> = Vec::new();
                assert(op_views(none@) =~= Seq::<OpModel>::empty());
                Ok(none)
            },
        }
    }

    /// Reads an agent's transcript. `content` is the whole file, or `None` where there is none yet.
    pub fn read_subagent_jsonl(&mut self, agent_id: &str, content: Option<&[u8]>) -> (r: Result<
        Vec<TreeOperation>,
        ReadError,
    >)
        ensures
            ({
                let i = agent_at(old(self)@.agents, agent_id@);
                let data = match content {
                    Some(c) => Some(c@),
                    None => None,
                };
                if i < old(self)@.agents.len() {
                    let (after, ops, broken) = agent_read(old(self)@.agents[i], data);
                    &&& final(self)@ == (ManagerModel {
                        agents: old(self)@.agents.update(i, after),
                        ..old(self)@
                    })
                    &&& match r {
                        Ok(v) => !broken && op_views(v@) == ops,
                        Err(e) => broken && e@ == ReadErrorModel::NotText,
                    }
                } else {
                    final(self)@ == old(self)@ && r is Ok && r->Ok_0@.len() == 0
                }
            }),
    {
        match self.position(agent_id) {
            Some(i) => {
                let ghost list = self.subagents@;
                let ghost m0 = self@;
                let r = self.subagents[i].read(content);
                let ghost after = self.subagents@[i as int]@;
                assert(watcher_views(self.subagents@) =~= watcher_views(list).update(
                    i as int,
                    after,
                ));
                assert(self@ =~= (ManagerModel { agents: m0.agents.update(i as int, after), ..m0 }));
                r
            },
            None => Ok(Vec::new()),
        }
    }

    /// Forgets the agents and the calls by description. The calls by agent stay.
    pub fn clear(&mut self)
        ensures
            final(self)@ == (ManagerModel {
                by_agent_id: old(self)@.by_agent_id,
                ..no_agents()
            }),
    {
        self.subagents.clear();
        self.tool_uses_by_description.clear();
        assert(self@.agents =~= Seq::<WatcherModel>::empty());
        assert(self@.by_description =~= Map::<Seq<char>, Seq<char>>::empty());
    }
}

proof fn lemma_agent_at_found(agents: Seq<WatcherModel>, id: Seq<char>)
    requires
        agent_at(agents, id) < agents.len(),
    ensures
        0 <= agent_at(agents, id),
        agents[agent_at(agents, id)].agent_id == id,
    decreases agents.len(),
{
    if agents.len() > 0 && agents[0].agent_id != id {
        lemma_agent_at_found(agents.skip(1), id);
    }
}

// ---------------------------------------------------------------------------
// Laws
// ---------------------------------------------------------------------------

/// An agent's bytes stay unread until its call is known.
pub proof fn law_waits_for_call(w: WatcherModel, data: Option<Seq<u8>>)
    requires
        w.tool_use_id is None,
    ensures
        agent_read(w, data) == (w, Seq::<OpModel>::empty(), false),
{
}

proof fn lemma_stream_end(
    data: Seq<u8>,
    pos: int,
    state: ParseModel,
    ops: Seq<OpModel>,
    parent: Seq<char>,
)
    requires
        0 <= pos <= usize::MAX,
        data.len() <= usize::MAX,
    ensures
        ({
            let s = stream(data, pos, state, ops, parent);
            &&& 0 <= s.pos <= usize::MAX
            &&& !s.broken ==> line_end(data, s.pos) is None
        }),
    decreases data.len() - pos,
{
    lemma_line_end(data, pos);
    if let Some(end) = line_end(data, pos) {
        if let Some(text) = line_text(data, pos, end) {
            match json_parsed(trimmed(text)) {
                Some(obj) => {
                    let (s, steps) = entry_steps(state, obj);
                    lemma_stream_end(
                        data,
                        end,
                        s,
                        ops + all_under(ops_among(steps), parent),
                        parent,
                    );
                },
                None => lemma_stream_end(data, end, state, ops, parent),
            }
        }
    }
}

/// Reading the same file again gives nothing: the placeholder comes once, and so does each line.
pub proof fn law_read_once(w: WatcherModel, data: Seq<u8>)
    requires
        data.len() <= usize::MAX,
        !agent_read(w, Some(data)).2,
    ensures
        ({
            let again = agent_read(w, Some(data)).0;
            agent_read(again, Some(data)) == (again, Seq::<OpModel>::empty(), false)
        }),
{
    if w.tool_use_id is Some {
        let tool = w.tool_use_id->0;
        let first = if w.placeholder_emitted {
            Seq::empty()
        } else {
            seq![placeholder(w.agent_id, tool)]
        };
        lemma_stream_end(
            data,
            w.byte_offset as int,
            w.parse_state,
            first,
            "tool_call:"@ + tool,
        );
    }
}

/// Seeing the same file of an agent again changes nothing.
pub proof fn law_same_file_again(m: ManagerModel, agent_id: Seq<char>, text: Option<Seq<char>>)
    ensures
        after_file(after_file(m, agent_id, text), agent_id, text) == after_file(m, agent_id, text),
{
    let once = after_file(m, agent_id, text);
    let i = agent_at(m.agents, agent_id);
    lemma_agent_at_bounds(m.agents, agent_id);
    if i < m.agents.len() {
        lemma_agent_at_found(m.agents, agent_id);
        lemma_agent_at_first(m.agents, agent_id);
        assert forall|k: int| 0 <= k < i implies (#[trigger] once.agents[k]).agent_id
            != agent_id by {
            assert(once.agents[k] == m.agents[k]);
        }
    } else {
        lemma_agent_at_first(m.agents, agent_id);
        assert forall|k: int| 0 <= k < i implies (#[trigger] once.agents[k]).agent_id
            != agent_id by {
            assert(once.agents[k] == m.agents[k]);
        }
    }
    lemma_agent_at(once.agents, agent_id, i);
    assert(recognized(once, once.agents[i], text) =~= once.agents[i]);
    assert(after_file(once, agent_id, text).agents =~= once.agents);
}

/// A change that is told of twice is taken once: the second time nothing is handed on, and
/// nothing changes.
pub proof fn law_event_again(
    m: ManagerModel,
    name: Seq<char>,
    text: Option<Seq<char>>,
    data: Option<Seq<u8>>,
)
    requires
        data is Some ==> data->0.len() <= usize::MAX,
        !file_change(m, name, text, data).2,
    ensures
        ({
            let after = file_change(m, name, text, data).0;
            file_change(after, name, text, data) == (after, Seq::<OpModel>::empty(), false)
        }),
{
    if let Some(id) = file_agent(name) {
        let noted = after_file(m, id, text);
        let i = agent_at(m.agents, id);
        lemma_agent_at_bounds(m.agents, id);
        lemma_agent_at_first(m.agents, id);
        if i < m.agents.len() {
            lemma_agent_at_found(m.agents, id);
        }
        assert forall|k: int| 0 <= k < i implies (#[trigger] noted.agents[k]).agent_id != id by {
            assert(noted.agents[k] == m.agents[k]);
        }
        lemma_agent_at(noted.agents, id, i);
        law_same_file_again(m, id, text);
        let w = noted.agents[i];
        assert(recognized(noted, w, text) =~= w) by {
            assert(after_file(noted, id, text).agents[i] == noted.agents[i]);
        }
        if let Some(bytes) = data {
            law_read_once(w, bytes);
        }
        let read = agent_read(w, data).0;
        let after = file_change(m, name, text, data).0;
        assert(after.agents =~= noted.agents.update(i, read));
        assert forall|k: int| 0 <= k < i implies (#[trigger] after.agents[k]).agent_id != id by {
            assert(after.agents[k] == noted.agents[k]);
        }
        lemma_agent_at(after.agents, id, i);
        assert(recognized(after, read, text) =~= read);
        assert(after_file(after, id, text).agents =~= after.agents);
        assert(after_file(after, id, text) =~= after);
        assert(file_change(after, name, text, data).0.agents =~= after.agents);
    }
}

proof fn lemma_agent_at_bounds(agents: Seq<WatcherModel>, id: Seq<char>)
    ensures
        0 <= agent_at(agents, id) <= agents.len(),
    decreases agents.len(),
{
    if agents.len() > 0 && agents[0].agent_id != id {
        lemma_agent_at_bounds(agents.skip(1), id);
    }
}

proof fn lemma_agent_at_first(agents: Seq<WatcherModel>, id: Seq<char>)
    ensures
        forall|k: int| 0 <= k < agent_at(agents, id) ==> (#[trigger] agents[k]).agent_id != id,
    decreases agents.len(),
{
    if agents.len() > 0 && agents[0].agent_id != id {
        let rest = agents.skip(1);
        lemma_agent_at_first(rest, id);
        lemma_agent_at_bounds(rest, id);
        assert forall|k: int| 0 <= k < agent_at(agents, id) implies (#[trigger] agents[k]).agent_id
            != id by {
            if k > 0 {
                assert(rest[k - 1].agent_id != id);
            }
        }
    }
}

/// An agent is matched with its call whichever of the two is seen first: the call in the session's
/// transcript, or the agent's file with the call's description.
pub proof fn law_match_in_either_order(
    m: ManagerModel,
    agent_id: Seq<char>,
    text: Option<Seq<char>>,
    tool_use_id: Seq<char>,
    description: Seq<char>,
)
    requires
        described(text) == Some(description),
        !m.by_description.contains_key(description),
        !m.by_agent_id.contains_key(agent_id),
        agent_at(m.agents, agent_id) == m.agents.len(),
        unmatched_at(m.agents, description) == m.agents.len(),
    ensures
        ({
            let call_first = after_file(
                after_tool_use(m, tool_use_id, description),
                agent_id,
                text,
            );
            let file_first = after_tool_use(
                after_file(m, agent_id, text),
                tool_use_id,
                description,
            );
            &&& call_first == file_first
            &&& call_first.agents.last().agent_id == agent_id
            &&& call_first.agents.last().tool_use_id == Some(tool_use_id)
        }),
{
    let n = m.agents.len() as int;
    let seen = after_file(m, agent_id, text);
    lemma_unmatched_first(m.agents, description);
    assert forall|k: int| 0 <= k < n implies !((#[trigger] seen.agents[k]).description == Some(
        description,
    ) && seen.agents[k].tool_use_id is None) by {
        assert(seen.agents[k] == m.agents[k]);
    }
    lemma_unmatched_at(seen.agents, description, n);
    let call_first = after_file(after_tool_use(m, tool_use_id, description), agent_id, text);
    let file_first = after_tool_use(seen, tool_use_id, description);
    assert(call_first.agents =~= file_first.agents);
}

proof fn lemma_unmatched_first(agents: Seq<WatcherModel>, d: Seq<char>)
    ensures
        0 <= unmatched_at(agents, d) <= agents.len(),
        forall|k: int|
            0 <= k < unmatched_at(agents, d) ==> !((#[trigger] agents[k]).description == Some(d)
                && agents[k].tool_use_id is None),
    decreases agents.len(),
{
    if agents.len() > 0 && !(agents[0].description == Some(d) && agents[0].tool_use_id is None) {
        let rest = agents.skip(1);
        lemma_unmatched_first(rest, d);
        assert forall|k: int|
            0 <= k < unmatched_at(agents, d) implies !((#[trigger] agents[k]).description == Some(
            d,
        ) && agents[k].tool_use_id is None) by {
            if k > 0 {
                assert(!(rest[k - 1].description == Some(d) && rest[k - 1].tool_use_id is None));
            }
        }
    }
}

} // verus!
