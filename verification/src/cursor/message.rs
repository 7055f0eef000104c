//! From the blobs of a session to operations on the tree.
use crate::claude::message::{
    at, clip, content_text, extract_content_text, flag, get_str2, is_flag, is_str, json_map, or_text,
    text_or,
};
use crate::claude::xml::{closing, extract_xml_tag, opening, tag_text};
use crate::cursor::hex::{bytes_to_hex, hash_of, hex_text, hex_to_bytes32};
use crate::cursor::notification::{notice, NotificationModel, TaskNotification};
use crate::cursor::timestamp::{parse_timestamp, timestamp_of};
use crate::json::{
    compact, items_field, json_model, json_opt, json_parsed, json_parsed_bytes, parse_json,
    parse_json_bytes, str_field, Json, JsonModel,
};
use crate::text::{
    capitalize, capitalized, chars_of, concat2, concat3, contains_text, decimal, decimal_text, ends,
    ends_with, find_from, first_at, holds_text, matches_at, same_text, signed_decimal,
    signed_decimal_text, starts, starts_with, string_of_range, trim, trimmed,
};
use crate::tree::{
    leaf, message_views, op_views, text_opt, HiddenState, MessageModel, MessageState,
    MessageType, OpModel, TreeOperation,
};
use vstd::hash_map::StringHashMap;
use vstd::hash_set::StringHashSet;
use vstd::prelude::*;
use vstd::string::*;

verus! {

broadcast use vstd::string::group_string_axioms;

// ---------------------------------------------------------------------------
// State
// ---------------------------------------------------------------------------

/// A background task and the call that started it.
#[derive(Debug, PartialEq)]
pub struct BackgroundTask {
    pub tool_call_id: String,
    /// Whether an agent runs the task, and not a shell.
    pub is_subagent: bool,
}

/// What a `BackgroundTask` holds.
pub struct TaskModel {
    pub tool_call_id: Seq<char>,
    pub is_subagent: bool,
}

impl View for BackgroundTask {
    type V = TaskModel;

    open spec fn view(&self) -> TaskModel {
        TaskModel { tool_call_id: self.tool_call_id@, is_subagent: self.is_subagent }
    }
}

/// What the blobs parsed so far leave behind.
pub struct ParseState {
    /// The ids of the blobs that have been parsed, in lower case.
    pub seen_blobs: StringHashSet,
    pub pending_tool_calls: StringHashMap<Json>,
    /// Whether the tree holds the node of a message that is still being written.
    pub has_pending: bool,
    pub background_tasks: StringHashMap<BackgroundTask>,
}

/// What a `ParseState` holds.
#[verifier::ext_equal]
pub struct ParseModel {
    pub seen: Set<Seq<char>>,
    pub pending: Map<Seq<char>, JsonModel>,
    pub has_pending: bool,
    pub tasks: Map<Seq<char>, TaskModel>,
}

/// The contents of the values of a map.
pub open spec fn task_map(m: Map<Seq<char>, BackgroundTask>) -> Map<Seq<char>, TaskModel> {
    Map::new(|k: Seq<char>| m.contains_key(k), |k: Seq<char>| m[k]@)
}

impl View for ParseState {
    type V = ParseModel;

    open spec fn view(&self) -> ParseModel {
        ParseModel {
            seen: self.seen_blobs@,
            pending: json_map(self.pending_tool_calls@),
            has_pending: self.has_pending,
            tasks: task_map(self.background_tasks@),
        }
    }
}

/// The state before any blob.
pub open spec fn empty_state() -> ParseModel {
    ParseModel {
        seen: Set::empty(),
        pending: Map::empty(),
        has_pending: false,
        tasks: Map::empty(),
    }
}

impl ParseState {
    /// The state before any blob.
    pub fn new() -> (r: Self)
        ensures
            r@ == empty_state(),
    {
        let r = ParseState {
            seen_blobs: StringHashSet::new(),
            pending_tool_calls: StringHashMap::new(),
            has_pending: false,
            background_tasks: StringHashMap::new(),
        };
        assert(r@ =~= empty_state());
        r
    }
}

impl Default for ParseState {
    fn default() -> (r: Self)
        ensures
            r@ == empty_state(),
    {
        Self::new()
    }
}

// ---------------------------------------------------------------------------
// Wrappers of user messages
// ---------------------------------------------------------------------------

/// The text without its first `<timestamp>` element, and what that element holds.
pub open spec fn without_timestamp(text: Seq<char>) -> (Seq<char>, Option<Seq<char>>) {
    match first_at(text, opening("timestamp"@), 0) {
        Some(a) => {
            let start = a + opening("timestamp"@).len();
            match first_at(text, closing("timestamp"@), start) {
                Some(e) => (
                    text.take(a) + text.skip(e + closing("timestamp"@).len()),
                    Some(text.subrange(start, e)),
                ),
                None => (text, None),
            }
        },
        None => (text, None),
    }
}

/// The text without its first `<timestamp>` element, and what that element holds.
pub fn strip_timestamp(text: &str) -> (r: (String, Option<String>))
    ensures
        (r.0@, text_opt(r.1)) == without_timestamp(text@),
{
    let v = chars_of(text);
    let open = chars_of(concat3("<", "timestamp", ">").as_str());
    let close = chars_of(concat3("</", "timestamp", ">").as_str());
    match find_from(&v, &open, 0) {
        Some(a) => {
            let start: usize = a + open.len();
            match find_from(&v, &close, start) {
                Some(e) => {
                    let before = string_of_range(&v, 0, a);
                    let inner = string_of_range(&v, start, e);
                    let after = string_of_range(&v, e + close.len(), v.len());
                    proof {
                        assert(v@.subrange(0, a as int) =~= v@.take(a as int));
                        assert(v@.subrange(e + close@.len(), v@.len() as int) =~= v@.skip(
                            e + close@.len(),
                        ));
                    }
                    (concat2(before.as_str(), after.as_str()), Some(inner))
                },
                None => (text.to_owned(), None),
            }
        },
        None => (text.to_owned(), None),
    }
}

/// The text to show of a user message: the query that it wraps, or all but the timestamp; and the
/// timestamp.
pub open spec fn user_text(text: Seq<char>) -> (Seq<char>, Option<Seq<char>>) {
    let (rest, ts) = without_timestamp(text);
    match tag_text(rest, "user_query"@) {
        Some(query) => (trimmed(query), ts),
        None => (trimmed(rest), ts),
    }
}

/// The text to show of a user message, and its timestamp.
pub fn strip_message_tags(text: &str) -> (r: (String, Option<String>))
    ensures
        (r.0@, text_opt(r.1)) == user_text(text@),
{
    let (rest, ts) = strip_timestamp(text);
    match extract_xml_tag(rest.as_str(), "user_query") {
        Some(query) => (trim(query.as_str()), ts),
        None => (trim(rest.as_str()), ts),
    }
}

// ---------------------------------------------------------------------------
// Tool calls
// ---------------------------------------------------------------------------

/// An object that holds one text as `_`.
pub open spec fn wrapped(s: Seq<char>) -> JsonModel {
    JsonModel::Object(seq![("_"@, JsonModel::Str(s))])
}

/// The arguments of a call as an object: an object itself, or the one that a string spells; any
/// other text is wrapped.
pub open spec fn args_props(args: JsonModel) -> Option<JsonModel> {
    match args {
        JsonModel::Object(_) => Some(args),
        JsonModel::Str(s) => match json_parsed(s) {
            Some(v) => if v is Object {
                Some(v)
            } else {
                Some(wrapped(s))
            },
            None => Some(wrapped(s)),
        },
        JsonModel::Null => None,
        _ => Some(wrapped(compact(args))),
    }
}

fn wrap_text(s: String) -> (r: Json)
    ensures
        r@ == wrapped(s@),
{
    let mut members: Vec<(String, Json)> = Vec::new();
    members.push(("_".to_owned(), Json::Str(s)));
    let r = Json::Object(members);
    proof {
        reveal_with_fuel(json_model, 2);
        assert(r@->Object_0 =~= wrapped(s@)->Object_0);
    }
    r
}

/// The arguments of a call as an object.
pub fn extract_args_props(args: &Json) -> (r: Option<Json>)
    ensures
        json_opt(r) == args_props(args@),
{
    match args {
        Json::Object(_) => Some(args.clone()),
        Json::Str(s) => {
            match parse_json(s.as_str()) {
                Some(Json::Object(members)) => Some(Json::Object(members)),
                _ => Some(wrap_text(s.clone())),
            }
        },
        Json::Null => None,
        _ => Some(wrap_text(args.to_compact())),
    }
}

fn props_at(j: &Json, key: &str) -> (r: Option<Json>)
    ensures
        json_opt(r) == args_props(at(j@, key@)),
{
    match j.get(key) {
        Some(args) => extract_args_props(args),
        None => None,
    }
}

/// The text of a task's result.
pub open spec fn task_result_text(block: JsonModel) -> Seq<char> {
    let first = match items_field(block, "experimental_content"@) {
        Some(items) => if items.len() > 0 {
            str_field(items[0], "text"@)
        } else {
            None
        },
        None => None,
    };
    match first {
        Some(t) => t,
        None => or_text(str_field(block, "result"@), ""@),
    }
}

/// The text of a task's result.
pub fn extract_task_result_text(block: &Json) -> (r: String)
    ensures
        r@ == task_result_text(block@),
{
    match block.get("experimental_content") {
        Some(Json::Array(items)) => {
            if items.len() > 0 {
                if let Some(t) = items[0].get_str("text") {
                    return t.to_owned();
                }
            }
        },
        _ => {},
    }
    text_or(block, "result", "")
}

/// The first member whose name ends in `ToolCall`.
pub open spec fn first_call(members: Seq<(Seq<char>, JsonModel)>) -> Option<(Seq<char>, JsonModel)>
    decreases members.len(),
{
    if members.len() == 0 {
        None
    } else if ends(members[0].0, "ToolCall"@) {
        Some(members[0])
    } else {
        first_call(members.skip(1))
    }
}

/// `s` without the words `w` that it ends with.
pub open spec fn drop_words(s: Seq<char>, w: Seq<char>) -> Seq<char>
    decreases s.len(),
{
    if w.len() > 0 && ends(s, w) {
        drop_words(s.take(s.len() - w.len()), w)
    } else {
        s
    }
}

fn cut_words(s: &str, w: &str) -> (r: String)
    requires
        w@.len() > 0,
    ensures
        r@ == drop_words(s@, w@),
{
    let v = chars_of(s);
    let word = chars_of(w);
    let mut end: usize = v.len();
    assert(v@.take(end as int) =~= v@);
    loop
        invariant
            end <= v@.len(),
            v@ == s@,
            word@ == w@,
            w@.len() > 0,
            drop_words(s@, w@) == drop_words(v@.take(end as int), w@),
        decreases end,
    {
        let ghost here = v@.take(end as int);
        if word.len() > end || !matches_at(&v, &word, end - word.len()) {
            proof {
                if ends(here, w@) {
                    assert(here.subrange(here.len() - w@.len(), here.len() as int)
                        =~= v@.subrange(end - w@.len(), end as int));
                }
            }
            assert(v@.subrange(0, end as int) =~= here);
            return string_of_range(&v, 0, end);
        }
        proof {
            assert(v@.subrange(end - w@.len(), end as int) =~= here.subrange(
                here.len() - w@.len(),
                here.len() as int,
            ));
            assert(here.take(here.len() - w@.len()) =~= v@.take(end - w@.len()));
        }
        end = end - word.len();
    }
}

/// The members but those named `key`.
pub open spec fn without_key(members: Seq<(Seq<char>, JsonModel)>, key: Seq<char>) -> Seq<
    (Seq<char>, JsonModel),
> {
    members.filter(|m: (Seq<char>, JsonModel)| m.0 != key)
}

/// How a call of an agent's step ended.
pub open spec fn step_tag(result: JsonModel) -> Option<Seq<char>> {
    if !(at(result, "success"@) is Null) {
        Some("success"@)
    } else if !(at(result, "failure"@) is Null) || !(at(result, "error"@) is Null) || !(at(
        result,
        "permissionDenied"@,
    ) is Null) {
        Some("error"@)
    } else {
        None
    }
}

/// The node of one step of an agent's conversation: thinking, a message, or a call of a tool.
pub open spec fn step_node(call_id: Seq<char>, i: nat, step: JsonModel) -> Option<MessageModel> {
    let tail = call_id + ":"@ + decimal(i);
    if !(at(step, "thinkingMessage"@) is Null) {
        Some(
            leaf(
                "subagent_think:"@ + tail,
                or_text(str_field(at(step, "thinkingMessage"@), "text"@), ""@),
                compact(step),
                MessageType::Thinking,
            ),
        )
    } else if !(at(step, "assistantMessage"@) is Null) {
        Some(
            leaf(
                "subagent_text:"@ + tail,
                or_text(str_field(at(step, "assistantMessage"@), "text"@), ""@),
                compact(step),
                MessageType::AgentMessage,
            ),
        )
    } else {
        match at(step, "toolCall"@) {
            JsonModel::Object(members) => match first_call(members) {
                Some((kind, call)) => Some(
                    MessageModel {
                        props: match args_props(at(call, "args"@)) {
                            Some(JsonModel::Object(args)) => Some(
                                JsonModel::Object(without_key(args, "toolCallId"@)),
                            ),
                            _ => None,
                        },
                        tag: step_tag(at(call, "result"@)),
                        ..leaf(
                            "subagent_tool:"@ + tail,
                            capitalized(drop_words(kind, "ToolCall"@)),
                            compact(step),
                            MessageType::ToolCall,
                        )
                    },
                ),
                None => None,
            },
            _ => None,
        }
    }
}

fn is_given(j: &Json, key: &str) -> (r: bool)
    ensures
        r == !(at(j@, key@) is Null),
{
    match j.get(key) {
        Some(Json::Null) => false,
        Some(_) => true,
        None => false,
    }
}

fn tag_of_step(call: &Json) -> (r: Option<&'static str>)
    ensures
        match r {
            Some(t) => step_tag(at(call@, "result"@)) == Some(t@),
            None => step_tag(at(call@, "result"@)) is None,
        },
{
    match call.get("result") {
        Some(result) => {
            if is_given(result, "success") {
                Some("success")
            } else if is_given(result, "failure") || is_given(result, "error") || is_given(
                result,
                "permissionDenied",
            ) {
                Some("error")
            } else {
                None
            }
        },
        None => None,
    }
}

fn find_call(members: &Vec<(String, Json)>) -> (r: Option<(&String, &Json)>)
    ensures
        match r {
            Some((k, v)) => first_call(json_model(Json::Object(*members))->Object_0) == Some(
                (k@, v@),
            ),
            None => first_call(json_model(Json::Object(*members))->Object_0) is None,
        },
{
    let ghost all = json_model(Json::Object(*members))->Object_0;
    let mut i: usize = 0;
    assert(all.skip(0) =~= all);
    while i < members.len()
        invariant
            i <= members@.len(),
            all == json_model(Json::Object(*members))->Object_0,
            first_call(all) == first_call(all.skip(i as int)),
        decreases members@.len() - i,
    {
        assert(all.skip(i as int).skip(1) =~= all.skip(i + 1));
        assert(all.skip(i as int)[0] == (members@[i as int].0@, members@[i as int].1@));
        if ends_with(members[i].0.as_str(), "ToolCall") {
            return Some((&members[i].0, &members[i].1));
        }
        i = i + 1;
    }
    None
}

fn drop_key(members: Vec<(String, Json)>, key: &str) -> (r: Json)
    ensures
        r@ == JsonModel::Object(without_key(json_model(Json::Object(members))->Object_0, key@)),
{
    let ghost all = json_model(Json::Object(members))->Object_0;
    let ghost keep = |m: (Seq<char>, JsonModel)| m.0 != key@;
    let ghost source = members@;
    let mut out: Vec<(String, Json)> = Vec::new();
    proof {
        reveal(Seq::filter);
        assert(all.take(0) =~= Seq::<(Seq<char>, JsonModel)>::empty());
        assert(json_model(Json::Object(out))->Object_0 =~= all.take(0).filter(keep));
    }
    for member in it: members
        invariant
            it.seq() == source,
            all.len() == source.len(),
            forall|k: int| 0 <= k < all.len() ==> all[k] == (source[k].0@, source[k].1@),
            keep == (|m: (Seq<char>, JsonModel)| m.0 != key@),
            json_model(Json::Object(out))->Object_0 == all.take(it.index() as int).filter(keep),
    {
        proof {
            reveal(Seq::filter);
            let i = it.index() as int;
            assert(member == source[i]);
            assert(all.take(i + 1).drop_last() =~= all.take(i));
            assert(all.take(i + 1).last() == all[i]);
        }
        let ghost before = json_model(Json::Object(out))->Object_0;
        let ghost pair = (member.0@, member.1@);
        if !same_text(member.0.as_str(), key) {
            out.push(member);
            proof {
                assert(json_model(Json::Object(out))->Object_0 =~= before.push(pair));
            }
        }
    }
    proof {
        assert(all.take(all.len() as int) =~= all);
    }
    Json::Object(out)
}

/// The node of one step of an agent's conversation.
pub fn build_subagent_node(tool_call_id: &str, i: usize, step: &Json) -> (r: Option<MessageState>)
    ensures
        match r {
            Some(n) => step_node(tool_call_id@, i as nat, step@) == Some(n@),
            None => step_node(tool_call_id@, i as nat, step@) is None,
        },
{
    proof {
        reveal_strlit("ToolCall");
    }
    let number = decimal_text(i as u64);
    let tail = concat3(tool_call_id, ":", number.as_str());
    if is_given(step, "thinkingMessage") {
        let text = match get_str2(step, "thinkingMessage", "text") {
            Some(t) => t.to_owned(),
            None => "".to_owned(),
        };
        let id = concat2("subagent_think:", tail.as_str());
        return Some(MessageState::leaf(id, text, step.to_compact(), MessageType::Thinking));
    }
    if is_given(step, "assistantMessage") {
        let text = match get_str2(step, "assistantMessage", "text") {
            Some(t) => t.to_owned(),
            None => "".to_owned(),
        };
        let id = concat2("subagent_text:", tail.as_str());
        return Some(MessageState::leaf(id, text, step.to_compact(), MessageType::AgentMessage));
    }
    match step.get("toolCall") {
        Some(Json::Object(members)) => match find_call(members) {
            Some((kind, call)) => {
                let bare = cut_words(kind.as_str(), "ToolCall");
                let name = capitalize(bare.as_str());
                let id = concat2("subagent_tool:", tail.as_str());
                let mut node = MessageState::leaf(
                    id,
                    name,
                    step.to_compact(),
                    MessageType::ToolCall,
                );
                match props_at(call, "args") {
                    Some(Json::Object(args)) => {
                        node = node.props(drop_key(args, "toolCallId"));
                    },
                    _ => {},
                }
                if let Some(tag) = tag_of_step(call) {
                    node = node.tag(tag);
                }
                Some(node)
            },
            None => None,
        },
        _ => None,
    }
}

// ---------------------------------------------------------------------------
// Notices
// ---------------------------------------------------------------------------

/// One line that tells how a task ended.
pub open spec fn notice_summary(n: NotificationModel) -> Seq<char> {
    n.label + ": "@ + n.title
}

/// What a notice does to the call that started its task: the report takes the place of an agent's
/// summary; the outcome of a shell is added under its call.
pub open spec fn link_steps(n: NotificationModel, s: ParseModel, obj: JsonModel) -> Seq<OpModel> {
    if n.task_id is Some && s.tasks.contains_key(n.task_id->0) {
        let task = s.tasks[n.task_id->0];
        if task.is_subagent {
            let id = "task_summary:"@ + task.tool_call_id;
            let text = if n.body.len() == 0 {
                notice_summary(n)
            } else {
                n.body
            };
            seq![
                OpModel::Replace {
                    id,
                    message: leaf(id, text, compact(obj), MessageType::TaskSummary),
                },
            ]
        } else {
            let text = match n.detail {
                Some(d) => n.label + " ("@ + d + ")"@,
                None => n.label,
            };
            seq![
                OpModel::Append {
                    parent_id: Some("tool_call:"@ + task.tool_call_id),
                    message: MessageModel {
                        tag: Some(
                            if n.is_error {
                                "error"@
                            } else {
                                "success"@
                            },
                        ),
                        ..leaf(
                            "background_result:"@ + task.tool_call_id,
                            text,
                            compact(obj),
                            MessageType::ToolResult,
                        )
                    },
                },
            ]
        }
    } else {
        Seq::empty()
    }
}

proof fn lemma_op_push(ops: Seq<TreeOperation>, op: TreeOperation)
    ensures
        op_views(ops.push(op)) == op_views(ops).push(op@),
{
    assert(op_views(ops.push(op)) =~= op_views(ops).push(op@));
}

impl TaskNotification {
    /// What the notice does to the call that started its task; nothing where that is unknown.
    pub fn link_ops(&self, state: &ParseState, data: &Json) -> (r: Vec<TreeOperation>)
        ensures
            op_views(r@) == link_steps(self@, state@, data@),
    {
        let mut out: Vec<TreeOperation> = Vec::new();
        let found = match &self.task_id {
            Some(id) => state.background_tasks.get(id.as_str()),
            None => None,
        };
        match found {
            Some(task) => {
                if task.is_subagent {
                    let id = concat2("task_summary:", task.tool_call_id.as_str());
                    let text = if self.body.as_str().is_empty() {
                        self.summary()
                    } else {
                        self.body.clone()
                    };
                    let node = MessageState::leaf(
                        id.clone(),
                        text,
                        data.to_compact(),
                        MessageType::TaskSummary,
                    );
                    out.push(TreeOperation::Replace { id, message: node });
                } else {
                    let text = match &self.detail {
                        Some(d) => {
                            let mut t = concat3(self.label.as_str(), " (", d.as_str());
                            t.append(")");
                            t
                        },
                        None => self.label.clone(),
                    };
                    let id = concat2("background_result:", task.tool_call_id.as_str());
                    let parent = concat2("tool_call:", task.tool_call_id.as_str());
                    let node = MessageState::leaf(
                        id,
                        text,
                        data.to_compact(),
                        MessageType::ToolResult,
                    ).tag(
                        if self.is_error {
                            "error"
                        } else {
                            "success"
                        },
                    );
                    out.push(TreeOperation::Append { parent_id: Some(parent), message: node });
                }
            },
            None => {},
        }
        assert(op_views(out@) =~= link_steps(self@, state@, data@));
        out
    }
}

// ---------------------------------------------------------------------------
// Blobs
// ---------------------------------------------------------------------------

/// The node of a user message, and what a notice in it does.
pub open spec fn user_ops(s: ParseModel, obj: JsonModel, hex: Seq<char>) -> Seq<OpModel> {
    let raw = content_text(at(obj, "content"@), None);
    let told = notice(without_timestamp(raw).0);
    let (query, ts) = user_text(raw);
    let text = match told {
        Some(n) => notice_summary(n),
        None => query,
    };
    let summary = flag(at(at(obj, "providerOptions"@), "cursor"@), "isSummary"@);
    let node = MessageModel {
        hidden: if starts(trimmed(text), "<user_info>"@) {
            HiddenState::Hidden
        } else {
            HiddenState::NotHidden
        },
        tag: if summary {
            Some("summary"@)
        } else if told is Some {
            Some("system_notification"@)
        } else {
            None
        },
        brief: if summary {
            Some("[Conversation summary]"@)
        } else {
            None
        },
        timestamp: match ts {
            Some(t) => timestamp_of(t),
            None => None,
        },
        ..leaf("user_msg:"@ + hex, text, compact(obj), MessageType::UserMessage)
    };
    let shown = seq![OpModel::Append { parent_id: None, message: node }];
    match told {
        Some(n) => shown + link_steps(n, s, obj),
        None => shown,
    }
}

fn is_summary(obj: &Json) -> (r: bool)
    ensures
        r == flag(at(at(obj@, "providerOptions"@), "cursor"@), "isSummary"@),
{
    match obj.get("providerOptions") {
        Some(options) => match options.get("cursor") {
            Some(cursor) => is_flag(cursor, "isSummary"),
            None => false,
        },
        None => false,
    }
}

fn content_of(obj: &Json) -> (r: String)
    ensures
        r@ == content_text(at(obj@, "content"@), None),
{
    match obj.get("content") {
        Some(c) => extract_content_text(c),
        None => String::new(),
    }
}

fn parse_user(obj: &Json, hex: &str, state: &ParseState) -> (r: Vec<TreeOperation>)
    ensures
        op_views(r@) == user_ops(state@, obj@, hex@),
{
    let raw = content_of(obj);
    let (untimed, _) = strip_timestamp(raw.as_str());
    let told = TaskNotification::parse(untimed.as_str());
    let (query, ts) = strip_message_tags(raw.as_str());
    let text = match &told {
        Some(n) => n.summary(),
        None => query,
    };
    let timestamp = match ts {
        Some(t) => parse_timestamp(t.as_str()),
        None => None,
    };
    let bare = trim(text.as_str());
    let hidden = if starts_with(bare.as_str(), "<user_info>") {
        HiddenState::Hidden
    } else {
        HiddenState::NotHidden
    };
    let id = concat2("user_msg:", hex);
    let mut node = MessageState::leaf(id, text, obj.to_compact(), MessageType::UserMessage).hidden(
        hidden,
    ).timestamp(timestamp);
    if is_summary(obj) {
        node = node.tag("summary").brief("[Conversation summary]");
    } else if told.is_some() {
        node = node.tag("system_notification");
    }
    let mut out: Vec<TreeOperation> = Vec::new();
    out.push(TreeOperation::Append { parent_id: None, message: node });
    let ghost shown = op_views(out@);
    if let Some(n) = &told {
        let mut linked = n.link_ops(state, obj);
        let ghost more = op_views(linked@);
        out.append(&mut linked);
        assert(op_views(out@) =~= shown + more);
    }
    assert(op_views(out@) =~= user_ops(state@, obj@, hex@));
    out
}

/// The node of one block of an assistant message.
pub open spec fn block_node(hex: Seq<char>, idx: nat, block: JsonModel) -> Option<MessageModel> {
    let kind = or_text(str_field(block, "type"@), ""@);
    let tail = hex + ":"@ + decimal(idx);
    if kind == "reasoning"@ {
        Some(
            leaf(
                "thinking:"@ + tail,
                or_text(str_field(block, "text"@), ""@),
                compact(block),
                MessageType::Thinking,
            ),
        )
    } else if kind == "redacted-reasoning"@ {
        Some(
            MessageModel {
                tag: Some("redacted"@),
                ..leaf(
                    "redacted_thinking:"@ + tail,
                    "[redacted reasoning]"@,
                    compact(block),
                    MessageType::Thinking,
                )
            },
        )
    } else if kind == "text"@ {
        Some(
            leaf(
                "text:"@ + tail,
                or_text(str_field(block, "text"@), ""@),
                compact(block),
                MessageType::AgentMessage,
            ),
        )
    } else if kind == "tool-call"@ {
        Some(
            MessageModel {
                props: args_props(at(block, "args"@)),
                ..leaf(
                    "tool_call:"@ + or_text(str_field(block, "toolCallId"@), ""@),
                    or_text(str_field(block, "toolName"@), "?"@),
                    compact(block),
                    MessageType::ToolCall,
                )
            },
        )
    } else {
        None
    }
}

/// What one block of an assistant message does.
pub open spec fn block_ops(s: ParseModel, hex: Seq<char>, idx: nat, block: JsonModel) -> (
    ParseModel,
    Seq<OpModel>,
) {
    match block_node(hex, idx, block) {
        Some(node) => {
            let shown = seq![OpModel::Append { parent_id: None, message: node }];
            if node.message_type is ToolCall {
                let call = or_text(str_field(block, "toolCallId"@), ""@);
                (ParseModel { pending: s.pending.insert(call, block), ..s }, shown)
            } else {
                (s, shown)
            }
        },
        None => (s, Seq::empty()),
    }
}

/// What the blocks of an assistant message do, one after the other.
pub open spec fn blocks_ops(s: ParseModel, hex: Seq<char>, blocks: Seq<JsonModel>) -> (
    ParseModel,
    Seq<OpModel>,
)
    decreases blocks.len(),
{
    if blocks.len() == 0 {
        (s, Seq::empty())
    } else {
        let (s1, before) = blocks_ops(s, hex, blocks.drop_last());
        let (s2, last) = block_ops(s1, hex, (blocks.len() - 1) as nat, blocks.last());
        (s2, before + last)
    }
}

fn node_of_block(hex: &str, idx: usize, block: &Json) -> (r: Option<MessageState>)
    ensures
        match r {
            Some(n) => block_node(hex@, idx as nat, block@) == Some(n@),
            None => block_node(hex@, idx as nat, block@) is None,
        },
{
    let kind = text_or(block, "type", "");
    let number = decimal_text(idx as u64);
    let tail = concat3(hex, ":", number.as_str());
    if same_text(kind.as_str(), "reasoning") {
        let id = concat2("thinking:", tail.as_str());
        let text = text_or(block, "text", "");
        Some(MessageState::leaf(id, text, block.to_compact(), MessageType::Thinking))
    } else if same_text(kind.as_str(), "redacted-reasoning") {
        let id = concat2("redacted_thinking:", tail.as_str());
        let text = "[redacted reasoning]".to_owned();
        Some(
            MessageState::leaf(id, text, block.to_compact(), MessageType::Thinking).tag("redacted"),
        )
    } else if same_text(kind.as_str(), "text") {
        let id = concat2("text:", tail.as_str());
        let text = text_or(block, "text", "");
        Some(MessageState::leaf(id, text, block.to_compact(), MessageType::AgentMessage))
    } else if same_text(kind.as_str(), "tool-call") {
        let call = text_or(block, "toolCallId", "");
        let id = concat2("tool_call:", call.as_str());
        let name = text_or(block, "toolName", "?");
        let node = MessageState::leaf(id, name, block.to_compact(), MessageType::ToolCall);
        match props_at(block, "args") {
            Some(props) => Some(node.props(props)),
            None => Some(node),
        }
    } else {
        None
    }
}

fn parse_block(hex: &str, idx: usize, block: &Json, state: &mut ParseState, out: &mut Vec<
    TreeOperation,
>)
    ensures
        final(state)@ == block_ops(old(state)@, hex@, idx as nat, block@).0,
        op_views(final(out)@) == op_views(old(out)@) + block_ops(
            old(state)@,
            hex@,
            idx as nat,
            block@,
        ).1,
{
    let ghost before = op_views(out@);
    let ghost result = block_ops(state@, hex@, idx as nat, block@);
    match node_of_block(hex, idx, block) {
        Some(node) => {
            let call = node.message_type == MessageType::ToolCall;
            let op = TreeOperation::Append { parent_id: None, message: node };
            proof {
                lemma_op_push(out@, op);
            }
            out.push(op);
            if call {
                let id = text_or(block, "toolCallId", "");
                let copy = block.clone();
                let ghost old_map = state.pending_tool_calls@;
                state.pending_tool_calls.insert(id, copy);
                assert(json_map(state.pending_tool_calls@) =~= json_map(old_map).insert(
                    id@,
                    copy@,
                ));
            }
            assert(op_views(out@) =~= before + result.1);
        },
        None => {
            assert(before + result.1 =~= before);
        },
    }
    assert(state@ =~= result.0);
}

/// The items of the content of a message.
pub open spec fn content_items(obj: JsonModel) -> Seq<JsonModel> {
    match items_field(obj, "content"@) {
        Some(items) => items,
        None => Seq::empty(),
    }
}

fn no_ops() -> (r: Vec<TreeOperation>)
    ensures
        op_views(r@) == Seq::<OpModel>::empty(),
{
    let r: Vec<TreeOperation> = Vec::new();
    assert(op_views(r@) =~= Seq::<OpModel>::empty());
    r
}

fn parse_assistant(obj: &Json, hex: &str, state: &mut ParseState) -> (r: Vec<TreeOperation>)
    ensures
        (final(state)@, op_views(r@)) == blocks_ops(old(state)@, hex@, content_items(obj@)),
{
    let mut out = no_ops();
    let ghost s0 = state@;
    match obj.get("content") {
        Some(Json::Array(items)) => {
            let ghost all = content_items(obj@);
            let mut i: usize = 0;
            proof {
                assert(all.len() == items@.len());
                assert(blocks_ops(s0, hex@, all.take(0)) == (s0, Seq::<OpModel>::empty()));
            }
            while i < items.len()
                invariant
                    i <= items@.len(),
                    all.len() == items@.len(),
                    forall|k: int| 0 <= k < all.len() ==> all[k] == items@[k]@,
                    (state@, op_views(out@)) == blocks_ops(s0, hex@, all.take(i as int)),
                decreases items@.len() - i,
            {
                proof {
                    assert(all.take(i + 1).drop_last() =~= all.take(i as int));
                    assert(all.take(i + 1).last() == items@[i as int]@);
                }
                parse_block(hex, i, &items[i], state, &mut out);
                i = i + 1;
            }
            proof {
                assert(all.take(items@.len() as int) =~= all);
            }
        },
        _ => {},
    }
    out
}

/// The text of a number.
pub open spec fn number_text(m: JsonModel) -> Option<Seq<char>> {
    match m {
        JsonModel::Unsigned(n) => Some(decimal(n as nat)),
        JsonModel::Negative(n) => Some(signed_decimal(n as int)),
        JsonModel::Float(_) => Some(compact(m)),
        _ => None,
    }
}

/// The structured result of a tool message.
pub open spec fn result_details(obj: JsonModel) -> JsonModel {
    at(at(at(obj, "providerOptions"@), "cursor"@), "highLevelToolCallResult"@)
}

/// The id of the background task that a call left running: its shell's number, or its agent.
pub open spec fn background_id(obj: JsonModel) -> Option<Seq<char>> {
    let output = at(result_details(obj), "output"@);
    let success = at(output, "success"@);
    if flag(output, "isBackground"@) || flag(success, "isBackground"@) || at(
        success,
        "backgroundReason"@,
    ) is Str {
        match number_text(at(success, "shellId"@)) {
            Some(n) => Some(n),
            None => str_field(success, "agentId"@),
        }
    } else {
        None
    }
}

/// The call, its result and their message as one object.
pub open spec fn call_record(call: JsonModel, block: JsonModel, obj: JsonModel) -> JsonModel {
    JsonModel::Object(seq![("call"@, call), ("result"@, block), ("message"@, obj)])
}

/// Whether a step is not yet quoted in the summary.
pub open spec fn step_kept(step: JsonModel, summary: Seq<char>) -> bool {
    match str_field(at(step, "assistantMessage"@), "text"@) {
        Some(t) => !holds_text(summary, trimmed(t)),
        None => true,
    }
}

/// The nodes of the steps that are not yet quoted in the summary.
pub open spec fn step_nodes(call_id: Seq<char>, steps: Seq<JsonModel>, summary: Seq<char>) -> Seq<
    MessageModel,
>
    decreases steps.len(),
{
    if steps.len() == 0 {
        Seq::empty()
    } else {
        let before = step_nodes(call_id, steps.drop_last(), summary);
        if step_kept(steps.last(), summary) {
            match step_node(call_id, (steps.len() - 1) as nat, steps.last()) {
                Some(n) => before.push(n),
                None => before,
            }
        } else {
            before
        }
    }
}

/// Whether a task failed.
pub open spec fn task_failed(obj: JsonModel) -> bool {
    let details = result_details(obj);
    !(at(at(details, "output"@), "error"@) is Null) || flag(details, "isError"@)
}

/// What hangs under a task's call: why it failed, or its summary and its steps.
pub open spec fn task_children(
    call_id: Seq<char>,
    call: JsonModel,
    block: JsonModel,
    obj: JsonModel,
) -> Seq<MessageModel> {
    let output = at(result_details(obj), "output"@);
    if task_failed(obj) {
        let text = match str_field(at(output, "error"@), "error"@) {
            Some(t) => t,
            None => or_text(str_field(block, "result"@), "[task failed]"@),
        };
        seq![
            MessageModel {
                tag: Some("error"@),
                ..leaf(
                    "tool_result:"@ + call_id,
                    text,
                    compact(call_record(call, block, obj)),
                    MessageType::ToolResult,
                )
            },
        ]
    } else {
        let steps = match items_field(at(output, "success"@), "conversationSteps"@) {
            Some(items) => items,
            None => Seq::empty(),
        };
        let summary = task_result_text(block);
        seq![
            leaf(
                "task_summary:"@ + call_id,
                summary,
                compact(block),
                MessageType::TaskSummary,
            ),
        ] + step_nodes(call_id, steps, summary)
    }
}

/// The outcome of a call as a tag.
pub open spec fn outcome(failed: bool) -> Seq<char> {
    if failed {
        "error"@
    } else {
        "success"@
    }
}

/// What one tool result does: the call's node gets its outcome, and the result a place under it.
/// A result of no known call is passed over. A task that runs on is noted.
pub open spec fn result_ops(s: ParseModel, obj: JsonModel, block: JsonModel) -> (
    ParseModel,
    Seq<OpModel>,
) {
    let tool = or_text(str_field(block, "toolName"@), "?"@);
    let call_id = or_text(str_field(block, "toolCallId"@), ""@);
    if str_field(block, "type"@) != Some("tool-result"@) || !s.pending.contains_key(call_id) {
        (s, Seq::empty())
    } else {
        let call = s.pending[call_id];
        let id = "tool_call:"@ + call_id;
        let is_task = tool == "Task"@;
        let s1 = ParseModel {
            pending: s.pending.remove(call_id),
            tasks: match background_id(obj) {
                Some(task) => s.tasks.insert(
                    task,
                    TaskModel { tool_call_id: call_id, is_subagent: is_task },
                ),
                None => s.tasks,
            },
            ..s
        };
        let name = or_text(str_field(call, "toolName"@), tool);
        let failed = if is_task {
            task_failed(obj)
        } else {
            flag(block, "isError"@)
        };
        let node = MessageModel {
            tag: Some(outcome(failed)),
            props: args_props(at(call, "args"@)),
            ..leaf(id, name, compact(call), MessageType::ToolCall)
        };
        if is_task {
            (
                s1,
                seq![
                    OpModel::Replace {
                        id,
                        message: MessageModel {
                            indent_children: true,
                            children: task_children(call_id, call, block, obj),
                            ..node
                        },
                    },
                ],
            )
        } else {
            (
                s1,
                seq![
                    OpModel::Replace { id, message: node },
                    OpModel::Append {
                        parent_id: Some(id),
                        message: MessageModel {
                            tag: Some(outcome(failed)),
                            ..leaf(
                                "tool_result:"@ + call_id,
                                or_text(str_field(block, "result"@), ""@),
                                compact(call_record(call, block, obj)),
                                MessageType::ToolResult,
                            )
                        },
                    },
                ],
            )
        }
    }
}

/// What the blocks of a tool message do, one after the other.
pub open spec fn results_ops(s: ParseModel, obj: JsonModel, blocks: Seq<JsonModel>) -> (
    ParseModel,
    Seq<OpModel>,
)
    decreases blocks.len(),
{
    if blocks.len() == 0 {
        (s, Seq::empty())
    } else {
        let (s1, before) = results_ops(s, obj, blocks.drop_last());
        let (s2, last) = result_ops(s1, obj, blocks.last());
        (s2, before + last)
    }
}

/// What a message does; `hex` names its blob.
pub open spec fn message_ops(s: ParseModel, obj: JsonModel, hex: Seq<char>) -> (
    ParseModel,
    Seq<OpModel>,
) {
    let role = or_text(str_field(obj, "role"@), ""@);
    if role == "system"@ {
        (
            s,
            seq![
                OpModel::Append {
                    parent_id: None,
                    message: MessageModel {
                        brief: Some("[System prompt]"@),
                        ..leaf(
                            "system:"@ + hex,
                            content_text(at(obj, "content"@), None),
                            compact(obj),
                            MessageType::System,
                        )
                    },
                },
            ],
        )
    } else if role == "user"@ {
        (s, user_ops(s, obj, hex))
    } else if role == "assistant"@ {
        blocks_ops(s, hex, content_items(obj))
    } else if role == "tool"@ {
        results_ops(s, obj, content_items(obj))
    } else {
        (s, Seq::empty())
    }
}

fn text_of_number(j: Option<&Json>) -> (r: Option<String>)
    ensures
        text_opt(r) == (match j {
            Some(v) => number_text(v@),
            None => None,
        }),
{
    match j {
        Some(Json::Unsigned(n)) => Some(decimal_text(*n)),
        Some(Json::Negative(n)) => Some(signed_decimal_text(*n)),
        Some(v) => match v {
            Json::Float(_) => Some(v.to_compact()),
            _ => None,
        },
        None => None,
    }
}

fn details_of<'a>(obj: &'a Json) -> (r: Option<&'a Json>)
    ensures
        match r {
            Some(d) => result_details(obj@) == d@,
            None => result_details(obj@) is Null,
        },
{
    match obj.get("providerOptions") {
        Some(options) => match options.get("cursor") {
            Some(cursor) => cursor.get("highLevelToolCallResult"),
            None => None,
        },
        None => None,
    }
}

fn output_of<'a>(obj: &'a Json) -> (r: Option<&'a Json>)
    ensures
        match r {
            Some(d) => at(result_details(obj@), "output"@) == d@,
            None => at(result_details(obj@), "output"@) is Null,
        },
{
    match details_of(obj) {
        Some(d) => d.get("output"),
        None => None,
    }
}

fn find_background_id(obj: &Json) -> (r: Option<String>)
    ensures
        text_opt(r) == background_id(obj@),
{
    let output = match output_of(obj) {
        Some(o) => o,
        None => {
            return None;
        },
    };
    match output.get("success") {
        Some(success) => {
            let spoken = match success.get("backgroundReason") {
                Some(Json::Str(_)) => true,
                _ => false,
            };
            if is_flag(output, "isBackground") || is_flag(success, "isBackground") || spoken {
                match text_of_number(success.get("shellId")) {
                    Some(n) => Some(n),
                    None => match success.get_str("agentId") {
                        Some(a) => Some(a.to_owned()),
                        None => None,
                    },
                }
            } else {
                None
            }
        },
        None => None,
    }
}

fn record_call(call: &Json, block: &Json, obj: &Json) -> (r: Json)
    ensures
        r@ == call_record(call@, block@, obj@),
{
    let mut members: Vec<(String, Json)> = Vec::new();
    members.push(("call".to_owned(), call.clone()));
    members.push(("result".to_owned(), block.clone()));
    members.push(("message".to_owned(), obj.clone()));
    let r = Json::Object(members);
    assert(r@->Object_0 =~= call_record(call@, block@, obj@)->Object_0);
    r
}

fn build_steps(call_id: &str, steps: &Vec<Json>, summary: &str, out: &mut Vec<MessageState>)
    ensures
        message_views(final(out)@) == message_views(old(out)@) + step_nodes(
            call_id@,
            steps@.map_values(|s: Json| s@),
            summary@,
        ),
{
    let ghost all = steps@.map_values(|s: Json| s@);
    let ghost start = message_views(out@);
    let mut i: usize = 0;
    assert(start + step_nodes(call_id@, all.take(0), summary@) =~= start);
    while i < steps.len()
        invariant
            i <= steps@.len(),
            all == steps@.map_values(|s: Json| s@),
            message_views(out@) == start + step_nodes(call_id@, all.take(i as int), summary@),
        decreases steps@.len() - i,
    {
        proof {
            assert(all.take(i + 1).drop_last() =~= all.take(i as int));
            assert(all.take(i + 1).last() == steps@[i as int]@);
        }
        let kept = match get_str2(&steps[i], "assistantMessage", "text") {
            Some(t) => {
                let bare = trim(t);
                !contains_text(summary, bare.as_str())
            },
            None => true,
        };
        let ghost before = step_nodes(call_id@, all.take(i as int), summary@);
        if kept {
            match build_subagent_node(call_id, i, &steps[i]) {
                Some(n) => {
                    let ghost old_out = out@;
                    out.push(n);
                    assert(message_views(out@) =~= message_views(old_out).push(n@));
                    assert((start + before).push(n@) =~= start + before.push(n@));
                },
                None => {},
            }
        }
        i = i + 1;
    }
    assert(all.take(steps@.len() as int) =~= all);
}

fn has_failed(obj: &Json) -> (r: bool)
    ensures
        r == task_failed(obj@),
{
    match details_of(obj) {
        Some(details) => {
            let error = match details.get("output") {
                Some(output) => is_given(output, "error"),
                None => false,
            };
            error || is_flag(details, "isError")
        },
        None => false,
    }
}

fn build_task_children(call_id: &str, call: &Json, block: &Json, obj: &Json) -> (r: Vec<
    MessageState,
>)
    ensures
        message_views(r@) == task_children(call_id@, call@, block@, obj@),
{
    let mut out: Vec<MessageState> = Vec::new();
    if has_failed(obj) {
        let told = match output_of(obj) {
            Some(output) => get_str2(output, "error", "error"),
            None => None,
        };
        let text = match told {
            Some(t) => t.to_owned(),
            None => text_or(block, "result", "[task failed]"),
        };
        let id = concat2("tool_result:", call_id);
        let data = record_call(call, block, obj).to_compact();
        out.push(MessageState::leaf(id, text, data, MessageType::ToolResult).tag("error"));
        assert(message_views(out@) =~= task_children(call_id@, call@, block@, obj@));
        return out;
    }
    let summary = extract_task_result_text(block);
    let id = concat2("task_summary:", call_id);
    out.push(
        MessageState::leaf(id, summary.clone(), block.to_compact(), MessageType::TaskSummary),
    );
    let ghost first = message_views(out@);
    let steps = match output_of(obj) {
        Some(output) => match output.get("success") {
            Some(success) => success.get("conversationSteps"),
            None => None,
        },
        None => None,
    };
    match steps {
        Some(Json::Array(items)) => {
            build_steps(call_id, items, summary.as_str(), &mut out);
            proof {
                let all = items@.map_values(|s: Json| s@);
                let output = at(result_details(obj@), "output"@);
                assert(items_field(at(output, "success"@), "conversationSteps"@)->0 =~= all);
            }
        },
        _ => {
            assert(first + Seq::<MessageModel>::empty() =~= first);
        },
    }
    assert(message_views(out@) =~= task_children(call_id@, call@, block@, obj@));
    out
}

fn outcome_tag(failed: bool) -> (r: &'static str)
    ensures
        r@ == outcome(failed),
{
    if failed {
        "error"
    } else {
        "success"
    }
}

fn note_background(obj: &Json, call_id: &str, is_task: bool, state: &mut ParseState)
    ensures
        final(state)@ == (ParseModel {
            tasks: match background_id(obj@) {
                Some(task) => old(state)@.tasks.insert(
                    task,
                    TaskModel { tool_call_id: call_id@, is_subagent: is_task },
                ),
                None => old(state)@.tasks,
            },
            ..old(state)@
        }),
{
    if let Some(task) = find_background_id(obj) {
        let ghost before = state.background_tasks@;
        let noted = BackgroundTask { tool_call_id: call_id.to_owned(), is_subagent: is_task };
        state.background_tasks.insert(task, noted);
        assert(task_map(state.background_tasks@) =~= task_map(before).insert(task@, noted@));
    }
}

fn parse_result(obj: &Json, block: &Json, state: &mut ParseState, out: &mut Vec<TreeOperation>)
    ensures
        final(state)@ == result_ops(old(state)@, obj@, block@).0,
        op_views(final(out)@) == op_views(old(out)@) + result_ops(old(state)@, obj@, block@).1,
{
    let ghost before = op_views(out@);
    let ghost result = result_ops(state@, obj@, block@);
    let tool = text_or(block, "toolName", "?");
    let call_id = text_or(block, "toolCallId", "");
    if !is_str(block, "type", "tool-result") {
        assert(before + result.1 =~= before);
        return;
    }
    let call = match state.pending_tool_calls.get(call_id.as_str()) {
        Some(c) => c.clone(),
        None => {
            assert(before + result.1 =~= before);
            return;
        },
    };
    let ghost pending = state.pending_tool_calls@;
    state.pending_tool_calls.remove(call_id.as_str());
    assert(json_map(state.pending_tool_calls@) =~= json_map(pending).remove(call_id@));
    let is_task = same_text(tool.as_str(), "Task");
    note_background(obj, call_id.as_str(), is_task, state);
    assert(state@ =~= result.0);
    let id = concat2("tool_call:", call_id.as_str());
    let name = text_or(&call, "toolName", tool.as_str());
    let failed = if is_task {
        has_failed(obj)
    } else {
        is_flag(block, "isError")
    };
    let mut node = MessageState::leaf(id.clone(), name, call.to_compact(), MessageType::ToolCall).tag(
        outcome_tag(failed),
    );
    if let Some(props) = props_at(&call, "args") {
        node = node.props(props);
    }
    if is_task {
        let children = build_task_children(call_id.as_str(), &call, block, obj);
        let op = TreeOperation::Replace {
            id,
            message: node.indent_children(true).children(children),
        };
        proof {
            lemma_op_push(out@, op);
        }
        out.push(op);
        assert(op_views(out@) =~= before + result.1);
    } else {
        let op1 = TreeOperation::Replace { id: id.clone(), message: node };
        let result_id = concat2("tool_result:", call_id.as_str());
        let text = text_or(block, "result", "");
        let data = record_call(&call, block, obj).to_compact();
        let shown = MessageState::leaf(result_id, text, data, MessageType::ToolResult).tag(
            outcome_tag(failed),
        );
        let op2 = TreeOperation::Append { parent_id: Some(id), message: shown };
        proof {
            lemma_op_push(out@, op1);
            lemma_op_push(out@.push(op1), op2);
        }
        out.push(op1);
        out.push(op2);
        assert(op_views(out@) =~= before + result.1);
    }
}

fn parse_tool(obj: &Json, state: &mut ParseState) -> (r: Vec<TreeOperation>)
    ensures
        (final(state)@, op_views(r@)) == results_ops(old(state)@, obj@, content_items(obj@)),
{
    let mut out = no_ops();
    let ghost s0 = state@;
    match obj.get("content") {
        Some(Json::Array(items)) => {
            let ghost all = content_items(obj@);
            let mut i: usize = 0;
            proof {
                assert(all.len() == items@.len());
                assert(results_ops(s0, obj@, all.take(0)) == (s0, Seq::<OpModel>::empty()));
            }
            while i < items.len()
                invariant
                    i <= items@.len(),
                    all.len() == items@.len(),
                    forall|k: int| 0 <= k < all.len() ==> all[k] == items@[k]@,
                    (state@, op_views(out@)) == results_ops(s0, obj@, all.take(i as int)),
                decreases items@.len() - i,
            {
                proof {
                    assert(all.take(i + 1).drop_last() =~= all.take(i as int));
                    assert(all.take(i + 1).last() == items@[i as int]@);
                }
                parse_result(obj, &items[i], state, &mut out);
                i = i + 1;
            }
            proof {
                assert(all.take(items@.len() as int) =~= all);
            }
        },
        _ => {},
    }
    out
}

/// What a message does; `hex` names its blob.
pub fn parse_blob_value(obj: &Json, hex: &str, state: &mut ParseState) -> (r: Vec<TreeOperation>)
    ensures
        (final(state)@, op_views(r@)) == message_ops(old(state)@, obj@, hex@),
{
    let role = text_or(obj, "role", "");
    if same_text(role.as_str(), "system") {
        let id = concat2("system:", hex);
        let node = MessageState::leaf(
            id,
            content_of(obj),
            obj.to_compact(),
            MessageType::System,
        ).brief("[System prompt]");
        let mut out: Vec<TreeOperation> = Vec::new();
        out.push(TreeOperation::Append { parent_id: None, message: node });
        assert(op_views(out@) =~= message_ops(old(state)@, obj@, hex@).1);
        out
    } else if same_text(role.as_str(), "user") {
        parse_user(obj, hex, state)
    } else if same_text(role.as_str(), "assistant") {
        parse_assistant(obj, hex, state)
    } else if same_text(role.as_str(), "tool") {
        parse_tool(obj, state)
    } else {
        no_ops()
    }
}

/// The id that a blob is known by, in lower case; `None` where it is no 64 digits.
pub open spec fn known_id(bytes: Seq<u8>) -> Option<Seq<char>> {
    match hash_of(bytes) {
        Some(hash) => Some(hex_text(hash)),
        None => None,
    }
}

/// The first 32 characters of a blob's id, by which its nodes are named.
pub open spec fn short_id(id: Seq<char>) -> Seq<char> {
    if id.len() <= 32 {
        id
    } else {
        id.take(32)
    }
}

/// What a blob does: nothing where it has been parsed or is no JSON.
pub open spec fn blob_ops(s: ParseModel, id: Seq<char>, bytes: Seq<u8>, data: Option<JsonModel>) -> (
    ParseModel,
    Seq<OpModel>,
) {
    let known = known_id(bytes);
    if known is Some && s.seen.contains(known->0) {
        (s, Seq::empty())
    } else {
        let s1 = match known {
            Some(k) => ParseModel { seen: s.seen.insert(k), ..s },
            None => s,
        };
        match data {
            Some(obj) => message_ops(s1, obj, short_id(id)),
            None => (s1, Seq::empty()),
        }
    }
}

/// Notes that a blob is parsed; gives whether it was not before. A blob without a proper id is
/// never known.
pub fn mark_seen(blob_id: &str, state: &mut ParseState) -> (r: bool)
    ensures
        r == !(known_id(blob_id.spec_bytes()) is Some && old(state)@.seen.contains(
            known_id(blob_id.spec_bytes())->0,
        )),
        final(state)@ == (ParseModel {
            seen: match known_id(blob_id.spec_bytes()) {
                Some(k) => old(state)@.seen.insert(k),
                None => old(state)@.seen,
            },
            ..old(state)@
        }),
{
    match hex_to_bytes32(blob_id) {
        Some(hash) => {
            let k = bytes_to_hex(&hash);
            state.seen_blobs.insert(k)
        },
        None => true,
    }
}

/// Parses one message blob. `blob_id` is its id, in hexadecimal digits.
pub fn parse_blob(blob_id: &str, data: &[u8], state: &mut ParseState) -> (r: Vec<TreeOperation>)
    requires
        blob_id.is_ascii(),
    ensures
        (final(state)@, op_views(r@)) == blob_ops(
            old(state)@,
            blob_id@,
            blob_id.spec_bytes(),
            json_parsed_bytes(data@),
        ),
{
    if !mark_seen(blob_id, state) {
        assert(state@ =~= old(state)@);
        return no_ops();
    }
    match parse_json_bytes(data) {
        Some(obj) => {
            let hex = clip(blob_id, 32);
            parse_blob_value(&obj, hex.as_str(), state)
        },
        None => no_ops(),
    }
}

/// What the message that is still being written does: it has one node, which comes with its first
/// text, changes with it, and goes when it has none.
pub open spec fn pending_ops(s: ParseModel, data: Option<JsonModel>) -> (ParseModel, Seq<OpModel>) {
    match data {
        Some(obj) => if str_field(obj, "role"@) != Some("assistant"@) {
            (s, Seq::empty())
        } else {
            let text = trimmed(content_text(at(obj, "content"@), None));
            let id = "streaming:pending"@;
            if text.len() == 0 {
                if s.has_pending {
                    (ParseModel { has_pending: false, ..s }, seq![OpModel::Remove { id }])
                } else {
                    (s, Seq::empty())
                }
            } else {
                let node = leaf(id, text, compact(obj), MessageType::AgentMessage);
                if s.has_pending {
                    (s, seq![OpModel::Replace { id, message: node }])
                } else {
                    (
                        ParseModel { has_pending: true, ..s },
                        seq![OpModel::Append { parent_id: None, message: node }],
                    )
                }
            }
        },
        None => (s, Seq::empty()),
    }
}

/// What the message that is still being written does.
pub fn parse_pending_value(obj: &Json, state: &mut ParseState) -> (r: Vec<TreeOperation>)
    ensures
        (final(state)@, op_views(r@)) == pending_ops(old(state)@, Some(obj@)),
{
    let ghost result = pending_ops(state@, Some(obj@));
    if !is_str(obj, "role", "assistant") {
        return no_ops();
    }
    let raw = content_of(obj);
    let text = trim(raw.as_str());
    let id = "streaming:pending".to_owned();
    let mut out = no_ops();
    if text.as_str().is_empty() {
        if state.has_pending {
            state.has_pending = false;
            out.push(TreeOperation::Remove { id });
        }
    } else {
        let node = MessageState::leaf(id.clone(), text, obj.to_compact(), MessageType::AgentMessage);
        if state.has_pending {
            out.push(TreeOperation::Replace { id, message: node });
        } else {
            state.has_pending = true;
            out.push(TreeOperation::Append { parent_id: None, message: node });
        }
    }
    assert(op_views(out@) =~= result.1);
    assert(state@ =~= result.0);
    out
}

/// Parses the message that is still being written; what is no whole JSON does nothing.
pub fn parse_pending_blob(data: &[u8], state: &mut ParseState) -> (r: Vec<TreeOperation>)
    ensures
        (final(state)@, op_views(r@)) == pending_ops(old(state)@, json_parsed_bytes(data@)),
{
    match parse_json_bytes(data) {
        Some(obj) => parse_pending_value(&obj, state),
        None => no_ops(),
    }
}

} // verus!
