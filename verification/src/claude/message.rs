//! From the entries of a transcript to operations on the tree.
use crate::claude::xml::{extract_xml_tag, process_xml_tags, tag_text, xml_shown};
use crate::json::{
    compact, field, items_field, json_opt, json_parsed, parse_json, str_field, str_of, Json,
    JsonModel,
};
use crate::text::{
    chars_of, concat3, decimal, decimal_text, join, joined, lines, lines_of, same_text,
    split_at_char, split_char, starts, starts_with, string_of_range, trim_start, trimmed_start,
    views,
};
use crate::tree::{
    leaf, op_views, HiddenState, MessageModel, MessageState, MessageType, OpModel,
    TreeOperation,
};
use vstd::hash_map::StringHashMap;
use vstd::hash_set::StringHashSet;
use vstd::prelude::*;

verus! {

broadcast use vstd::string::group_string_axioms;

// ---------------------------------------------------------------------------
// Reading members
// ---------------------------------------------------------------------------

/// `s`, or `default`.
pub open spec fn or_text(s: Option<Seq<char>>, default: Seq<char>) -> Seq<char> {
    match s {
        Some(t) => t,
        None => default,
    }
}

/// The member `key`, or null.
pub open spec fn at(m: JsonModel, key: Seq<char>) -> JsonModel {
    match field(m, key) {
        Some(v) => v,
        None => JsonModel::Null,
    }
}

/// Whether the member `key` is `true`.
pub open spec fn flag(m: JsonModel, key: Seq<char>) -> bool {
    at(m, key) == JsonModel::Bool(true)
}

/// The member `key` where it is a number that is not negative, or 0.
pub open spec fn count(m: JsonModel, key: Seq<char>) -> nat {
    match at(m, key) {
        JsonModel::Unsigned(n) => n as nat,
        JsonModel::Negative(n) => if n >= 0 {
            n as nat
        } else {
            0
        },
        _ => 0,
    }
}

pub(crate) fn text_or(j: &Json, key: &str, default: &str) -> (r: String)
    ensures
        r@ == or_text(str_field(j@, key@), default@),
{
    match j.get_str(key) {
        Some(s) => s.to_owned(),
        None => default.to_owned(),
    }
}

/// The member `b` of the member `a`, where it is a string.
pub(crate) fn get_str2<'a>(j: &'a Json, a: &str, b: &str) -> (r: Option<&'a str>)
    ensures
        match r {
            Some(s) => str_field(at(j@, a@), b@) == Some(s@),
            None => str_field(at(j@, a@), b@) is None,
        },
{
    match j.get(a) {
        Some(v) => v.get_str(b),
        None => None,
    }
}

pub(crate) fn is_flag(j: &Json, key: &str) -> (r: bool)
    ensures
        r == flag(j@, key@),
{
    match j.get(key) {
        Some(Json::Bool(b)) => *b,
        _ => false,
    }
}

fn get_count(j: &Json, key: &str) -> (r: u64)
    ensures
        r == count(j@, key@),
{
    match j.get(key) {
        Some(Json::Unsigned(n)) => *n,
        Some(Json::Negative(n)) => if *n >= 0 {
            *n as u64
        } else {
            0
        },
        _ => 0,
    }
}

pub(crate) fn is_str(j: &Json, key: &str, text: &str) -> (r: bool)
    ensures
        r == (str_field(j@, key@) == Some(text@)),
{
    match j.get_str(key) {
        Some(s) => same_text(s, text),
        None => false,
    }
}

// ---------------------------------------------------------------------------
// State
// ---------------------------------------------------------------------------

/// What the entries parsed so far leave behind.
pub struct ParseState {
    pub seen_uuids: StringHashSet,
    pub seen_block_ids: StringHashSet,
    pub pending_tool_calls: StringHashMap<Json>,
    pub id_prefix: String,
    /// The entries that mark a compaction; a message that follows one is its summary.
    pub compact_boundary_uuids: StringHashSet,
}

/// What a `ParseState` holds.
#[verifier::ext_equal]
pub struct ParseModel {
    pub seen_uuids: Set<Seq<char>>,
    pub seen_block_ids: Set<Seq<char>>,
    pub pending: Map<Seq<char>, JsonModel>,
    pub id_prefix: Seq<char>,
    pub compact: Set<Seq<char>>,
}

/// The contents of the values of a map.
pub open spec fn json_map(m: Map<Seq<char>, Json>) -> Map<Seq<char>, JsonModel> {
    Map::new(|k: Seq<char>| m.contains_key(k), |k: Seq<char>| m[k]@)
}

impl View for ParseState {
    type V = ParseModel;

    open spec fn view(&self) -> ParseModel {
        ParseModel {
            seen_uuids: self.seen_uuids@,
            seen_block_ids: self.seen_block_ids@,
            pending: json_map(self.pending_tool_calls@),
            id_prefix: self.id_prefix@,
            compact: self.compact_boundary_uuids@,
        }
    }
}

/// The state before any entry.
pub open spec fn empty_state() -> ParseModel {
    ParseModel {
        seen_uuids: Set::empty(),
        seen_block_ids: Set::empty(),
        pending: Map::empty(),
        id_prefix: Seq::empty(),
        compact: Set::empty(),
    }
}

impl Default for ParseState {
    fn default() -> (r: Self)
        ensures
            r@ == empty_state(),
    {
        let r = ParseState {
            seen_uuids: StringHashSet::new(),
            seen_block_ids: StringHashSet::new(),
            pending_tool_calls: StringHashMap::new(),
            id_prefix: String::new(),
            compact_boundary_uuids: StringHashSet::new(),
        };
        assert(r@.pending =~= Map::<Seq<char>, JsonModel>::empty());
        r
    }
}

/// What parsing an entry gives, in order.
#[derive(Debug, PartialEq)]
pub enum ParseStep {
    /// A change of the tree.
    Op(TreeOperation),
    /// A call of the agent tool, with its description, or its result, with the agent's id. What
    /// the live reader finds there takes this place.
    AgentTool { tool_use_id: String, value: String, is_result: bool },
}

/// What a `ParseStep` holds.
#[verifier::ext_equal]
pub enum StepModel {
    Op(OpModel),
    AgentTool { tool_use_id: Seq<char>, value: Seq<char>, is_result: bool },
}

impl View for ParseStep {
    type V = StepModel;

    open spec fn view(&self) -> StepModel {
        match *self {
            ParseStep::Op(op) => StepModel::Op(op@),
            ParseStep::AgentTool { tool_use_id, value, is_result } => StepModel::AgentTool {
                tool_use_id: tool_use_id@,
                value: value@,
                is_result,
            },
        }
    }
}

/// The views of a sequence of steps.
pub open spec fn step_views(steps: Seq<ParseStep>) -> Seq<StepModel> {
    steps.map_values(|s: ParseStep| s@)
}

proof fn lemma_step_push(steps: Seq<ParseStep>, s: ParseStep)
    ensures
        step_views(steps.push(s)) == step_views(steps).push(s@),
{
    assert(step_views(steps.push(s)) =~= step_views(steps).push(s@));
}

/// A new node is appended at the top; one that is known takes the place of the node of its id.
pub open spec fn placed(new: bool, node: MessageModel) -> StepModel {
    if new {
        StepModel::Op(OpModel::Append { parent_id: None, message: node })
    } else {
        StepModel::Op(OpModel::Replace { id: node.id, message: node })
    }
}

fn place(new: bool, node: MessageState) -> (r: ParseStep)
    ensures
        r@ == placed(new, node@),
{
    if new {
        ParseStep::Op(TreeOperation::Append { parent_id: None, message: node })
    } else {
        let id = node.id.clone();
        ParseStep::Op(TreeOperation::Replace { id, message: node })
    }
}

// ---------------------------------------------------------------------------
// Content of messages
// ---------------------------------------------------------------------------

/// The text of a text block.
pub open spec fn block_text(b: JsonModel) -> Option<Seq<char>> {
    if str_field(b, "type"@) == Some("text"@) {
        str_field(b, "text"@)
    } else {
        None
    }
}

/// The first `limit` characters.
pub open spec fn clipped(s: Seq<char>, limit: nat) -> Seq<char> {
    if s.len() <= limit {
        s
    } else {
        s.take(limit as int)
    }
}

/// The texts of the text blocks, each clipped to `limit` characters where there is a limit.
pub open spec fn block_texts(items: Seq<JsonModel>, limit: Option<nat>) -> Seq<Seq<char>>
    decreases items.len(),
{
    if items.len() == 0 {
        Seq::empty()
    } else {
        let before = block_texts(items.drop_last(), limit);
        match block_text(items.last()) {
            Some(t) => before.push(
                match limit {
                    Some(n) => clipped(t, n),
                    None => t,
                },
            ),
            None => before,
        }
    }
}

/// The text of a content: a string itself, or the text blocks of a list, line by line.
pub open spec fn content_text(content: JsonModel, limit: Option<nat>) -> Seq<char> {
    match content {
        JsonModel::Str(s) => match limit {
            Some(n) => clipped(s, n),
            None => s,
        },
        JsonModel::Array(items) => joined(block_texts(items, limit), "\n"@),
        _ => Seq::empty(),
    }
}

/// The first `limit` characters of `s`.
pub fn clip(s: &str, limit: usize) -> (r: String)
    ensures
        r@ == clipped(s@, limit as nat),
{
    let v = chars_of(s);
    if v.len() <= limit {
        s.to_owned()
    } else {
        proof {
            assert(v@.subrange(0, limit as int) =~= v@.take(limit as int));
        }
        string_of_range(&v, 0, limit)
    }
}

fn text_of_block(b: &Json) -> (r: Option<&str>)
    ensures
        match r {
            Some(s) => block_text(b@) == Some(s@),
            None => block_text(b@) is None,
        },
{
    if is_str(b, "type", "text") {
        b.get_str("text")
    } else {
        None
    }
}

/// The limit as a number of characters.
pub open spec fn limit_nat(limit: Option<usize>) -> Option<nat> {
    match limit {
        Some(n) => Some(n as nat),
        None => None,
    }
}

fn content_text_limited(content: &Json, limit: Option<usize>) -> (r: String)
    ensures
        r@ == content_text(content@, limit_nat(limit)),
{
    match content {
        Json::Str(s) => match limit {
            Some(n) => clip(s.as_str(), n),
            None => s.clone(),
        },
        Json::Array(items) => {
            let ghost all = content@->Array_0;
            let ghost bound = limit_nat(limit);
            let mut parts: Vec<String> = Vec::new();
            let mut i: usize = 0;
            proof {
                assert(views(parts@) =~= block_texts(all.take(0), bound));
            }
            while i < items.len()
                invariant
                    i <= items@.len(),
                    *content == Json::Array(*items),
                    all == content@->Array_0,
                    bound == limit_nat(limit),
                    views(parts@) == block_texts(all.take(i as int), bound),
                decreases items@.len() - i,
            {
                let ghost before = parts@;
                proof {
                    assert(all.take(i + 1).drop_last() =~= all.take(i as int));
                    assert(all.take(i + 1).last() == items@[i as int]@);
                }
                match text_of_block(&items[i]) {
                    Some(t) => {
                        let part = match limit {
                            Some(n) => clip(t, n),
                            None => t.to_owned(),
                        };
                        parts.push(part);
                        proof {
                            assert(views(parts@) =~= views(before).push(part@));
                        }
                    },
                    None => {},
                }
                i = i + 1;
            }
            proof {
                assert(all.take(items@.len() as int) =~= all);
            }
            join(&parts, "\n")
        },
        _ => String::new(),
    }
}

/// The text of a message's content.
pub fn extract_content_text(content: &Json) -> (r: String)
    ensures
        r@ == content_text(content@, None),
{
    content_text_limited(content, None)
}

/// The text of a tool's result, 500 characters of each piece.
pub fn extract_tool_result_text(content: &Json) -> (r: String)
    ensures
        r@ == content_text(content@, Some(500)),
{
    content_text_limited(content, Some(500))
}

// ---------------------------------------------------------------------------
// Attachments
// ---------------------------------------------------------------------------

/// What follows the last slash.
pub open spec fn file_name(path: Seq<char>) -> Seq<char> {
    split_at_char(path, '/').last()
}

/// What follows the last slash of `path`.
pub fn basename(path: &str) -> (r: String)
    ensures
        r@ == file_name(path@),
{
    let mut parts = split_char(path, '/');
    let ghost all = parts@;
    assert(views(all).len() == all.len());
    match parts.pop() {
        Some(last) => {
            assert(views(all).last() == last@);
            last
        },
        None => path.to_owned(),
    }
}

/// The path to show for an attachment: its display path, else the file name in `fallback`.
pub open spec fn display_path(att: JsonModel, fallback: Seq<char>) -> Seq<char> {
    match str_field(att, "displayPath"@) {
        Some(p) => p,
        None => match str_field(att, fallback) {
            Some(p) => file_name(p),
            None => fallback,
        },
    }
}

/// The path to show for an attachment.
pub fn att_display_path(att: &Json, fallback_field: &str) -> (r: String)
    ensures
        r@ == display_path(att@, fallback_field@),
{
    match att.get_str("displayPath") {
        Some(p) => p.to_owned(),
        None => match att.get_str(fallback_field) {
            Some(p) => basename(p),
            None => fallback_field.to_owned(),
        },
    }
}

/// A header, with a content below it where that is not empty.
pub open spec fn headed(header: Seq<char>, content: Option<Seq<char>>) -> Seq<char> {
    match content {
        Some(c) => if c.len() == 0 {
            header
        } else {
            header + "\n"@ + c
        },
        None => header,
    }
}

fn head(header: String, content: Option<&str>) -> (r: String)
    ensures
        r@ == headed(
            header@,
            match content {
                Some(c) => Some(c@),
                None => None,
            },
        ),
{
    match content {
        Some(c) => {
            if c.is_empty() {
                header
            } else {
                concat3(header.as_str(), "\n", c)
            }
        },
        None => header,
    }
}

/// The strings among `items`; of objects, the string that they hold as `key`.
pub open spec fn names_in(items: Seq<JsonModel>, key: Option<Seq<char>>) -> Seq<Seq<char>>
    decreases items.len(),
{
    if items.len() == 0 {
        Seq::empty()
    } else {
        let before = names_in(items.drop_last(), key);
        let name = match key {
            Some(k) => str_field(items.last(), k),
            None => str_of(items.last()),
        };
        match name {
            Some(n) => before.push(n),
            None => before,
        }
    }
}

/// The first five of the names that the list `list` of an attachment holds.
pub open spec fn first_names(att: JsonModel, list: Seq<char>, key: Option<Seq<char>>) -> Seq<
    Seq<char>,
> {
    match items_field(att, list) {
        Some(items) => {
            let names = names_in(items, key);
            if names.len() <= 5 {
                names
            } else {
                names.take(5)
            }
        },
        None => Seq::empty(),
    }
}

fn collect_names(att: &Json, list: &str, key: Option<&str>) -> (r: Vec<String>)
    ensures
        views(r@) == first_names(
            att@,
            list@,
            match key {
                Some(k) => Some(k@),
                None => None,
            },
        ),
{
    let ghost gkey = match key {
        Some(k) => Some(k@),
        None => None,
    };
    let mut names: Vec<String> = Vec::new();
    proof {
        assert(views(names@) =~= Seq::<Seq<char>>::empty());
    }
    match att.get(list) {
        Some(Json::Array(items)) => {
            let ghost all = at(att@, list@)->Array_0;
            let mut i: usize = 0;
            proof {
                assert(names_in(all.take(0), gkey) =~= Seq::<Seq<char>>::empty());
                assert(all.len() == items@.len());
            }
            while i < items.len()
                invariant
                    i <= items@.len(),
                    all.len() == items@.len(),
                    forall|k: int| 0 <= k < all.len() ==> all[k] == items@[k]@,
                    gkey == (match key {
                        Some(k) => Some(k@),
                        None => None,
                    }),
                    views(names@) == names_in(all.take(i as int), gkey),
                decreases items@.len() - i,
            {
                let ghost before = names@;
                proof {
                    assert(all.take(i + 1).drop_last() =~= all.take(i as int));
                    assert(all.take(i + 1).last() == items@[i as int]@);
                }
                let name = match key {
                    Some(k) => items[i].get_str(k),
                    None => items[i].as_str(),
                };
                match name {
                    Some(n) => {
                        names.push(n.to_owned());
                        proof {
                            assert(views(names@) =~= views(before).push(n@));
                        }
                    },
                    None => {},
                }
                i = i + 1;
            }
            proof {
                assert(all.take(items@.len() as int) =~= all);
            }
            let ghost found = names@;
            if names.len() > 5 {
                names.truncate(5);
                proof {
                    assert(views(names@) =~= views(found).take(5));
                }
            }
        },
        _ => {},
    }
    names
}

/// The text that stands for an attachment.
pub open spec fn label(att: JsonModel) -> Seq<char> {
    let kind = or_text(str_field(att, "type"@), ""@);
    if kind == "file"@ || kind == "already_read_file"@ {
        headed(
            "[File: "@ + display_path(att, "filename"@) + "]"@,
            str_field(at(at(att, "content"@), "file"@), "content"@),
        )
    } else if kind == "compact_file_reference"@ {
        "[File: "@ + display_path(att, "filename"@) + "]"@
    } else if kind == "edited_text_file"@ {
        headed(
            "[File: "@ + display_path(att, "filename"@) + " (edited)]"@,
            str_field(att, "snippet"@),
        )
    } else if kind == "directory"@ {
        headed("[Directory: "@ + display_path(att, "path"@) + "]"@, str_field(att, "content"@))
    } else if kind == "skill_listing"@ {
        headed(
            "[Skill listing: "@ + decimal(count(att, "skillCount"@)) + " skills]"@,
            str_field(att, "content"@),
        )
    } else if kind == "deferred_tools_delta"@ {
        let names = first_names(att, "addedNames"@, None);
        if names.len() == 0 {
            "[Tools loaded]"@
        } else {
            "[Tools: +"@ + joined(names, ", +"@) + "]"@
        }
    } else if kind == "command_permissions"@ {
        "[Command permissions]"@
    } else if kind == "task_reminder"@ {
        "[Task reminder: "@ + decimal(count(att, "itemCount"@)) + " tasks]"@
    } else if kind == "queued_command"@ {
        let first = match str_field(att, "prompt"@) {
            Some(p) => if lines_of(p).len() > 0 {
                lines_of(p)[0]
            } else {
                "command"@
            },
            None => "command"@,
        };
        "[Queued: "@ + first + "]"@
    } else if kind == "invoked_skills"@ {
        let names = first_names(att, "skills"@, Some("name"@));
        if names.len() == 0 {
            "[Invoked skills]"@
        } else {
            "[Skills: "@ + joined(names, ", "@) + "]"@
        }
    } else if kind == "date_change"@ {
        "[Date: "@ + or_text(str_field(att, "newDate"@), "?"@) + "]"@
    } else {
        "["@ + kind + "]"@
    }
}

/// The text that stands for an attachment.
pub fn attachment_label(att: &Json) -> (r: String)
    ensures
        r@ == label(att@),
{
    let kind = text_or(att, "type", "");
    let k = kind.as_str();
    if same_text(k, "file") || same_text(k, "already_read_file") {
        let path = att_display_path(att, "filename");
        let content = match att.get("content") {
            Some(c) => get_str2(c, "file", "content"),
            None => None,
        };
        head(concat3("[File: ", path.as_str(), "]"), content)
    } else if same_text(k, "compact_file_reference") {
        let path = att_display_path(att, "filename");
        concat3("[File: ", path.as_str(), "]")
    } else if same_text(k, "edited_text_file") {
        let path = att_display_path(att, "filename");
        head(concat3("[File: ", path.as_str(), " (edited)]"), att.get_str("snippet"))
    } else if same_text(k, "directory") {
        let path = att_display_path(att, "path");
        head(concat3("[Directory: ", path.as_str(), "]"), att.get_str("content"))
    } else if same_text(k, "skill_listing") {
        let n = decimal_text(get_count(att, "skillCount"));
        head(concat3("[Skill listing: ", n.as_str(), " skills]"), att.get_str("content"))
    } else if same_text(k, "deferred_tools_delta") {
        let names = collect_names(att, "addedNames", None);
        assert(views(names@).len() == names@.len());
        if names.len() == 0 {
            "[Tools loaded]".to_owned()
        } else {
            let all = join(&names, ", +");
            concat3("[Tools: +", all.as_str(), "]")
        }
    } else if same_text(k, "command_permissions") {
        "[Command permissions]".to_owned()
    } else if same_text(k, "task_reminder") {
        let n = decimal_text(get_count(att, "itemCount"));
        concat3("[Task reminder: ", n.as_str(), " tasks]")
    } else if same_text(k, "queued_command") {
        let first = match att.get_str("prompt") {
            Some(p) => {
                let all = lines(p);
                assert(views(all@).len() == all@.len());
                if all.len() > 0 {
                    all[0].clone()
                } else {
                    "command".to_owned()
                }
            },
            None => "command".to_owned(),
        };
        concat3("[Queued: ", first.as_str(), "]")
    } else if same_text(k, "invoked_skills") {
        let names = collect_names(att, "skills", Some("name"));
        assert(views(names@).len() == names@.len());
        if names.len() == 0 {
            "[Invoked skills]".to_owned()
        } else {
            let all = join(&names, ", ");
            concat3("[Skills: ", all.as_str(), "]")
        }
    } else if same_text(k, "date_change") {
        let d = text_or(att, "newDate", "?");
        concat3("[Date: ", d.as_str(), "]")
    } else {
        concat3("[", k, "]")
    }
}

// ---------------------------------------------------------------------------
// Entries
// ---------------------------------------------------------------------------

/// The node of an attachment.
pub open spec fn attachment_node(obj: JsonModel, uuid: Seq<char>, prefix: Seq<char>) -> MessageModel {
    MessageModel {
        tag: Some("attachment"@),
        ..leaf(
            prefix + "attachment:"@ + uuid,
            label(at(obj, "attachment"@)),
            compact(obj),
            MessageType::UserMessage,
        )
    }
}

/// An attachment is a node at the top; a second entry of its uuid takes its place.
pub open spec fn attachment_steps(s: ParseModel, obj: JsonModel, uuid: Seq<char>) -> (
    ParseModel,
    Seq<StepModel>,
) {
    (
        ParseModel { seen_uuids: s.seen_uuids.insert(uuid), ..s },
        seq![
            placed(!s.seen_uuids.contains(uuid), attachment_node(obj, uuid, s.id_prefix)),
        ],
    )
}

fn label_of_entry(obj: &Json) -> (r: String)
    ensures
        r@ == label(at(obj@, "attachment"@)),
{
    match obj.get("attachment") {
        Some(att) => attachment_label(att),
        None => attachment_label(&Json::Null),
    }
}

/// The node of an attachment entry.
pub fn emit_attachment_node(obj: &Json, uuid: String, state: &mut ParseState) -> (r: Vec<ParseStep>)
    ensures
        (final(state)@, step_views(r@)) == attachment_steps(old(state)@, obj@, uuid@),
{
    let text = label_of_entry(obj);
    let id = concat3(state.id_prefix.as_str(), "attachment:", uuid.as_str());
    let node = MessageState::leaf(id, text, obj.to_compact(), MessageType::UserMessage).tag(
        "attachment",
    );
    let new = state.seen_uuids.insert(uuid);
    let mut out: Vec<ParseStep> = Vec::new();
    out.push(place(new, node));
    proof {
        assert(step_views(out@) =~= attachment_steps(old(state)@, obj@, uuid@).1);
        assert(state@ =~= attachment_steps(old(state)@, obj@, uuid@).0);
    }
    out
}

/// The node of a user message. Leading elements are shown by `xml_shown`; a message that the tool
/// put in is hidden; one that follows a compaction is its summary.
pub open spec fn user_node(s: ParseModel, obj: JsonModel, content: JsonModel, uuid: Seq<char>) -> MessageModel {
    let raw = content_text(content, None);
    let summary = match str_field(obj, "parentUuid"@) {
        Some(p) => s.compact.contains(p),
        None => false,
    };
    let text = match xml_shown(raw) {
        Some((display, _)) => display,
        None => raw,
    };
    let tag = match xml_shown(raw) {
        Some((_, tag)) => Some(tag),
        None => None,
    };
    MessageModel {
        hidden: if flag(obj, "isMeta"@) {
            HiddenState::Hidden
        } else {
            HiddenState::NotHidden
        },
        tag: if summary {
            Some("summary"@)
        } else {
            tag
        },
        brief: if summary {
            Some("[Conversation summary]"@)
        } else {
            None
        },
        ..leaf(s.id_prefix + "user_msg:"@ + uuid, text, compact(obj), MessageType::UserMessage)
    }
}

/// A user message is a node at the top; a second entry of its uuid takes its place.
pub open spec fn user_steps(
    s: ParseModel,
    obj: JsonModel,
    content: JsonModel,
    uuid: Seq<char>,
) -> (ParseModel, Seq<StepModel>) {
    (
        ParseModel { seen_uuids: s.seen_uuids.insert(uuid), ..s },
        seq![placed(!s.seen_uuids.contains(uuid), user_node(s, obj, content, uuid))],
    )
}

/// The node of a user message.
pub fn emit_user_message(obj: &Json, content: &Json, uuid: String, state: &mut ParseState) -> (r:
    Vec<ParseStep>)
    ensures
        (final(state)@, step_views(r@)) == user_steps(old(state)@, obj@, content@, uuid@),
{
    let raw = extract_content_text(content);
    let (text, xml_tag) = match process_xml_tags(raw.as_str()) {
        Some((display, tag)) => (display, Some(tag)),
        None => (raw, None),
    };
    let id = concat3(state.id_prefix.as_str(), "user_msg:", uuid.as_str());
    let hidden = if is_flag(obj, "isMeta") {
        HiddenState::Hidden
    } else {
        HiddenState::NotHidden
    };
    let summary = match obj.get_str("parentUuid") {
        Some(p) => state.compact_boundary_uuids.contains(p),
        None => false,
    };
    let mut node = MessageState::leaf(id, text, obj.to_compact(), MessageType::UserMessage).hidden(
        hidden,
    );
    if let Some(tag) = xml_tag {
        node = node.tag(tag.as_str());
    }
    if summary {
        node = node.tag("summary").brief("[Conversation summary]");
    }
    proof {
        assert(node@ =~= user_node(old(state)@, obj@, content@, uuid@));
    }
    let new = state.seen_uuids.insert(uuid);
    let mut out: Vec<ParseStep> = Vec::new();
    out.push(place(new, node));
    proof {
        assert(step_views(out@) =~= user_steps(old(state)@, obj@, content@, uuid@).1);
        assert(state@ =~= user_steps(old(state)@, obj@, content@, uuid@).0);
    }
    out
}

/// A notification shows its summary as the user's message, and gives the task's summary node the
/// result that it carries.
pub open spec fn notification_steps(
    s: ParseModel,
    text: Seq<char>,
    obj: JsonModel,
    uuid: Seq<char>,
) -> (ParseModel, Seq<StepModel>) {
    let summary = or_text(tag_text(text, "summary"@), "Agent task completed"@);
    let (s1, shown) = user_steps(s, obj, JsonModel::Str(summary), uuid);
    match (tag_text(text, "result"@), tag_text(text, "tool-use-id"@)) {
        (Some(result), Some(tool)) => {
            let id = s.id_prefix + "task_summary:"@ + tool;
            (
                s1,
                shown.push(
                    StepModel::Op(
                        OpModel::Replace {
                            id,
                            message: leaf(id, result, compact(obj), MessageType::TaskSummary),
                        },
                    ),
                ),
            )
        },
        _ => (s1, shown),
    }
}

/// The operations of a notification that a task has ended.
pub fn handle_task_notification(text: &str, obj: &Json, uuid: String, state: &mut ParseState) -> (r:
    Vec<ParseStep>)
    ensures
        (final(state)@, step_views(r@)) == notification_steps(old(state)@, text@, obj@, uuid@),
{
    let summary = match extract_xml_tag(text, "summary") {
        Some(s) => s,
        None => "Agent task completed".to_owned(),
    };
    let content = Json::Str(summary);
    let mut out = emit_user_message(obj, &content, uuid, state);
    match (extract_xml_tag(text, "result"), extract_xml_tag(text, "tool-use-id")) {
        (Some(result), Some(tool)) => {
            let id = concat3(state.id_prefix.as_str(), "task_summary:", tool.as_str());
            let node = MessageState::leaf(
                id.clone(),
                result,
                obj.to_compact(),
                MessageType::TaskSummary,
            );
            let step = ParseStep::Op(TreeOperation::Replace { id, message: node });
            proof {
                lemma_step_push(out@, step);
            }
            out.push(step);
        },
        _ => {},
    }
    out
}

/// The block of an assistant message as a node: thinking, text or a call of a tool.
pub open spec fn block_node(prefix: Seq<char>, msg_id: Seq<char>, idx: nat, block: JsonModel) -> Option<
    MessageModel,
> {
    let kind = or_text(str_field(block, "type"@), ""@);
    if kind == "thinking"@ {
        Some(
            leaf(
                prefix + "thinking:"@ + msg_id + ":"@ + decimal(idx),
                or_text(str_field(block, "thinking"@), ""@),
                compact(block),
                MessageType::Thinking,
            ),
        )
    } else if kind == "text"@ {
        Some(
            leaf(
                prefix + "text:"@ + msg_id + ":"@ + decimal(idx),
                or_text(str_field(block, "text"@), ""@),
                compact(block),
                MessageType::AgentMessage,
            ),
        )
    } else if kind == "tool_use"@ {
        Some(
            MessageModel {
                props: given(at(block, "input"@)),
                ..leaf(
                    prefix + "tool_call:"@ + or_text(str_field(block, "id"@), ""@),
                    or_text(str_field(block, "name"@), "?"@),
                    compact(block),
                    MessageType::ToolCall,
                )
            },
        )
    } else {
        None
    }
}

/// A value that is not null.
pub open spec fn given(m: JsonModel) -> Option<JsonModel> {
    if m is Null {
        None
    } else {
        Some(m)
    }
}

/// What one block of an assistant message does.
pub open spec fn block_steps(s: ParseModel, msg_id: Seq<char>, idx: nat, block: JsonModel) -> (
    ParseModel,
    Seq<StepModel>,
) {
    match block_node(s.id_prefix, msg_id, idx, block) {
        Some(node) => {
            let s1 = ParseModel { seen_block_ids: s.seen_block_ids.insert(node.id), ..s };
            let put = placed(!s.seen_block_ids.contains(node.id), node);
            let tool = or_text(str_field(block, "id"@), ""@);
            if node.message_type is ToolCall && tool.len() > 0 {
                let s2 = ParseModel { pending: s1.pending.insert(tool, block), ..s1 };
                if str_field(block, "name"@) == Some("Agent"@) {
                    (
                        s2,
                        seq![
                            put,
                            StepModel::AgentTool {
                                tool_use_id: tool,
                                value: or_text(
                                    str_field(at(block, "input"@), "description"@),
                                    ""@,
                                ),
                                is_result: false,
                            },
                        ],
                    )
                } else {
                    (s2, seq![put])
                }
            } else {
                (s1, seq![put])
            }
        },
        None => (s, Seq::empty()),
    }
}

/// What the blocks of an assistant message do, one after the other.
pub open spec fn blocks_steps(s: ParseModel, msg_id: Seq<char>, blocks: Seq<JsonModel>) -> (
    ParseModel,
    Seq<StepModel>,
)
    decreases blocks.len(),
{
    if blocks.len() == 0 {
        (s, Seq::empty())
    } else {
        let (s1, before) = blocks_steps(s, msg_id, blocks.drop_last());
        let (s2, last) = block_steps(s1, msg_id, (blocks.len() - 1) as nat, blocks.last());
        (s2, before + last)
    }
}

/// What an assistant message does.
pub open spec fn assistant_steps(
    s: ParseModel,
    msg: JsonModel,
    msg_id: Seq<char>,
    uuid: Seq<char>,
) -> (ParseModel, Seq<StepModel>) {
    let blocks = match items_field(msg, "content"@) {
        Some(items) => items,
        None => Seq::empty(),
    };
    let s1 = if uuid.len() == 0 {
        s
    } else {
        ParseModel { seen_uuids: s.seen_uuids.insert(uuid), ..s }
    };
    blocks_steps(s1, msg_id, blocks)
}

fn copy_input(block: &Json) -> (r: Option<Json>)
    ensures
        json_opt(r) == given(at(block@, "input"@)),
{
    match block.get("input") {
        Some(Json::Null) => None,
        Some(v) => Some(v.clone()),
        None => None,
    }
}

fn node_of_block(prefix: &str, msg_id: &str, idx: usize, block: &Json) -> (r: Option<MessageState>)
    ensures
        match r {
            Some(n) => block_node(prefix@, msg_id@, idx as nat, block@) == Some(n@),
            None => block_node(prefix@, msg_id@, idx as nat, block@) is None,
        },
{
    let kind = text_or(block, "type", "");
    if same_text(kind.as_str(), "thinking") || same_text(kind.as_str(), "text") {
        let (word, key, message_type) = if same_text(kind.as_str(), "thinking") {
            ("thinking:", "thinking", MessageType::Thinking)
        } else {
            ("text:", "text", MessageType::AgentMessage)
        };
        let start = concat3(prefix, word, msg_id);
        let number = decimal_text(idx as u64);
        let id = concat3(start.as_str(), ":", number.as_str());
        let text = text_or(block, key, "");
        Some(MessageState::leaf(id, text, block.to_compact(), message_type))
    } else if same_text(kind.as_str(), "tool_use") {
        let tool = text_or(block, "id", "");
        let id = concat3(prefix, "tool_call:", tool.as_str());
        let name = text_or(block, "name", "?");
        let node = MessageState::leaf(id, name, block.to_compact(), MessageType::ToolCall);
        match copy_input(block) {
            Some(input) => Some(node.props(input)),
            None => Some(node),
        }
    } else {
        None
    }
}

proof fn lemma_json_map_insert(m: Map<Seq<char>, Json>, k: Seq<char>, j: Json)
    ensures
        json_map(m.insert(k, j)) == json_map(m).insert(k, j@),
{
    assert(json_map(m.insert(k, j)) =~= json_map(m).insert(k, j@));
}

proof fn lemma_json_map_remove(m: Map<Seq<char>, Json>, k: Seq<char>)
    ensures
        json_map(m.remove(k)) == json_map(m).remove(k),
{
    assert(json_map(m.remove(k)) =~= json_map(m).remove(k));
}

fn emit_block(msg_id: &str, idx: usize, block: &Json, state: &mut ParseState, out: &mut Vec<
    ParseStep,
>)
    ensures
        final(state)@ == block_steps(old(state)@, msg_id@, idx as nat, block@).0,
        step_views(final(out)@) == step_views(old(out)@) + block_steps(
            old(state)@,
            msg_id@,
            idx as nat,
            block@,
        ).1,
{
    let ghost before = step_views(out@);
    let ghost result = block_steps(state@, msg_id@, idx as nat, block@);
    let found = node_of_block(state.id_prefix.as_str(), msg_id, idx, block);
    match found {
        Some(node) => {
            let call = node.message_type == MessageType::ToolCall;
            let new = state.seen_block_ids.insert(node.id.clone());
            let step = place(new, node);
            let ghost put = step@;
            proof {
                lemma_step_push(out@, step);
            }
            out.push(step);
            let tool = text_or(block, "id", "");
            if call && !tool.as_str().is_empty() {
                let copy = block.clone();
                proof {
                    lemma_json_map_insert(state.pending_tool_calls@, tool@, copy);
                }
                state.pending_tool_calls.insert(tool.clone(), copy);
                if is_str(block, "name", "Agent") {
                    let value = match get_str2(block, "input", "description") {
                        Some(d) => d.to_owned(),
                        None => "".to_owned(),
                    };
                    let agent = ParseStep::AgentTool { tool_use_id: tool, value, is_result: false };
                    proof {
                        lemma_step_push(out@, agent);
                    }
                    out.push(agent);
                    assert(step_views(out@) =~= before + result.1);
                } else {
                    assert(step_views(out@) =~= before + result.1);
                }
            } else {
                assert(step_views(out@) =~= before + result.1);
            }
        },
        None => {
            assert(before + result.1 =~= before);
        },
    }
    assert(state@ =~= result.0);
}

/// The nodes of an assistant message's blocks.
pub fn emit_assistant_blocks(msg: &Json, msg_id: &str, uuid: String, state: &mut ParseState) -> (r:
    Vec<ParseStep>)
    ensures
        (final(state)@, step_views(r@)) == assistant_steps(old(state)@, msg@, msg_id@, uuid@),
{
    let mut out: Vec<ParseStep> = Vec::new();
    if !uuid.as_str().is_empty() {
        let _ = state.seen_uuids.insert(uuid);
    }
    let ghost s1 = if uuid@.len() == 0 {
        old(state)@
    } else {
        ParseModel { seen_uuids: old(state)@.seen_uuids.insert(uuid@), ..old(state)@ }
    };
    proof {
        assert(state@ =~= s1);
        assert(step_views(out@) =~= Seq::<StepModel>::empty());
    }
    match msg.get("content") {
        Some(Json::Array(items)) => {
            let ghost all = at(msg@, "content"@)->Array_0;
            let mut i: usize = 0;
            proof {
                assert(all.len() == items@.len());
                assert(blocks_steps(s1, msg_id@, all.take(0)) == (s1, Seq::<StepModel>::empty()));
            }
            while i < items.len()
                invariant
                    i <= items@.len(),
                    all.len() == items@.len(),
                    forall|k: int| 0 <= k < all.len() ==> all[k] == items@[k]@,
                    (state@, step_views(out@)) == blocks_steps(s1, msg_id@, all.take(i as int)),
                decreases items@.len() - i,
            {
                proof {
                    assert(all.take(i + 1).drop_last() =~= all.take(i as int));
                    assert(all.take(i + 1).last() == items@[i as int]@);
                }
                emit_block(msg_id, i, &items[i], state, &mut out);
                i = i + 1;
            }
            proof {
                assert(all.take(items@.len() as int) =~= all);
            }
        },
        _ => {},
    }
    out
}

/// What one tool result does: the call's node gets its outcome, and the result a node under it.
/// A result of no known call is passed over.
pub open spec fn result_steps(s: ParseModel, entry: JsonModel, block: JsonModel) -> (
    ParseModel,
    Seq<StepModel>,
) {
    let tool = or_text(str_field(block, "tool_use_id"@), ""@);
    if str_field(block, "type"@) != Some("tool_result"@) || tool.len() == 0
        || !s.pending.contains_key(tool) {
        (s, Seq::empty())
    } else {
        let call = s.pending[tool];
        let s1 = ParseModel { pending: s.pending.remove(tool), ..s };
        let id = s.id_prefix + "tool_call:"@ + tool;
        let outcome = if flag(block, "is_error"@) {
            "error"@
        } else {
            "success"@
        };
        let name = or_text(str_field(call, "name"@), "?"@);
        let outer = at(entry, "toolUseResult"@);
        match str_field(outer, "agentId"@) {
            Some(agent) => {
                let text = if flag(outer, "isAsync"@) {
                    "Async agent launched"@
                } else {
                    match items_field(outer, "content"@) {
                        Some(items) => if items.len() > 0 {
                            or_text(str_field(items[0], "text"@), ""@)
                        } else {
                            ""@
                        },
                        None => ""@,
                    }
                };
                let description = or_text(str_field(at(call, "input"@), "description"@), ""@);
                (
                    s1,
                    seq![
                        StepModel::AgentTool { tool_use_id: tool, value: agent, is_result: true },
                        StepModel::Op(
                            OpModel::Update {
                                id,
                                message: MessageModel {
                                    tag: Some(outcome),
                                    indent_children: true,
                                    ..leaf(
                                        id,
                                        name + "("@ + description + ")"@,
                                        compact(call),
                                        MessageType::ToolCall,
                                    )
                                },
                            },
                        ),
                        StepModel::Op(
                            OpModel::Append {
                                parent_id: Some(id),
                                message: MessageModel {
                                    indent_children: true,
                                    ..leaf(
                                        s.id_prefix + "task_summary:"@ + tool,
                                        text,
                                        compact(entry),
                                        MessageType::TaskSummary,
                                    )
                                },
                            },
                        ),
                    ],
                )
            },
            None => (
                s1,
                seq![
                    StepModel::Op(
                        OpModel::Replace {
                            id,
                            message: MessageModel {
                                tag: Some(outcome),
                                props: given(at(call, "input"@)),
                                ..leaf(id, name, compact(call), MessageType::ToolCall)
                            },
                        },
                    ),
                    StepModel::Op(
                        OpModel::Append {
                            parent_id: Some(id),
                            message: MessageModel {
                                tag: Some(outcome),
                                ..leaf(
                                    s.id_prefix + "tool_result:"@ + tool,
                                    content_text(at(block, "content"@), Some(500)),
                                    compact(entry),
                                    MessageType::ToolResult,
                                )
                            },
                        },
                    ),
                ],
            ),
        }
    }
}

/// What the blocks of a message with tool results do, one after the other.
pub open spec fn results_steps(s: ParseModel, entry: JsonModel, blocks: Seq<JsonModel>) -> (
    ParseModel,
    Seq<StepModel>,
)
    decreases blocks.len(),
{
    if blocks.len() == 0 {
        (s, Seq::empty())
    } else {
        let (s1, before) = results_steps(s, entry, blocks.drop_last());
        let (s2, last) = result_steps(s1, entry, blocks.last());
        (s2, before + last)
    }
}

fn agent_result_text(outer: &Json) -> (r: String)
    ensures
        r@ == (if flag(outer@, "isAsync"@) {
            "Async agent launched"@
        } else {
            match items_field(outer@, "content"@) {
                Some(items) => if items.len() > 0 {
                    or_text(str_field(items[0], "text"@), ""@)
                } else {
                    ""@
                },
                None => ""@,
            }
        }),
{
    if is_flag(outer, "isAsync") {
        return "Async agent launched".to_owned();
    }
    match outer.get("content") {
        Some(Json::Array(items)) => {
            if items.len() > 0 {
                text_or(&items[0], "text", "")
            } else {
                "".to_owned()
            }
        },
        _ => "".to_owned(),
    }
}

fn emit_result(entry: &Json, block: &Json, state: &mut ParseState, out: &mut Vec<ParseStep>)
    ensures
        final(state)@ == result_steps(old(state)@, entry@, block@).0,
        step_views(final(out)@) == step_views(old(out)@) + result_steps(
            old(state)@,
            entry@,
            block@,
        ).1,
{
    let ghost before = step_views(out@);
    let ghost result = result_steps(state@, entry@, block@);
    let tool = text_or(block, "tool_use_id", "");
    if !is_str(block, "type", "tool_result") || tool.as_str().is_empty() {
        assert(before + result.1 =~= before);
        return;
    }
    let call = match state.pending_tool_calls.get(tool.as_str()) {
        Some(c) => c.clone(),
        None => {
            assert(before + result.1 =~= before);
            return;
        },
    };
    proof {
        lemma_json_map_remove(state.pending_tool_calls@, tool@);
    }
    state.pending_tool_calls.remove(tool.as_str());
    let id = concat3(state.id_prefix.as_str(), "tool_call:", tool.as_str());
    let outcome = if is_flag(block, "is_error") {
        "error"
    } else {
        "success"
    };
    let name = text_or(&call, "name", "?");
    let agent = match entry.get("toolUseResult") {
        Some(outer) => match outer.get_str("agentId") {
            Some(a) => Some((a.to_owned(), agent_result_text(outer))),
            None => None,
        },
        None => None,
    };
    match agent {
        Some((agent_id, text)) => {
            let description = match get_str2(&call, "input", "description") {
                Some(d) => d,
                None => "",
            };
            let mut shown = concat3(name.as_str(), "(", description);
            shown.append(")");
            let summary_id = concat3(state.id_prefix.as_str(), "task_summary:", tool.as_str());
            let step0 = ParseStep::AgentTool {
                tool_use_id: tool,
                value: agent_id,
                is_result: true,
            };
            let node = MessageState::leaf(
                id.clone(),
                shown,
                call.to_compact(),
                MessageType::ToolCall,
            ).tag(outcome).indent_children(true);
            let step1 = ParseStep::Op(TreeOperation::Update { id: id.clone(), message: node });
            let summary = MessageState::leaf(
                summary_id,
                text,
                entry.to_compact(),
                MessageType::TaskSummary,
            ).indent_children(true);
            let step2 = ParseStep::Op(
                TreeOperation::Append { parent_id: Some(id), message: summary },
            );
            proof {
                lemma_step_push(out@, step0);
                lemma_step_push(out@.push(step0), step1);
                lemma_step_push(out@.push(step0).push(step1), step2);
            }
            out.push(step0);
            out.push(step1);
            out.push(step2);
            assert(step_views(out@) =~= before + result.1);
        },
        None => {
            let text = match block.get("content") {
                Some(c) => extract_tool_result_text(c),
                None => String::new(),
            };
            let mut node = MessageState::leaf(
                id.clone(),
                name,
                call.to_compact(),
                MessageType::ToolCall,
            ).tag(outcome);
            if let Some(input) = copy_input(&call) {
                node = node.props(input);
            }
            let step1 = ParseStep::Op(TreeOperation::Replace { id: id.clone(), message: node });
            let result_id = concat3(state.id_prefix.as_str(), "tool_result:", tool.as_str());
            let shown = MessageState::leaf(
                result_id,
                text,
                entry.to_compact(),
                MessageType::ToolResult,
            ).tag(outcome);
            let step2 = ParseStep::Op(
                TreeOperation::Append { parent_id: Some(id), message: shown },
            );
            proof {
                lemma_step_push(out@, step1);
                lemma_step_push(out@.push(step1), step2);
            }
            out.push(step1);
            out.push(step2);
            assert(step_views(out@) =~= before + result.1);
        },
    }
    assert(state@ =~= result.0);
}

/// The operations of a user message that carries tool results.
pub fn handle_tool_results(entry: &Json, blocks: &Vec<Json>, state: &mut ParseState) -> (r: Vec<
    ParseStep,
>)
    ensures
        (final(state)@, step_views(r@)) == results_steps(
            old(state)@,
            entry@,
            blocks@.map_values(|b: Json| b@),
        ),
{
    let ghost all = blocks@.map_values(|b: Json| b@);
    let ghost s0 = state@;
    let mut out: Vec<ParseStep> = Vec::new();
    let mut i: usize = 0;
    proof {
        assert(step_views(out@) =~= Seq::<StepModel>::empty());
        assert(results_steps(s0, entry@, all.take(0)) == (s0, Seq::<StepModel>::empty()));
    }
    while i < blocks.len()
        invariant
            i <= blocks@.len(),
            all == blocks@.map_values(|b: Json| b@),
            (state@, step_views(out@)) == results_steps(s0, entry@, all.take(i as int)),
        decreases blocks@.len() - i,
    {
        proof {
            assert(all.take(i + 1).drop_last() =~= all.take(i as int));
            assert(all.take(i + 1).last() == blocks@[i as int]@);
        }
        emit_result(entry, &blocks[i], state, &mut out);
        i = i + 1;
    }
    proof {
        assert(all.take(blocks@.len() as int) =~= all);
    }
    out
}

/// Whether a list of blocks holds a tool result.
pub open spec fn has_result(blocks: Seq<JsonModel>) -> bool {
    exists|i: int|
        0 <= i < blocks.len() && str_field(#[trigger] blocks[i], "type"@) == Some("tool_result"@)
}

pub(crate) fn any_result(blocks: &Vec<Json>) -> (r: bool)
    ensures
        r == has_result(blocks@.map_values(|b: Json| b@)),
{
    let ghost all = blocks@.map_values(|b: Json| b@);
    let mut i: usize = 0;
    while i < blocks.len()
        invariant
            i <= blocks@.len(),
            all == blocks@.map_values(|b: Json| b@),
            forall|k: int|
                0 <= k < i ==> str_field(#[trigger] all[k], "type"@) != Some("tool_result"@),
        decreases blocks@.len() - i,
    {
        if is_str(&blocks[i], "type", "tool_result") {
            assert(all[i as int] == blocks@[i as int]@);
            return true;
        }
        i = i + 1;
    }
    false
}

/// What a user entry does.
pub open spec fn user_entry_steps(s: ParseModel, obj: JsonModel, uuid: Seq<char>) -> (
    ParseModel,
    Seq<StepModel>,
) {
    let content = at(at(obj, "message"@), "content"@);
    if content is Array && has_result(content->Array_0) {
        results_steps(s, obj, content->Array_0)
    } else if uuid.len() == 0 {
        (s, Seq::empty())
    } else if content is Str && starts(trimmed_start(content->Str_0), "<task-notification>"@) {
        notification_steps(s, content->Str_0, obj, uuid)
    } else {
        user_steps(s, obj, content, uuid)
    }
}

/// What an entry of a transcript does.
pub open spec fn entry_steps(s: ParseModel, obj: JsonModel) -> (ParseModel, Seq<StepModel>) {
    let kind = or_text(str_field(obj, "type"@), ""@);
    let uuid = or_text(str_field(obj, "uuid"@), ""@);
    if kind == "summary"@ {
        if uuid.len() == 0 {
            (s, Seq::empty())
        } else {
            (
                s,
                seq![
                    placed(
                        true,
                        leaf(
                            s.id_prefix + "task_summary:"@ + uuid,
                            or_text(str_field(obj, "summary"@), ""@),
                            compact(obj),
                            MessageType::TaskSummary,
                        ),
                    ),
                ],
            )
        }
    } else if kind == "user"@ {
        user_entry_steps(s, obj, uuid)
    } else if kind == "assistant"@ {
        let msg = at(obj, "message"@);
        let msg_id = or_text(str_field(msg, "id"@), ""@);
        if msg_id.len() == 0 {
            (s, Seq::empty())
        } else {
            assistant_steps(s, msg, msg_id, uuid)
        }
    } else if kind == "attachment"@ {
        if uuid.len() == 0 {
            (s, Seq::empty())
        } else {
            attachment_steps(s, obj, uuid)
        }
    } else if kind == "system"@ && str_field(obj, "subtype"@) == Some("compact_boundary"@) {
        (ParseModel { compact: s.compact.insert(uuid), ..s }, Seq::empty())
    } else {
        (s, Seq::empty())
    }
}

fn no_steps() -> (r: Vec<ParseStep>)
    ensures
        step_views(r@) == Seq::<StepModel>::empty(),
{
    let r: Vec<ParseStep> = Vec::new();
    assert(step_views(r@) =~= Seq::<StepModel>::empty());
    r
}

fn parse_user(obj: &Json, uuid: String, state: &mut ParseState) -> (r: Vec<ParseStep>)
    ensures
        (final(state)@, step_views(r@)) == user_entry_steps(old(state)@, obj@, uuid@),
{
    let null = Json::Null;
    let content = match obj.get("message") {
        Some(m) => match m.get("content") {
            Some(c) => c,
            None => &null,
        },
        None => &null,
    };
    if let Json::Array(items) = content {
        proof {
            assert(content@->Array_0 =~= items@.map_values(|b: Json| b@));
        }
        if any_result(items) {
            return handle_tool_results(obj, items, state);
        }
    }
    if uuid.as_str().is_empty() {
        return no_steps();
    }
    if let Json::Str(text) = content {
        let start = trim_start(text.as_str());
        if starts_with(start.as_str(), "<task-notification>") {
            return handle_task_notification(text.as_str(), obj, uuid, state);
        }
    }
    emit_user_message(obj, content, uuid, state)
}

/// What an entry of a transcript does.
pub fn parse_entry_value(obj: &Json, state: &mut ParseState) -> (r: Vec<ParseStep>)
    ensures
        (final(state)@, step_views(r@)) == entry_steps(old(state)@, obj@),
{
    let kind = text_or(obj, "type", "");
    let uuid = text_or(obj, "uuid", "");
    if same_text(kind.as_str(), "summary") {
        if uuid.as_str().is_empty() {
            return no_steps();
        }
        let id = concat3(state.id_prefix.as_str(), "task_summary:", uuid.as_str());
        let text = text_or(obj, "summary", "");
        let node = MessageState::leaf(id, text, obj.to_compact(), MessageType::TaskSummary);
        let mut out: Vec<ParseStep> = Vec::new();
        out.push(place(true, node));
        assert(step_views(out@) =~= entry_steps(old(state)@, obj@).1);
        out
    } else if same_text(kind.as_str(), "user") {
        parse_user(obj, uuid, state)
    } else if same_text(kind.as_str(), "assistant") {
        match obj.get("message") {
            Some(msg) => {
                let msg_id = text_or(msg, "id", "");
                if msg_id.as_str().is_empty() {
                    no_steps()
                } else {
                    emit_assistant_blocks(msg, msg_id.as_str(), uuid, state)
                }
            },
            None => {
                proof {
                    reveal_strlit("");
                }
                no_steps()
            },
        }
    } else if same_text(kind.as_str(), "attachment") {
        if uuid.as_str().is_empty() {
            no_steps()
        } else {
            emit_attachment_node(obj, uuid, state)
        }
    } else if same_text(kind.as_str(), "system") && is_str(obj, "subtype", "compact_boundary") {
        let _ = state.compact_boundary_uuids.insert(uuid);
        assert(state@ =~= entry_steps(old(state)@, obj@).0);
        no_steps()
    } else {
        no_steps()
    }
}

/// What a line of a transcript does; a line that is no JSON does nothing.
pub fn parse_entry_steps(line: &str, state: &mut ParseState) -> (r: Vec<ParseStep>)
    ensures
        (final(state)@, step_views(r@)) == (match json_parsed(line@) {
            Some(obj) => entry_steps(old(state)@, obj),
            None => (old(state)@, Seq::empty()),
        }),
{
    match parse_json(line) {
        Some(obj) => parse_entry_value(&obj, state),
        None => no_steps(),
    }
}

/// The changes of the tree among steps.
pub open spec fn ops_among(steps: Seq<StepModel>) -> Seq<OpModel>
    decreases steps.len(),
{
    if steps.len() == 0 {
        Seq::empty()
    } else {
        match steps.last() {
            StepModel::Op(op) => ops_among(steps.drop_last()).push(op),
            _ => ops_among(steps.drop_last()),
        }
    }
}

/// The changes of the tree among steps.
pub fn ops_of_steps(steps: Vec<ParseStep>) -> (r: Vec<TreeOperation>)
    ensures
        op_views(r@) == ops_among(step_views(steps@)),
{
    let ghost all = step_views(steps@);
    let mut out: Vec<TreeOperation> = Vec::new();
    proof {
        assert(op_views(out@) =~= ops_among(all.take(0)));
    }
    let ghost source = steps@;
    for step in it: steps
        invariant
            it.seq() == source,
            all == step_views(source),
            op_views(out@) == ops_among(all.take(it.index() as int)),
    {
        proof {
            let i = it.index() as int;
            assert(step == source[i]);
            assert(all.take(i + 1).drop_last() =~= all.take(i));
            assert(all.take(i + 1).last() == step@);
        }
        let ghost before = out@;
        match step {
            ParseStep::Op(op) => {
                out.push(op);
                proof {
                    assert(op_views(out@) =~= op_views(before).push(op@));
                }
            },
            _ => {},
        }
    }
    proof {
        assert(all.take(all.len() as int) =~= all);
    }
    out
}

/// The changes of the tree that a line of a transcript makes. This never fails.
pub fn parse_entry(line: &str, state: &mut ParseState) -> (r: Result<Vec<TreeOperation>, String>)
    ensures
        r is Ok,
        (final(state)@, op_views(r->Ok_0@)) == (match json_parsed(line@) {
            Some(obj) => (
                entry_steps(old(state)@, obj).0,
                ops_among(entry_steps(old(state)@, obj).1),
            ),
            None => (old(state)@, Seq::empty()),
        }),
{
    let steps = parse_entry_steps(line, state);
    Ok(ops_of_steps(steps))
}

} // verus!
