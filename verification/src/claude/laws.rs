//! What holds of the entries of a transcript.
use crate::claude::message::{
    at, attachment_steps, block_node, block_steps, block_texts, blocks_steps,
    content_text, count, display_path, empty_state, entry_steps, flag, label, names_in, ops_among, or_text,
    result_steps, results_steps, user_steps, ParseModel, StepModel,
};
use crate::claude::xml::{
    closing, law_tags, one_tag, opening, plain_name, tag_text, xml_shown,
};
use crate::json::{compact, field, items_field, str_field, JsonModel};
use crate::text::{
    decimal, first_at, joined, lemma_first_at, lemma_next_char, lines_of, next_char, occurs_at,
    split_at_char, starts, trimmed, trimmed_start,
};
use crate::tree::{MessageModel, OpModel};
use vstd::prelude::*;

verus! {

/// A step that puts a node in the place of the one with its id.
pub open spec fn replaces(step: StepModel) -> bool {
    match step {
        StepModel::Op(OpModel::Replace { id, message }) => id == message.id,
        _ => false,
    }
}

/// A step that adds a node at the top.
pub open spec fn appends(step: StepModel) -> bool {
    match step {
        StepModel::Op(OpModel::Append { parent_id, .. }) => parent_id is None,
        _ => false,
    }
}

/// A user message is added once: a second entry of its uuid takes the place of the first.
pub proof fn law_user_message_once(
    s: ParseModel,
    obj: JsonModel,
    content: JsonModel,
    uuid: Seq<char>,
    later_obj: JsonModel,
    later_content: JsonModel,
)
    requires
        !s.seen_uuids.contains(uuid),
    ensures
        ({
            let (s1, first) = user_steps(s, obj, content, uuid);
            let (s2, second) = user_steps(s1, later_obj, later_content, uuid);
            &&& first.len() == 1 && appends(first[0])
            &&& second.len() == 1 && replaces(second[0])
            &&& s2 == s1
        }),
{
    let s1 = user_steps(s, obj, content, uuid).0;
    assert(s1.seen_uuids.insert(uuid) =~= s1.seen_uuids);
}

/// An attachment is added once: a second entry of its uuid takes the place of the first.
pub proof fn law_attachment_once(
    s: ParseModel,
    obj: JsonModel,
    uuid: Seq<char>,
    later_obj: JsonModel,
)
    requires
        !s.seen_uuids.contains(uuid),
    ensures
        ({
            let (s1, first) = attachment_steps(s, obj, uuid);
            let (s2, second) = attachment_steps(s1, later_obj, uuid);
            &&& first.len() == 1 && appends(first[0])
            &&& second.len() == 1 && replaces(second[0])
            &&& s2 == s1
        }),
{
    let s1 = attachment_steps(s, obj, uuid).0;
    assert(s1.seen_uuids.insert(uuid) =~= s1.seen_uuids);
}

/// A block of an assistant message is added once: parsed again, it takes its own place.
pub proof fn law_block_once(s: ParseModel, msg_id: Seq<char>, idx: nat, block: JsonModel)
    requires
        block_node(s.id_prefix, msg_id, idx, block) is Some,
    ensures
        ({
            let (s1, first) = block_steps(s, msg_id, idx, block);
            let (_, second) = block_steps(s1, msg_id, idx, block);
            &&& first.len() > 0
            &&& second.len() > 0
            &&& replaces(second[0])
            &&& !s.seen_block_ids.contains(
                block_node(s.id_prefix, msg_id, idx, block)->0.id,
            ) ==> appends(first[0])
        }),
{
}

/// A call of a tool waits for its result from the time it is parsed.
pub proof fn law_call_waits(s: ParseModel, msg_id: Seq<char>, idx: nat, block: JsonModel)
    requires
        str_field(block, "type"@) == Some("tool_use"@),
        str_field(block, "id"@) is Some,
        str_field(block, "id"@)->0.len() > 0,
    ensures
        ({
            let after = block_steps(s, msg_id, idx, block).0;
            after.pending.contains_key(str_field(block, "id"@)->0) && after.pending[str_field(
                block,
                "id"@,
            )->0] == block
        }),
{
    reveal_strlit("tool_use");
    reveal_strlit("thinking");
    reveal_strlit("text");
    assert("tool_use"@.len() == 8 && "thinking"@.len() == 8 && "text"@.len() == 4);
    assert("tool_use"@[1] != "thinking"@[1]);
}

/// A call gets one result: the first one that comes, and no other changes anything.
pub proof fn law_one_result(s: ParseModel, entry: JsonModel, block: JsonModel, later: JsonModel)
    requires
        str_field(later, "tool_use_id"@) == str_field(block, "tool_use_id"@),
        str_field(block, "type"@) == Some("tool_result"@),
    ensures
        ({
            let after = result_steps(s, entry, block).0;
            result_steps(after, entry, later) == (after, Seq::<StepModel>::empty())
        }),
{
}

/// An entry of an unknown type does nothing.
pub proof fn law_unknown_entry(s: ParseModel, obj: JsonModel)
    requires
        ({
            let kind = or_text(str_field(obj, "type"@), ""@);
            kind != "summary"@ && kind != "user"@ && kind != "assistant"@ && kind != "attachment"@
                && kind != "system"@
        }),
    ensures
        entry_steps(s, obj) == (s, Seq::<StepModel>::empty()),
{
}

proof fn lemma_entry_words()
    ensures
        "summary"@ != "user"@,
        "summary"@ != "assistant"@,
        "summary"@ != "attachment"@,
        "summary"@ != "system"@,
        "user"@ != "assistant"@,
        "user"@ != "attachment"@,
        "user"@ != "system"@,
        "assistant"@ != "attachment"@,
        "assistant"@ != "system"@,
        "attachment"@ != "system"@,
{
    reveal_strlit("summary");
    reveal_strlit("user");
    reveal_strlit("assistant");
    reveal_strlit("attachment");
    reveal_strlit("system");
    assert("summary"@.len() == 7);
    assert("user"@.len() == 4);
    assert("assistant"@.len() == 9);
    assert("attachment"@.len() == 10);
    assert("system"@.len() == 6);
}

proof fn lemma_block_words()
    ensures
        "thinking"@ != "text"@,
        "thinking"@ != "tool_use"@,
        "thinking"@ != ""@,
        "text"@ != "tool_use"@,
        "text"@ != ""@,
        "tool_use"@ != ""@,
{
    reveal_strlit("thinking");
    reveal_strlit("text");
    reveal_strlit("tool_use");
    reveal_strlit("");
    assert("thinking"@.len() == 8);
    assert("text"@.len() == 4);
    assert("tool_use"@.len() == 8);
    assert(""@.len() == 0);
    assert("thinking"@[1] != "tool_use"@[1]);
}

proof fn lemma_attachment_words()
    ensures
        "file"@ != "already_read_file"@,
        "file"@ != "compact_file_reference"@,
        "file"@ != "edited_text_file"@,
        "file"@ != "directory"@,
        "file"@ != "skill_listing"@,
        "file"@ != "deferred_tools_delta"@,
        "file"@ != "command_permissions"@,
        "file"@ != "task_reminder"@,
        "file"@ != "queued_command"@,
        "file"@ != "invoked_skills"@,
        "file"@ != "date_change"@,
        "already_read_file"@ != "compact_file_reference"@,
        "already_read_file"@ != "edited_text_file"@,
        "already_read_file"@ != "directory"@,
        "already_read_file"@ != "skill_listing"@,
        "already_read_file"@ != "deferred_tools_delta"@,
        "already_read_file"@ != "command_permissions"@,
        "already_read_file"@ != "task_reminder"@,
        "already_read_file"@ != "queued_command"@,
        "already_read_file"@ != "invoked_skills"@,
        "already_read_file"@ != "date_change"@,
        "compact_file_reference"@ != "edited_text_file"@,
        "compact_file_reference"@ != "directory"@,
        "compact_file_reference"@ != "skill_listing"@,
        "compact_file_reference"@ != "deferred_tools_delta"@,
        "compact_file_reference"@ != "command_permissions"@,
        "compact_file_reference"@ != "task_reminder"@,
        "compact_file_reference"@ != "queued_command"@,
        "compact_file_reference"@ != "invoked_skills"@,
        "compact_file_reference"@ != "date_change"@,
        "edited_text_file"@ != "directory"@,
        "edited_text_file"@ != "skill_listing"@,
        "edited_text_file"@ != "deferred_tools_delta"@,
        "edited_text_file"@ != "command_permissions"@,
        "edited_text_file"@ != "task_reminder"@,
        "edited_text_file"@ != "queued_command"@,
        "edited_text_file"@ != "invoked_skills"@,
        "edited_text_file"@ != "date_change"@,
        "directory"@ != "skill_listing"@,
        "directory"@ != "deferred_tools_delta"@,
        "directory"@ != "command_permissions"@,
        "directory"@ != "task_reminder"@,
        "directory"@ != "queued_command"@,
        "directory"@ != "invoked_skills"@,
        "directory"@ != "date_change"@,
        "skill_listing"@ != "deferred_tools_delta"@,
        "skill_listing"@ != "command_permissions"@,
        "skill_listing"@ != "task_reminder"@,
        "skill_listing"@ != "queued_command"@,
        "skill_listing"@ != "invoked_skills"@,
        "skill_listing"@ != "date_change"@,
        "deferred_tools_delta"@ != "command_permissions"@,
        "deferred_tools_delta"@ != "task_reminder"@,
        "deferred_tools_delta"@ != "queued_command"@,
        "deferred_tools_delta"@ != "invoked_skills"@,
        "deferred_tools_delta"@ != "date_change"@,
        "command_permissions"@ != "task_reminder"@,
        "command_permissions"@ != "queued_command"@,
        "command_permissions"@ != "invoked_skills"@,
        "command_permissions"@ != "date_change"@,
        "task_reminder"@ != "queued_command"@,
        "task_reminder"@ != "invoked_skills"@,
        "task_reminder"@ != "date_change"@,
        "queued_command"@ != "invoked_skills"@,
        "queued_command"@ != "date_change"@,
        "invoked_skills"@ != "date_change"@,
{
    reveal_strlit("file");
    reveal_strlit("already_read_file");
    reveal_strlit("compact_file_reference");
    reveal_strlit("edited_text_file");
    reveal_strlit("directory");
    reveal_strlit("skill_listing");
    reveal_strlit("deferred_tools_delta");
    reveal_strlit("command_permissions");
    reveal_strlit("task_reminder");
    reveal_strlit("queued_command");
    reveal_strlit("invoked_skills");
    reveal_strlit("date_change");
    assert("file"@.len() == 4);
    assert("already_read_file"@.len() == 17);
    assert("compact_file_reference"@.len() == 22);
    assert("edited_text_file"@.len() == 16);
    assert("directory"@.len() == 9);
    assert("skill_listing"@.len() == 13);
    assert("deferred_tools_delta"@.len() == 20);
    assert("command_permissions"@.len() == 19);
    assert("task_reminder"@.len() == 13);
    assert("queued_command"@.len() == 14);
    assert("invoked_skills"@.len() == 14);
    assert("date_change"@.len() == 11);
    assert("skill_listing"@[0] != "task_reminder"@[0]);
    assert("queued_command"@[0] != "invoked_skills"@[0]);
}

/// Whether a node has nothing but an id, a type, a text, data, a tag, properties, and children that
/// are indented or not.
pub open spec fn is_bare(node: MessageModel) -> bool {
    &&& node.hidden is NotHidden
    &&& node.brief is None
    &&& node.timestamp is None
    &&& !node.expanded && !node.show_more && !node.group && !node.is_terminal
    &&& node.ui_state is None
    &&& node.children.len() == 0
}

/// Whether a block holds the result of a call that is waited for.
pub open spec fn answers(s: ParseModel, block: JsonModel, tool: Seq<char>) -> bool {
    &&& field(block, "type"@) == Some(JsonModel::Str("tool_result"@))
    &&& field(block, "tool_use_id"@) == Some(JsonModel::Str(tool))
    &&& tool.len() > 0
    &&& s.pending.contains_key(tool)
}

/// Whether a result is that of an agent.
pub open spec fn of_agent(entry: JsonModel) -> bool {
    &&& field(entry, "toolUseResult"@) is Some
    &&& str_field(field(entry, "toolUseResult"@)->0, "agentId"@) is Some
}

/// The word that a result is marked with: whether it says that the call failed.
pub open spec fn outcome_word(block: JsonModel) -> Seq<char> {
    if field(block, "is_error"@) == Some(JsonModel::Bool(true)) {
        "error"@
    } else {
        "success"@
    }
}

/// The node that takes the place of a call carries "error" where the result says that the call
/// failed and "success" where it does not, and so does the node of the result, which is put under
/// the call and holds the result's text.
pub proof fn law_result_marks_call(
    s: ParseModel,
    entry: JsonModel,
    block: JsonModel,
    tool: Seq<char>,
)
    requires
        answers(s, block, tool),
        !of_agent(entry),
    ensures
        ({
            let (after, steps) = result_steps(s, entry, block);
            let call = s.pending[tool];
            let id = s.id_prefix + "tool_call:"@ + tool;
            &&& after == (ParseModel { pending: s.pending.remove(tool), ..s })
            &&& steps.len() == 2
            &&& steps[0] matches StepModel::Op(OpModel::Replace { id: place, message: node }) && {
                &&& place == id && node.id == id
                &&& node.message_type is ToolCall
                &&& node.tag == Some(outcome_word(block))
                &&& str_field(call, "name"@) is Some ==> node.text == str_field(call, "name"@)
                &&& str_field(call, "name"@) is None ==> node.text == Some("?"@)
                &&& node.data == compact(call)
                &&& field(call, "input"@) is None || field(call, "input"@) == Some(JsonModel::Null)
                    ==> node.props is None
                &&& field(call, "input"@) is Some && !(field(call, "input"@)->0 is Null)
                    ==> node.props == field(call, "input"@)
                &&& !node.indent_children
                &&& is_bare(node)
            }
            &&& steps[1] matches StepModel::Op(
                OpModel::Append { parent_id: parent, message: node },
            ) && {
                &&& parent == Some(id)
                &&& node.id == s.id_prefix + "tool_result:"@ + tool
                &&& node.message_type is ToolResult
                &&& node.tag == Some(outcome_word(block))
                &&& field(block, "content"@) is Some ==> node.text == Some(
                    content_text(field(block, "content"@)->0, Some(500nat)),
                )
                &&& field(block, "content"@) is None ==> node.text == Some(Seq::<char>::empty())
                &&& node.data == compact(entry)
                &&& node.props is None
                &&& !node.indent_children
                &&& is_bare(node)
            }
        }),
{
}

/// The text of the first item of an agent's result.
pub open spec fn agent_answer(outer: JsonModel) -> Seq<char> {
    match items_field(outer, "content"@) {
        Some(items) => if items.len() > 0 && str_field(items[0], "text"@) is Some {
            str_field(items[0], "text"@)->0
        } else {
            Seq::empty()
        },
        None => Seq::empty(),
    }
}

/// An agent's result tells the agent's id, marks the call by its outcome, and puts what the agent
/// answered under it; of one that runs on by itself, that it was started.
pub proof fn law_agent_result(s: ParseModel, entry: JsonModel, block: JsonModel, tool: Seq<char>)
    requires
        answers(s, block, tool),
        of_agent(entry),
    ensures
        ({
            let (after, steps) = result_steps(s, entry, block);
            let call = s.pending[tool];
            let outer = field(entry, "toolUseResult"@)->0;
            let id = s.id_prefix + "tool_call:"@ + tool;
            &&& after == (ParseModel { pending: s.pending.remove(tool), ..s })
            &&& steps.len() == 3
            &&& steps[0] == (StepModel::AgentTool {
                tool_use_id: tool,
                value: str_field(outer, "agentId"@)->0,
                is_result: true,
            })
            &&& steps[1] matches StepModel::Op(OpModel::Update { id: place, message: node }) && {
                &&& place == id && node.id == id
                &&& node.message_type is ToolCall
                &&& node.tag == Some(outcome_word(block))
                &&& node.indent_children
                &&& str_field(call, "name"@) is Some && field(call, "input"@) is Some
                    && str_field(field(call, "input"@)->0, "description"@) is Some ==> node.text
                    == Some(
                    str_field(call, "name"@)->0 + "("@ + str_field(
                        field(call, "input"@)->0,
                        "description"@,
                    )->0 + ")"@,
                )
                &&& node.data == compact(call)
                &&& is_bare(node)
            }
            &&& steps[2] matches StepModel::Op(
                OpModel::Append { parent_id: parent, message: node },
            ) && {
                &&& parent == Some(id)
                &&& node.id == s.id_prefix + "task_summary:"@ + tool
                &&& node.message_type is TaskSummary
                &&& node.indent_children
                &&& field(outer, "isAsync"@) == Some(JsonModel::Bool(true)) ==> node.text == Some(
                    "Async agent launched"@,
                )
                &&& field(outer, "isAsync"@) != Some(JsonModel::Bool(true)) ==> node.text == Some(
                    agent_answer(outer),
                )
                &&& node.data == compact(entry)
                &&& is_bare(node)
            }
        }),
{
    reveal_strlit("");
    assert(""@ =~= Seq::<char>::empty());
}

/// A block that is no result, and a result of no call that is waited for, does nothing.
pub proof fn law_result_of_no_call(s: ParseModel, entry: JsonModel, block: JsonModel)
    requires
        str_field(block, "type"@) != Some("tool_result"@) || str_field(block, "tool_use_id"@) is None
            || str_field(block, "tool_use_id"@)->0.len() == 0 || !s.pending.contains_key(
            str_field(block, "tool_use_id"@)->0,
        ),
    ensures
        result_steps(s, entry, block) == (s, Seq::<StepModel>::empty()),
{
    reveal_strlit("");
    assert(""@.len() == 0);
}

/// The results of a message are taken one after the other, each in the state that those before it
/// left.
pub proof fn law_results_in_order(
    s: ParseModel,
    entry: JsonModel,
    a: Seq<JsonModel>,
    b: Seq<JsonModel>,
)
    ensures
        results_steps(s, entry, Seq::empty()) == (s, Seq::<StepModel>::empty()),
        ({
            let (s1, first) = results_steps(s, entry, a);
            let (s2, second) = results_steps(s1, entry, b);
            results_steps(s, entry, a + b) == (s2, first + second)
        }),
        b.len() == 1 ==> results_steps(s, entry, b) == result_steps(s, entry, b[0]),
    decreases b.len(),
{
    let (s1, first) = results_steps(s, entry, a);
    if b.len() == 0 {
        assert(a + b =~= a);
        assert(first + Seq::<StepModel>::empty() =~= first);
    } else {
        law_results_in_order(s, entry, a, b.drop_last());
        assert((a + b).drop_last() =~= a + b.drop_last());
        assert((a + b).last() == b.last());
        let (s2, second) = results_steps(s1, entry, b.drop_last());
        let (s3, third) = result_steps(s2, entry, b.last());
        assert((first + second) + third =~= first + (second + third));
    }
    if b.len() == 1 {
        assert(b.drop_last() =~= Seq::<JsonModel>::empty());
        let last = result_steps(s, entry, b[0]);
        assert(Seq::<StepModel>::empty() + last.1 =~= last.1);
    }
}

/// The content of a message.
pub open spec fn content_of_entry(obj: JsonModel) -> JsonModel {
    match field(obj, "message"@) {
        Some(msg) => match field(msg, "content"@) {
            Some(content) => content,
            None => JsonModel::Null,
        },
        None => JsonModel::Null,
    }
}

/// A user's entry whose content holds a tool's result does what its blocks do as results.
pub proof fn law_entry_with_results(s: ParseModel, obj: JsonModel, blocks: Seq<JsonModel>, i: int)
    requires
        field(obj, "type"@) == Some(JsonModel::Str("user"@)),
        content_of_entry(obj) == JsonModel::Array(blocks),
        0 <= i < blocks.len(),
        field(blocks[i], "type"@) == Some(JsonModel::Str("tool_result"@)),
    ensures
        entry_steps(s, obj) == results_steps(s, obj, blocks),
{
    lemma_entry_words();
    assert(str_field(blocks[i], "type"@) == Some("tool_result"@));
}

/// Among the steps of a user's entry, the result of a call that is waited for marks the call and
/// its own node by whether the result says that the call failed, wherever it stands.
pub proof fn law_failed_calls_are_marked(
    s: ParseModel,
    obj: JsonModel,
    before: Seq<JsonModel>,
    block: JsonModel,
    behind: Seq<JsonModel>,
    tool: Seq<char>,
)
    requires
        field(obj, "type"@) == Some(JsonModel::Str("user"@)),
        content_of_entry(obj) == JsonModel::Array(before.push(block) + behind),
        answers(results_steps(s, obj, before).0, block, tool),
        !of_agent(obj),
    ensures
        ({
            let steps = entry_steps(s, obj).1;
            exists|k: int|
                #![trigger steps[k]]
                0 <= k < steps.len() - 1 && (steps[k] matches StepModel::Op(
                    OpModel::Replace { message: node, .. },
                ) && node.tag == Some(outcome_word(block))) && (steps[k + 1] matches StepModel::Op(
                    OpModel::Append { message: node, .. },
                ) && node.tag == Some(outcome_word(block)))
        }),
{
    let (s1, first) = results_steps(s, obj, before);
    let all = before.push(block) + behind;
    assert(before.push(block)[before.len() as int] == block);
    assert(all[before.len() as int] == block);
    law_entry_with_results(s, obj, all, before.len() as int);
    law_results_in_order(s, obj, before, seq![block]);
    law_results_in_order(s1, obj, Seq::empty(), seq![block]);
    assert(before + seq![block] =~= before.push(block));
    law_results_in_order(s, obj, before.push(block), behind);
    law_result_marks_call(s1, obj, block, tool);
    let (s2, second) = result_steps(s1, obj, block);
    let (s3, third) = results_steps(s2, obj, behind);
    let steps = entry_steps(s, obj).1;
    assert(steps == (first + second) + third);
    let k = first.len() as int;
    assert(steps[k] == second[0]);
    assert(steps[k + 1] == second[1]);
}

/// Whether a message's content holds a tool's result.
pub open spec fn holds_result(content: JsonModel) -> bool {
    content is Array && exists|i: int|
        0 <= i < content->Array_0.len() && field(#[trigger] content->Array_0[i], "type"@) == Some(
            JsonModel::Str("tool_result"@),
        )
}

/// Whether an entry is a message that a user wrote: no result of a tool and no notification.
pub open spec fn is_written(obj: JsonModel, uuid: Seq<char>) -> bool {
    let content = content_of_entry(obj);
    &&& field(obj, "type"@) == Some(JsonModel::Str("user"@))
    &&& field(obj, "uuid"@) == Some(JsonModel::Str(uuid))
    &&& uuid.len() > 0
    &&& !holds_result(content)
    &&& content is Str ==> !starts(trimmed_start(content->Str_0), "<task-notification>"@)
}

proof fn lemma_written_steps(s: ParseModel, obj: JsonModel, uuid: Seq<char>)
    requires
        is_written(obj, uuid),
    ensures
        entry_steps(s, obj) == user_steps(s, obj, content_of_entry(obj), uuid),
{
    lemma_entry_words();
    let content = content_of_entry(obj);
    if content is Array {
        let blocks = content->Array_0;
        assert forall|i: int| 0 <= i < blocks.len() implies str_field(
            #[trigger] blocks[i],
            "type"@,
        ) != Some("tool_result"@) by {
            assert(field(blocks[i], "type"@) != Some(JsonModel::Str("tool_result"@)));
        }
    }
}

/// A message that a user wrote is one node at the top, or takes the place of the one that its uuid
/// had. Its text is the text of its content, or what the elements at its start stand for. It is
/// hidden exactly where the entry says that the user did not write it, and marked as a summary
/// exactly where the entry before it marked a compaction.
pub proof fn law_user_message(s: ParseModel, obj: JsonModel, uuid: Seq<char>)
    requires
        is_written(obj, uuid),
    ensures
        ({
            let (after, steps) = entry_steps(s, obj);
            let raw = content_text(content_of_entry(obj), None);
            let parent = str_field(obj, "parentUuid"@);
            let summary = parent is Some && s.compact.contains(parent->0);
            let id = s.id_prefix + "user_msg:"@ + uuid;
            let node = match steps[0] {
                StepModel::Op(OpModel::Append { message, .. }) => message,
                StepModel::Op(OpModel::Replace { message, .. }) => message,
                _ => arbitrary(),
            };
            &&& after == (ParseModel { seen_uuids: s.seen_uuids.insert(uuid), ..s })
            &&& steps.len() == 1
            &&& !s.seen_uuids.contains(uuid) ==> appends(steps[0])
            &&& s.seen_uuids.contains(uuid) ==> (steps[0] matches StepModel::Op(
                OpModel::Replace { id: place, .. },
            ) && place == id)
            &&& node.id == id
            &&& node.message_type is UserMessage
            &&& xml_shown(raw) is None ==> node.text == Some(raw)
            &&& xml_shown(raw) is Some ==> node.text == Some((xml_shown(raw)->0).0)
            &&& node.hidden is Hidden <==> field(obj, "isMeta"@) == Some(JsonModel::Bool(true))
            &&& node.hidden is NotHidden <==> field(obj, "isMeta"@) != Some(JsonModel::Bool(true))
            &&& !node.expanded && !node.show_more && !node.group && !node.is_terminal
            &&& !node.indent_children && node.ui_state is None
            &&& summary ==> node.tag == Some("summary"@) && node.brief == Some(
                "[Conversation summary]"@,
            )
            &&& !summary ==> node.brief is None
            &&& !summary && xml_shown(raw) is None ==> node.tag is None
            &&& !summary && xml_shown(raw) is Some ==> node.tag == Some((xml_shown(raw)->0).1)
            &&& node.data == compact(obj)
            &&& node.props is None && node.timestamp is None && node.children.len() == 0
        }),
{
    lemma_written_steps(s, obj, uuid);
}

/// Whether an entry is a notification that a task has ended.
pub open spec fn notifies(obj: JsonModel, uuid: Seq<char>, text: Seq<char>) -> bool {
    &&& field(obj, "type"@) == Some(JsonModel::Str("user"@))
    &&& field(obj, "uuid"@) == Some(JsonModel::Str(uuid))
    &&& uuid.len() > 0
    &&& content_of_entry(obj) == JsonModel::Str(text)
    &&& starts(trimmed_start(text), "<task-notification>"@)
}

/// A notification that a task has ended shows its summary as the user's message. Where it carries a
/// result and the id of the call, the result takes the place of the call's summary; where it does
/// not, nothing else happens.
pub proof fn law_notification(s: ParseModel, obj: JsonModel, uuid: Seq<char>, text: Seq<char>)
    requires
        notifies(obj, uuid, text),
    ensures
        ({
            let (after, steps) = entry_steps(s, obj);
            let summary = if tag_text(text, "summary"@) is Some {
                tag_text(text, "summary"@)->0
            } else {
                "Agent task completed"@
            };
            let result = tag_text(text, "result"@);
            let tool = tag_text(text, "tool-use-id"@);
            let (same, shown) = user_steps(s, obj, JsonModel::Str(summary), uuid);
            &&& after == same
            &&& shown.len() == 1 && steps.len() >= 1 && steps[0] == shown[0]
            &&& result is None || tool is None ==> steps.len() == 1
            &&& result is Some && tool is Some ==> steps.len() == 2 && (
            steps[1] matches StepModel::Op(OpModel::Replace { id, message: node }) && {
                &&& id == s.id_prefix + "task_summary:"@ + tool->0
                &&& node.id == id
                &&& node.message_type is TaskSummary
                &&& node.text == Some(result->0)
                &&& node.data == compact(obj)
                &&& node.tag is None
                &&& is_bare(node)
            })
        }),
{
    lemma_entry_words();
}

/// A user's entry without a uuid does nothing, unless it carries a tool's result.
pub proof fn law_user_without_uuid(s: ParseModel, obj: JsonModel)
    requires
        field(obj, "type"@) == Some(JsonModel::Str("user"@)),
        str_field(obj, "uuid"@) is None || str_field(obj, "uuid"@)->0.len() == 0,
        !holds_result(content_of_entry(obj)),
    ensures
        entry_steps(s, obj) == (s, Seq::<StepModel>::empty()),
{
    lemma_entry_words();
    reveal_strlit("");
    assert(""@.len() == 0);
    let content = content_of_entry(obj);
    if content is Array {
        let blocks = content->Array_0;
        assert forall|i: int| 0 <= i < blocks.len() implies str_field(
            #[trigger] blocks[i],
            "type"@,
        ) != Some("tool_result"@) by {
            assert(field(blocks[i], "type"@) != Some(JsonModel::Str("tool_result"@)));
        }
    }
}

/// An assistant's entry does what the blocks of its message do, under the message's id; one whose
/// message has no id does nothing.
pub proof fn law_assistant_entry(s: ParseModel, obj: JsonModel)
    requires
        field(obj, "type"@) == Some(JsonModel::Str("assistant"@)),
    ensures
        ({
            let msg = field(obj, "message"@);
            let id = str_field(msg->0, "id"@);
            let uuid = str_field(obj, "uuid"@);
            let s1 = if uuid is Some && uuid->0.len() > 0 {
                ParseModel { seen_uuids: s.seen_uuids.insert(uuid->0), ..s }
            } else {
                s
            };
            &&& msg is None || id is None || id->0.len() == 0 ==> entry_steps(s, obj) == (
                s,
                Seq::<StepModel>::empty(),
            )
            &&& msg is Some && id is Some && id->0.len() > 0 && items_field(
                msg->0,
                "content"@,
            ) is Some ==> entry_steps(s, obj) == blocks_steps(
                s1,
                id->0,
                items_field(msg->0, "content"@)->0,
            )
            &&& msg is Some && id is Some && id->0.len() > 0 && items_field(
                msg->0,
                "content"@,
            ) is None ==> entry_steps(s, obj) == (s1, Seq::<StepModel>::empty())
        }),
{
    lemma_entry_words();
    reveal_strlit("");
    assert(""@.len() == 0);
}

/// The blocks of a message are taken one after the other, each in the state that those before it
/// left and by its place in the message.
pub proof fn law_blocks_in_order(
    s: ParseModel,
    msg_id: Seq<char>,
    blocks: Seq<JsonModel>,
    block: JsonModel,
)
    ensures
        blocks_steps(s, msg_id, Seq::empty()) == (s, Seq::<StepModel>::empty()),
        ({
            let (s1, before) = blocks_steps(s, msg_id, blocks);
            let (s2, last) = block_steps(s1, msg_id, blocks.len(), block);
            blocks_steps(s, msg_id, blocks.push(block)) == (s2, before + last)
        }),
{
    assert(blocks.push(block).drop_last() =~= blocks);
}

/// The node that a step puts into the tree.
pub open spec fn node_of(step: StepModel) -> MessageModel {
    match step {
        StepModel::Op(OpModel::Append { message, .. }) => message,
        StepModel::Op(OpModel::Replace { message, .. }) => message,
        StepModel::Op(OpModel::Update { message, .. }) => message,
        _ => arbitrary(),
    }
}

/// A text block is a node that holds exactly its text, and a thinking block one that holds exactly
/// what was thought; each is known by its message and its place in it.
pub proof fn law_text_and_thinking(s: ParseModel, msg_id: Seq<char>, idx: nat, text: Seq<char>)
    ensures
        forall|block: JsonModel|
            field(block, "type"@) == Some(JsonModel::Str("text"@)) && field(block, "text"@) == Some(
                JsonModel::Str(text),
            ) ==> ({
                let (after, steps) = #[trigger] block_steps(s, msg_id, idx, block);
                let node = node_of(steps[0]);
                &&& steps.len() == 1
                &&& node.text == Some(text)
                &&& node.message_type is AgentMessage
                &&& node.id == s.id_prefix + "text:"@ + msg_id + ":"@ + decimal(idx)
                &&& node.data == compact(block)
                &&& node.tag is None && node.props is None && !node.indent_children && is_bare(node)
                &&& s.seen_block_ids.contains(node.id) ==> replaces(steps[0])
                &&& !s.seen_block_ids.contains(node.id) ==> appends(steps[0])
                &&& after == (ParseModel {
                    seen_block_ids: s.seen_block_ids.insert(node.id),
                    ..s
                })
            }),
        forall|block: JsonModel|
            field(block, "type"@) == Some(JsonModel::Str("thinking"@)) && field(block, "thinking"@)
                == Some(JsonModel::Str(text)) ==> ({
                let (after, steps) = #[trigger] block_steps(s, msg_id, idx, block);
                let node = node_of(steps[0]);
                &&& steps.len() == 1
                &&& node.text == Some(text)
                &&& node.message_type is Thinking
                &&& node.id == s.id_prefix + "thinking:"@ + msg_id + ":"@ + decimal(idx)
                &&& node.data == compact(block)
                &&& node.tag is None && node.props is None && !node.indent_children && is_bare(node)
                &&& s.seen_block_ids.contains(node.id) ==> replaces(steps[0])
                &&& !s.seen_block_ids.contains(node.id) ==> appends(steps[0])
                &&& after == (ParseModel {
                    seen_block_ids: s.seen_block_ids.insert(node.id),
                    ..s
                })
            }),
{
    lemma_block_words();
}

/// A call of a tool is a node that shows the tool's name and holds its input, and waits for its
/// result. A call of the agent tool tells its description too.
pub proof fn law_tool_call(
    s: ParseModel,
    msg_id: Seq<char>,
    idx: nat,
    block: JsonModel,
    tool: Seq<char>,
    name: Seq<char>,
)
    requires
        field(block, "type"@) == Some(JsonModel::Str("tool_use"@)),
        field(block, "id"@) == Some(JsonModel::Str(tool)),
        field(block, "name"@) == Some(JsonModel::Str(name)),
        tool.len() > 0,
    ensures
        ({
            let (after, steps) = block_steps(s, msg_id, idx, block);
            let node = node_of(steps[0]);
            let input = field(block, "input"@);
            &&& node.id == s.id_prefix + "tool_call:"@ + tool
            &&& node.text == Some(name)
            &&& node.message_type is ToolCall
            &&& node.data == compact(block)
            &&& input is Some && !(input->0 is Null) ==> node.props == input
            &&& input is None || input->0 is Null ==> node.props is None
            &&& node.tag is None && !node.indent_children && is_bare(node)
            &&& s.seen_block_ids.contains(node.id) ==> replaces(steps[0])
            &&& !s.seen_block_ids.contains(node.id) ==> appends(steps[0])
            &&& after == (ParseModel {
                seen_block_ids: s.seen_block_ids.insert(node.id),
                pending: s.pending.insert(tool, block),
                ..s
            })
            &&& name != "Agent"@ ==> steps.len() == 1
            &&& name == "Agent"@ ==> steps.len() == 2 && (steps[1] matches StepModel::AgentTool {
                tool_use_id,
                value,
                is_result,
            } && {
                &&& tool_use_id == tool
                &&& !is_result
                &&& input is Some && str_field(input->0, "description"@) is Some ==> value
                    == str_field(input->0, "description"@)->0
            })
        }),
{
    lemma_block_words();
}

/// A block of another type does nothing.
pub proof fn law_other_blocks(s: ParseModel, msg_id: Seq<char>, idx: nat, block: JsonModel)
    requires
        str_field(block, "type"@) != Some("text"@),
        str_field(block, "type"@) != Some("thinking"@),
        str_field(block, "type"@) != Some("tool_use"@),
    ensures
        block_steps(s, msg_id, idx, block) == (s, Seq::<StepModel>::empty()),
{
    lemma_block_words();
}

/// A summary entry is a node at the top that holds the summary; one without a uuid does nothing.
/// A mark of a compaction is remembered by its uuid and shows nothing.
pub proof fn law_summaries_and_compactions(s: ParseModel, obj: JsonModel, uuid: Seq<char>)
    requires
        field(obj, "uuid"@) == Some(JsonModel::Str(uuid)),
    ensures
        field(obj, "type"@) == Some(JsonModel::Str("summary"@)) && uuid.len() > 0 ==> ({
            let (after, steps) = entry_steps(s, obj);
            let node = node_of(steps[0]);
            &&& after == s
            &&& steps.len() == 1 && appends(steps[0])
            &&& node.id == s.id_prefix + "task_summary:"@ + uuid
            &&& node.message_type is TaskSummary
            &&& str_field(obj, "summary"@) is Some ==> node.text == str_field(obj, "summary"@)
            &&& str_field(obj, "summary"@) is None ==> node.text == Some(""@)
            &&& node.data == compact(obj)
            &&& node.tag is None && node.props is None && !node.indent_children && is_bare(node)
        }),
        field(obj, "type"@) == Some(JsonModel::Str("summary"@)) && uuid.len() == 0 ==> entry_steps(
            s,
            obj,
        ) == (s, Seq::<StepModel>::empty()),
        field(obj, "type"@) == Some(JsonModel::Str("system"@)) && field(obj, "subtype"@) == Some(
            JsonModel::Str("compact_boundary"@),
        ) ==> entry_steps(s, obj) == (
            (ParseModel { compact: s.compact.insert(uuid), ..s }),
            Seq::<StepModel>::empty(),
        ),
        field(obj, "type"@) == Some(JsonModel::Str("system"@)) && str_field(obj, "subtype"@)
            != Some("compact_boundary"@) ==> entry_steps(s, obj) == (s, Seq::<StepModel>::empty()),
{
    lemma_entry_words();
}

/// An attachment is a node of its label, among the user's messages, or takes the place of the one
/// that its uuid had.
pub proof fn law_attachment(s: ParseModel, obj: JsonModel, uuid: Seq<char>, att: JsonModel)
    requires
        field(obj, "type"@) == Some(JsonModel::Str("attachment"@)),
        field(obj, "uuid"@) == Some(JsonModel::Str(uuid)),
        field(obj, "attachment"@) == Some(att),
    ensures
        uuid.len() == 0 ==> entry_steps(s, obj) == (s, Seq::<StepModel>::empty()),
        uuid.len() > 0 ==> ({
            let (after, steps) = entry_steps(s, obj);
            let node = node_of(steps[0]);
            &&& after == (ParseModel { seen_uuids: s.seen_uuids.insert(uuid), ..s })
            &&& steps.len() == 1
            &&& s.seen_uuids.contains(uuid) ==> replaces(steps[0])
            &&& !s.seen_uuids.contains(uuid) ==> appends(steps[0])
            &&& node.id == s.id_prefix + "attachment:"@ + uuid
            &&& node.message_type is UserMessage
            &&& node.tag == Some("attachment"@)
            &&& node.text == Some(label(att))
            &&& node.data == compact(obj)
            &&& node.props is None && !node.indent_children && is_bare(node)
        }),
{
    lemma_entry_words();
}

/// Whether an attachment is of a kind.
pub open spec fn attaches(att: JsonModel, kind: Seq<char>) -> bool {
    field(att, "type"@) == Some(JsonModel::Str(kind))
}

/// A header, and below it a content that is there and not empty.
pub open spec fn with_content(shown: Seq<char>, header: Seq<char>, content: Option<Seq<char>>) -> bool {
    &&& content is None ==> shown == header
    &&& content is Some && content->0.len() == 0 ==> shown == header
    &&& content is Some && content->0.len() > 0 ==> shown == header + "\n"@ + content->0
}

/// A file's attachment shows its path and, where it is carried along, its content; an edited file
/// what was edited; a directory what it holds.
pub proof fn law_labels_of_files(att: JsonModel, path: Seq<char>)
    requires
        field(att, "displayPath"@) == Some(JsonModel::Str(path)),
    ensures
        attaches(att, "file"@) || attaches(att, "already_read_file"@) ==> with_content(
            label(att),
            "[File: "@ + path + "]"@,
            str_field(at(at(att, "content"@), "file"@), "content"@),
        ),
        attaches(att, "compact_file_reference"@) ==> label(att) == "[File: "@ + path + "]"@,
        attaches(att, "edited_text_file"@) ==> with_content(
            label(att),
            "[File: "@ + path + " (edited)]"@,
            str_field(att, "snippet"@),
        ),
        attaches(att, "directory"@) ==> with_content(
            label(att),
            "[Directory: "@ + path + "]"@,
            str_field(att, "content"@),
        ),
{
    lemma_attachment_words();
}

/// The path of an attachment is the one it is to be shown with; else the file name in the member
/// that holds its path, and else that member's name.
pub proof fn law_paths_of_attachments(att: JsonModel, member: Seq<char>)
    ensures
        str_field(att, "displayPath"@) is Some ==> display_path(att, member) == str_field(
            att,
            "displayPath"@,
        )->0,
        str_field(att, "displayPath"@) is None && str_field(att, member) is Some ==> display_path(
            att,
            member,
        ) == split_at_char(str_field(att, member)->0, '/').last(),
        str_field(att, "displayPath"@) is None && str_field(att, member) is None ==> display_path(
            att,
            member,
        ) == member,
{
}

/// The labels of the other attachments.
pub proof fn law_other_labels(att: JsonModel)
    ensures
        attaches(att, "skill_listing"@) ==> with_content(
            label(att),
            "[Skill listing: "@ + decimal(count(att, "skillCount"@)) + " skills]"@,
            str_field(att, "content"@),
        ),
        attaches(att, "command_permissions"@) ==> label(att) == "[Command permissions]"@,
        attaches(att, "task_reminder"@) ==> label(att) == "[Task reminder: "@ + decimal(
            count(att, "itemCount"@),
        ) + " tasks]"@,
        attaches(att, "queued_command"@) && str_field(att, "prompt"@) is Some && lines_of(
            str_field(att, "prompt"@)->0,
        ).len() > 0 ==> label(att) == "[Queued: "@ + lines_of(str_field(att, "prompt"@)->0)[0]
            + "]"@,
        attaches(att, "queued_command"@) && str_field(att, "prompt"@) is None ==> label(att)
            == "[Queued: "@ + "command"@ + "]"@,
        attaches(att, "date_change"@) && str_field(att, "newDate"@) is Some ==> label(att)
            == "[Date: "@ + str_field(att, "newDate"@)->0 + "]"@,
        attaches(att, "date_change"@) && str_field(att, "newDate"@) is None ==> label(att)
            == "[Date: "@ + "?"@ + "]"@,
        attaches(att, "deferred_tools_delta"@) && items_field(att, "addedNames"@) is None ==> label(
            att,
        ) == "[Tools loaded]"@,
        attaches(att, "invoked_skills"@) && items_field(att, "skills"@) is None ==> label(att)
            == "[Invoked skills]"@,
{
    lemma_attachment_words();
}

/// Tools and skills are named in order, five of them at most, and where none is named the label
/// says only that there are some.
pub proof fn law_named_labels(att: JsonModel, items: Seq<JsonModel>)
    ensures
        attaches(att, "deferred_tools_delta"@) && items_field(att, "addedNames"@) == Some(items)
            ==> ({
            let names = names_in(items, None);
            &&& names.len() == 0 ==> label(att) == "[Tools loaded]"@
            &&& 0 < names.len() <= 5 ==> label(att) == "[Tools: +"@ + joined(names, ", +"@) + "]"@
            &&& names.len() > 5 ==> label(att) == "[Tools: +"@ + joined(names.take(5), ", +"@)
                + "]"@
        }),
        attaches(att, "invoked_skills"@) && items_field(att, "skills"@) == Some(items) ==> ({
            let names = names_in(items, Some("name"@));
            &&& names.len() == 0 ==> label(att) == "[Invoked skills]"@
            &&& 0 < names.len() <= 5 ==> label(att) == "[Skills: "@ + joined(names, ", "@) + "]"@
            &&& names.len() > 5 ==> label(att) == "[Skills: "@ + joined(names.take(5), ", "@) + "]"@
        }),
{
    lemma_attachment_words();
}

/// An attachment of an unknown kind is shown by its kind.
pub proof fn law_unknown_attachment(att: JsonModel, kind: Seq<char>)
    requires
        attaches(att, kind),
        !seq![
            "file"@,
            "already_read_file"@,
            "compact_file_reference"@,
            "edited_text_file"@,
            "directory"@,
            "skill_listing"@,
            "deferred_tools_delta"@,
            "command_permissions"@,
            "task_reminder"@,
            "queued_command"@,
            "invoked_skills"@,
            "date_change"@,
        ].contains(kind),
    ensures
        label(att) == "["@ + kind + "]"@,
{
    let known = seq![
        "file"@,
        "already_read_file"@,
        "compact_file_reference"@,
        "edited_text_file"@,
        "directory"@,
        "skill_listing"@,
        "deferred_tools_delta"@,
        "command_permissions"@,
        "task_reminder"@,
        "queued_command"@,
        "invoked_skills"@,
        "date_change"@,
    ];
    assert(known[0] == "file"@);
    assert(known[1] == "already_read_file"@);
    assert(known[2] == "compact_file_reference"@);
    assert(known[3] == "edited_text_file"@);
    assert(known[4] == "directory"@);
    assert(known[5] == "skill_listing"@);
    assert(known[6] == "deferred_tools_delta"@);
    assert(known[7] == "command_permissions"@);
    assert(known[8] == "task_reminder"@);
    assert(known[9] == "queued_command"@);
    assert(known[10] == "invoked_skills"@);
    assert(known[11] == "date_change"@);
    assert forall|i: int| 0 <= i < known.len() implies kind != #[trigger] known[i] by {
        assert(known.contains(known[i]));
    }
}

/// The names in a list are those of its items that have one, in order.
pub proof fn law_names_in_order(items: Seq<JsonModel>, item: JsonModel, key: Option<Seq<char>>)
    ensures
        names_in(Seq::empty(), key) == Seq::<Seq<char>>::empty(),
        key is None ==> match item {
            JsonModel::Str(name) => names_in(items.push(item), key) == names_in(items, key).push(
                name,
            ),
            _ => names_in(items.push(item), key) == names_in(items, key),
        },
        key is Some ==> match field(item, key->0) {
            Some(JsonModel::Str(name)) => names_in(items.push(item), key) == names_in(
                items,
                key,
            ).push(name),
            _ => names_in(items.push(item), key) == names_in(items, key),
        },
{
    assert(items.push(item).drop_last() =~= items);
}

/// The text of a content is a string as it is, or the texts of the text blocks of a list, one on
/// each line; other blocks, and other contents, have none.
pub proof fn law_content_text(content: JsonModel, items: Seq<JsonModel>, item: JsonModel)
    ensures
        content is Str ==> content_text(content, None) == content->Str_0,
        content is Array ==> content_text(content, None) == joined(
            block_texts(content->Array_0, None),
            "\n"@,
        ),
        !(content is Str) && !(content is Array) ==> content_text(content, None).len() == 0,
        block_texts(Seq::empty(), None) == Seq::<Seq<char>>::empty(),
        str_field(item, "type"@) == Some("text"@) && str_field(item, "text"@) is Some
            ==> block_texts(items.push(item), None) == block_texts(items, None).push(
            str_field(item, "text"@)->0,
        ),
        str_field(item, "type"@) != Some("text"@) || str_field(item, "text"@) is None
            ==> block_texts(items.push(item), None) == block_texts(items, None),
{
    assert(items.push(item).drop_last() =~= items);
}

/// The text of a tool's result begins as its content does: a string of which the first characters
/// are kept, or text blocks of each of which they are.
pub proof fn law_result_text(
    content: JsonModel,
    items: Seq<JsonModel>,
    item: JsonModel,
    limit: nat,
)
    ensures
        content is Str && content->Str_0.len() <= limit ==> content_text(content, Some(limit))
            == content->Str_0,
        content is Str && content->Str_0.len() > limit ==> content_text(content, Some(limit))
            == content->Str_0.subrange(0, limit as int),
        content is Array ==> content_text(content, Some(limit)) == joined(
            block_texts(content->Array_0, Some(limit)),
            "\n"@,
        ),
        !(content is Str) && !(content is Array) ==> content_text(content, Some(limit)).len() == 0,
        block_texts(Seq::empty(), Some(limit)) == Seq::<Seq<char>>::empty(),
        str_field(item, "type"@) == Some("text"@) && str_field(item, "text"@) is Some
            ==> block_texts(items.push(item), Some(limit)) == block_texts(items, Some(limit)).push(
            if str_field(item, "text"@)->0.len() <= limit {
                str_field(item, "text"@)->0
            } else {
                str_field(item, "text"@)->0.subrange(0, limit as int)
            },
        ),
        str_field(item, "type"@) != Some("text"@) || str_field(item, "text"@) is None
            ==> block_texts(items.push(item), Some(limit)) == block_texts(items, Some(limit)),
{
    assert(items.push(item).drop_last() =~= items);
}

/// Of the steps, the changes of the tree are kept, in order.
pub proof fn law_changes_in_order(steps: Seq<StepModel>, op: OpModel, other: StepModel)
    requires
        other is AgentTool,
    ensures
        ops_among(Seq::empty()) == Seq::<OpModel>::empty(),
        ops_among(steps.push(StepModel::Op(op))) == ops_among(steps).push(op),
        ops_among(steps.push(other)) == ops_among(steps),
{
    assert(steps.push(StepModel::Op(op)).drop_last() =~= steps);
    assert(steps.push(other).drop_last() =~= steps);
}

/// A member that is missing counts as null; a flag is set by `true` alone; a count is a number that
/// is not negative, and 0 where there is none.
pub proof fn law_members(m: JsonModel, key: Seq<char>)
    ensures
        field(m, key) is Some ==> at(m, key) == field(m, key)->0,
        field(m, key) is None ==> at(m, key) is Null,
        flag(m, key) <==> field(m, key) == Some(JsonModel::Bool(true)),
        field(m, key) is Some && field(m, key)->0 is Unsigned ==> count(m, key) == field(
            m,
            key,
        )->0->Unsigned_0,
        field(m, key) is Some && field(m, key)->0 is Bool ==> count(m, key) == 0,
        field(m, key) is None ==> count(m, key) == 0,
        str_field(m, key) is Some ==> count(m, key) == 0,
{
}

proof fn lemma_bracket(name: Seq<char>, rest: Seq<char>)
    requires
        !name.contains('>'),
    ensures
        opening(name).len() == name.len() + 2,
        (opening(name) + rest)[0] == '<',
        next_char(opening(name) + rest, '>', 1) == opening(name).len() - 1,
        (opening(name) + rest).subrange(1, opening(name).len() - 1) == name,
{
    law_tags(name);
    let open = opening(name);
    let all = open + rest;
    let last: int = open.len() - 1;
    assert(all[0] == open[0]);
    assert(all[last] == open[last]);
    assert forall|j: int| 1 <= j < last implies all[j] != '>' by {
        assert(all[j] == open[j]);
        assert(open[j] == name[j - 1]);
        assert(name.contains(name[j - 1]));
    }
    lemma_next_char(all, '>', 1);
    assert(all.subrange(1, last) =~= name);
}

proof fn lemma_four_parts(a: Seq<char>, b: Seq<char>, c: Seq<char>, d: Seq<char>)
    ensures
        ({
            let all = a + b + c + d;
            let end: int = a.len() as int + b.len();
            &&& all == a + (b + c + d)
            &&& all.len() == a.len() + b.len() + c.len() + d.len()
            &&& all.subrange(a.len() as int, end) == b
            &&& all.subrange(end, end + c.len()) == c
            &&& all.skip(end + c.len()) == d
        }),
{
    let all = a + b + c + d;
    let end: int = a.len() as int + b.len();
    assert(all =~= a + (b + c + d));
    assert(all.subrange(a.len() as int, end) =~= b);
    assert(all.subrange(end, end + c.len()) =~= c);
    assert(all.skip(end + c.len()) =~= d);
}

/// An element at the start of a text is taken by its name, with its content trimmed, and what is
/// behind it is left.
pub proof fn law_one_element(name: Seq<char>, inner: Seq<char>, rest: Seq<char>)
    requires
        plain_name(name),
        !name.contains('>'),
        first_at(
            opening(name) + inner + closing(name) + rest,
            closing(name),
            opening(name).len() as int,
        ) == Some(opening(name).len() + inner.len() as int),
    ensures
        one_tag(opening(name) + inner + closing(name) + rest) == Some(
            (name, trimmed(inner), rest),
        ),
{
    let open = opening(name);
    let close = closing(name);
    lemma_four_parts(open, inner, close, rest);
    lemma_bracket(name, inner + close + rest);
}

/// Before any entry nothing was parsed, no call waits, no compaction was marked, and ids have no
/// prefix.
pub proof fn law_before_any_entry(id: Seq<char>)
    ensures
        !empty_state().seen_uuids.contains(id),
        !empty_state().seen_block_ids.contains(id),
        !empty_state().pending.contains_key(id),
        !empty_state().compact.contains(id),
        empty_state().id_prefix.len() == 0,
{
}

/// A block that lacks a part is shown without it: a call without a name by a question mark, a text
/// that is missing as an empty one. A call without an id is shown and not waited for.
pub proof fn law_incomplete_blocks(s: ParseModel, msg_id: Seq<char>, idx: nat, block: JsonModel)
    ensures
        ({
            let (after, steps) = block_steps(s, msg_id, idx, block);
            let node = node_of(steps[0]);
            let kind = str_field(block, "type"@);
            let tool = str_field(block, "id"@);
            &&& kind == Some("tool_use"@) && str_field(block, "name"@) is None ==> steps.len() == 1
                && node.text == Some("?"@) && node.message_type is ToolCall
            &&& kind == Some("tool_use"@) && (tool is None || tool->0.len() == 0) ==> {
                &&& steps.len() == 1 && node.message_type is ToolCall
                &&& node.id == s.id_prefix + "tool_call:"@
                &&& after == (ParseModel {
                    seen_block_ids: s.seen_block_ids.insert(node.id),
                    ..s
                })
            }
            &&& kind == Some("text"@) && str_field(block, "text"@) is None ==> steps.len() == 1
                && node.text == Some(Seq::<char>::empty()) && node.message_type is AgentMessage
            &&& kind == Some("thinking"@) && str_field(block, "thinking"@) is None ==> steps.len()
                == 1 && node.text == Some(Seq::<char>::empty()) && node.message_type is Thinking
        }),
{
    lemma_block_words();
    reveal_strlit("");
    assert(""@ =~= Seq::<char>::empty());
    assert(s.id_prefix + "tool_call:"@ + ""@ =~= s.id_prefix + "tool_call:"@);
    let tool = str_field(block, "id"@);
    if tool is Some && tool->0.len() == 0 {
        assert(tool->0 =~= ""@);
    }
}

/// A call of the agent tool that does not describe its task tells an empty description, and its
/// result is shown with one.
pub proof fn law_undescribed_agents(
    s: ParseModel,
    msg_id: Seq<char>,
    idx: nat,
    call: JsonModel,
    entry: JsonModel,
    block: JsonModel,
    tool: Seq<char>,
)
    requires
        field(call, "type"@) == Some(JsonModel::Str("tool_use"@)),
        field(call, "id"@) == Some(JsonModel::Str(tool)),
        field(call, "name"@) == Some(JsonModel::Str("Agent"@)),
        field(call, "input"@) is None || str_field(field(call, "input"@)->0, "description"@) is None,
        answers(block_steps(s, msg_id, idx, call).0, block, tool),
        of_agent(entry),
    ensures
        ({
            let (s1, steps) = block_steps(s, msg_id, idx, call);
            &&& steps.len() == 2
            &&& steps[1] == (StepModel::AgentTool {
                tool_use_id: tool,
                value: Seq::empty(),
                is_result: false,
            })
            &&& result_steps(s1, entry, block).1[1] matches StepModel::Op(
                OpModel::Update { message: node, .. },
            ) && node.text == Some("Agent"@ + "("@ + ")"@) && node.props is None
        }),
{
    lemma_block_words();
    reveal_strlit("");
    assert(""@ =~= Seq::<char>::empty());
    assert("Agent"@ + "("@ + ""@ + ")"@ =~= "Agent"@ + "("@ + ")"@);
}

} // verus!
