//! What holds of the messages of a session.
use crate::claude::laws::is_bare;
use crate::claude::message::content_text;
use crate::cursor::message::{
    args_props, background_id, blob_ops, block_ops, blocks_ops, drop_words, empty_state, first_call,
    known_id,
    link_steps, message_ops, number_text, pending_ops, result_ops, results_ops, short_id, step_node,
    step_nodes, step_tag, task_children, task_failed, task_result_text, user_text, without_timestamp,
    ParseModel, TaskModel,
};
use crate::cursor::notification::{notice, NotificationModel};
use crate::cursor::timestamp::timestamp_of;
use crate::json::{compact, field, items_field, json_parsed, str_field, JsonModel};
use crate::text::{capitalized, decimal, ends, holds_text, signed_decimal, starts, trimmed};
use crate::claude::xml::{closing, opening, tag_text};
use crate::tree::{MessageModel, OpModel};
use vstd::prelude::*;

verus! {

proof fn lemma_roles()
    ensures
        "system"@ != "user"@,
        "system"@ != "assistant"@,
        "system"@ != "tool"@,
        "system"@ != ""@,
        "user"@ != "assistant"@,
        "user"@ != "tool"@,
        "user"@ != ""@,
        "assistant"@ != "tool"@,
        "assistant"@ != ""@,
        "tool"@ != ""@,
{
    reveal_strlit("system");
    reveal_strlit("user");
    reveal_strlit("assistant");
    reveal_strlit("tool");
    reveal_strlit("");
    assert("system"@.len() == 6);
    assert("user"@.len() == 4);
    assert("assistant"@.len() == 9);
    assert("tool"@.len() == 4);
    assert(""@.len() == 0);
    assert("user"@[0] != "tool"@[0]);
}

proof fn lemma_block_words()
    ensures
        "reasoning"@ != "redacted-reasoning"@,
        "reasoning"@ != "text"@,
        "reasoning"@ != "tool-call"@,
        "reasoning"@ != ""@,
        "redacted-reasoning"@ != "text"@,
        "redacted-reasoning"@ != "tool-call"@,
        "redacted-reasoning"@ != ""@,
        "text"@ != "tool-call"@,
        "text"@ != ""@,
        "tool-call"@ != ""@,
{
    reveal_strlit("reasoning");
    reveal_strlit("redacted-reasoning");
    reveal_strlit("text");
    reveal_strlit("tool-call");
    reveal_strlit("");
    assert("reasoning"@.len() == 9);
    assert("redacted-reasoning"@.len() == 18);
    assert("text"@.len() == 4);
    assert("tool-call"@.len() == 9);
    assert(""@.len() == 0);
    assert("reasoning"@[0] != "tool-call"@[0]);
}

/// The node that a change puts into the tree.
pub open spec fn node_of(op: OpModel) -> MessageModel {
    match op {
        OpModel::Append { message, .. } => message,
        OpModel::Replace { message, .. } => message,
        OpModel::Update { message, .. } => message,
        OpModel::Remove { .. } => arbitrary(),
    }
}

/// Whether a change adds a node at the top.
pub open spec fn on_top(op: OpModel) -> bool {
    op is Append && op->parent_id is None
}

/// The member of a member of an object, as far as they are there.
pub open spec fn within(m: JsonModel, keys: Seq<Seq<char>>) -> Option<JsonModel>
    decreases keys.len(),
{
    if keys.len() == 0 {
        Some(m)
    } else {
        match field(m, keys[0]) {
            Some(v) => within(v, keys.skip(1)),
            None => None,
        }
    }
}

/// Whether a value is there and not null.
pub open spec fn is_given(v: Option<JsonModel>) -> bool {
    v is Some && !(v->0 is Null)
}

/// An assistant's message does what its blocks do, a tool's message what its results do; the one of
/// another role does nothing.
pub proof fn law_messages_by_role(s: ParseModel, obj: JsonModel, hex: Seq<char>)
    ensures
        field(obj, "role"@) == Some(JsonModel::Str("assistant"@)) && items_field(
            obj,
            "content"@,
        ) is Some ==> message_ops(s, obj, hex) == blocks_ops(
            s,
            hex,
            items_field(obj, "content"@)->0,
        ),
        field(obj, "role"@) == Some(JsonModel::Str("tool"@)) && items_field(
            obj,
            "content"@,
        ) is Some ==> message_ops(s, obj, hex) == results_ops(
            s,
            obj,
            items_field(obj, "content"@)->0,
        ),
        (field(obj, "role"@) == Some(JsonModel::Str("tool"@)) || field(obj, "role"@) == Some(
            JsonModel::Str("assistant"@),
        )) && items_field(obj, "content"@) is None ==> message_ops(s, obj, hex) == (
            s,
            Seq::<OpModel>::empty(),
        ),
        str_field(obj, "role"@) != Some("system"@) && str_field(obj, "role"@) != Some("user"@)
            && str_field(obj, "role"@) != Some("assistant"@) && str_field(obj, "role"@) != Some(
            "tool"@,
        ) ==> message_ops(s, obj, hex) == (s, Seq::<OpModel>::empty()),
{
    lemma_roles();
}

/// The prompt of the system is one node at the top that holds its whole text, and in short only says
/// what it is.
pub proof fn law_system_prompt(s: ParseModel, obj: JsonModel, hex: Seq<char>, content: JsonModel)
    requires
        field(obj, "role"@) == Some(JsonModel::Str("system"@)),
        field(obj, "content"@) == Some(content),
    ensures
        ({
            let (after, ops) = message_ops(s, obj, hex);
            let node = node_of(ops[0]);
            &&& after == s
            &&& ops.len() == 1 && on_top(ops[0])
            &&& node.id == "system:"@ + hex
            &&& node.text == Some(content_text(content, None))
            &&& node.brief == Some("[System prompt]"@)
            &&& node.message_type is System
            &&& node.data == compact(obj)
            &&& node.hidden is NotHidden && node.tag is None && node.props is None
            &&& node.timestamp is None && node.children.len() == 0
        }),
{
    lemma_roles();
}

/// The blocks of a message are taken one after the other, each in the state that those before it
/// left and by its place in the message.
pub proof fn law_blocks_in_order(
    s: ParseModel,
    hex: Seq<char>,
    blocks: Seq<JsonModel>,
    block: JsonModel,
)
    ensures
        blocks_ops(s, hex, Seq::empty()) == (s, Seq::<OpModel>::empty()),
        ({
            let (s1, before) = blocks_ops(s, hex, blocks);
            let (s2, last) = block_ops(s1, hex, blocks.len(), block);
            blocks_ops(s, hex, blocks.push(block)) == (s2, before + last)
        }),
{
    assert(blocks.push(block).drop_last() =~= blocks);
}

/// Whether a block is one of a type with a text.
pub open spec fn says(block: JsonModel, kind: Seq<char>, text: Seq<char>) -> bool {
    &&& field(block, "type"@) == Some(JsonModel::Str(kind))
    &&& field(block, "text"@) == Some(JsonModel::Str(text))
}

/// A text block is one node at the top that holds exactly its text, and one of reasoning a node that
/// holds exactly what was thought. The state stays as it was.
pub proof fn law_text_is_shown(
    s: ParseModel,
    hex: Seq<char>,
    idx: nat,
    block: JsonModel,
    text: Seq<char>,
)
    ensures
        says(block, "text"@, text) ==> ({
            let (after, ops) = block_ops(s, hex, idx, block);
            let node = node_of(ops[0]);
            &&& after == s
            &&& ops.len() == 1 && on_top(ops[0])
            &&& node.text == Some(text)
            &&& node.message_type is AgentMessage
            &&& node.id == "text:"@ + (hex + ":"@ + decimal(idx))
            &&& node.data == compact(block)
            &&& node.tag is None && node.props is None && !node.indent_children && is_bare(node)
        }),
        says(block, "reasoning"@, text) ==> ({
            let (after, ops) = block_ops(s, hex, idx, block);
            let node = node_of(ops[0]);
            &&& after == s
            &&& ops.len() == 1 && on_top(ops[0])
            &&& node.text == Some(text)
            &&& node.message_type is Thinking
            &&& node.id == "thinking:"@ + (hex + ":"@ + decimal(idx))
            &&& node.data == compact(block)
            &&& node.tag is None && node.props is None && !node.indent_children && is_bare(node)
        }),
{
    lemma_block_words();
}

proof fn lemma_blocks_prefix(s: ParseModel, hex: Seq<char>, a: Seq<JsonModel>, b: Seq<JsonModel>)
    ensures
        blocks_ops(s, hex, a).1.is_prefix_of(blocks_ops(s, hex, a + b).1),
    decreases b.len(),
{
    if b.len() == 0 {
        assert(a + b =~= a);
    } else {
        lemma_blocks_prefix(s, hex, a, b.drop_last());
        assert((a + b).drop_last() =~= a + b.drop_last());
        assert((a + b).last() == b.last());
        let (s1, before) = blocks_ops(s, hex, a + b.drop_last());
        let last = block_ops(s1, hex, ((a + b).len() - 1) as nat, b.last()).1;
        assert(blocks_ops(s, hex, a + b).1 == before + last);
        assert(blocks_ops(s, hex, a).1 =~= (before + last).take(
            blocks_ops(s, hex, a).1.len() as int,
        ));
    }
}

/// For each text block of an assistant's message, wherever it stands, a node with exactly its text
/// is appended.
pub proof fn law_every_text_is_shown(
    s: ParseModel,
    obj: JsonModel,
    hex: Seq<char>,
    before: Seq<JsonModel>,
    block: JsonModel,
    behind: Seq<JsonModel>,
    text: Seq<char>,
)
    requires
        field(obj, "role"@) == Some(JsonModel::Str("assistant"@)),
        field(obj, "content"@) == Some(JsonModel::Array(before.push(block) + behind)),
        says(block, "text"@, text),
    ensures
        ({
            let ops = message_ops(s, obj, hex).1;
            exists|k: int|
                0 <= k < ops.len() && on_top(#[trigger] ops[k]) && node_of(ops[k]).text == Some(text)
                    && node_of(ops[k]).message_type is AgentMessage && node_of(ops[k]).id
                    == "text:"@ + (hex + ":"@ + decimal(before.len()))
        }),
{
    law_messages_by_role(s, obj, hex);
    law_blocks_in_order(s, hex, before, block);
    let (s1, first) = blocks_ops(s, hex, before);
    law_text_is_shown(s1, hex, before.len(), block, text);
    let (s2, last) = block_ops(s1, hex, before.len(), block);
    lemma_blocks_prefix(s, hex, before.push(block), behind);
    let ops = message_ops(s, obj, hex).1;
    let k = first.len() as int;
    assert((first + last)[k] == last[0]);
    assert((first + last).is_prefix_of(ops));
    assert(ops[k] == (first + last)[k]);
}

/// Reasoning that cannot be read is a node that says so.
pub proof fn law_redacted_reasoning(s: ParseModel, hex: Seq<char>, idx: nat, block: JsonModel)
    requires
        field(block, "type"@) == Some(JsonModel::Str("redacted-reasoning"@)),
    ensures
        ({
            let (after, ops) = block_ops(s, hex, idx, block);
            let node = node_of(ops[0]);
            &&& after == s
            &&& ops.len() == 1 && on_top(ops[0])
            &&& node.text == Some("[redacted reasoning]"@)
            &&& node.tag == Some("redacted"@)
            &&& node.message_type is Thinking
            &&& node.id == "redacted_thinking:"@ + (hex + ":"@ + decimal(idx))
            &&& node.data == compact(block)
            &&& node.props is None && !node.indent_children && is_bare(node)
        }),
{
    lemma_block_words();
}

/// A call of a tool is a node that shows the tool's name and holds its arguments, and waits for its
/// result under the call's id.
pub proof fn law_tool_call(
    s: ParseModel,
    hex: Seq<char>,
    idx: nat,
    block: JsonModel,
    call_id: Seq<char>,
    name: Seq<char>,
)
    requires
        field(block, "type"@) == Some(JsonModel::Str("tool-call"@)),
        field(block, "toolCallId"@) == Some(JsonModel::Str(call_id)),
        field(block, "toolName"@) == Some(JsonModel::Str(name)),
    ensures
        ({
            let (after, ops) = block_ops(s, hex, idx, block);
            let node = node_of(ops[0]);
            &&& after == (ParseModel { pending: s.pending.insert(call_id, block), ..s })
            &&& ops.len() == 1 && on_top(ops[0])
            &&& node.id == "tool_call:"@ + call_id
            &&& node.text == Some(name)
            &&& node.message_type is ToolCall
            &&& node.data == compact(block)
            &&& field(block, "args"@) is None ==> node.props is None
            &&& field(block, "args"@) is Some ==> node.props == args_props(field(block, "args"@)->0)
            &&& node.tag is None && !node.indent_children && is_bare(node)
        }),
{
    lemma_block_words();
}

/// A block of another type does nothing.
pub proof fn law_other_blocks(s: ParseModel, hex: Seq<char>, idx: nat, block: JsonModel)
    requires
        str_field(block, "type"@) != Some("text"@),
        str_field(block, "type"@) != Some("reasoning"@),
        str_field(block, "type"@) != Some("redacted-reasoning"@),
        str_field(block, "type"@) != Some("tool-call"@),
    ensures
        block_ops(s, hex, idx, block) == (s, Seq::<OpModel>::empty()),
{
    lemma_block_words();
}

/// Arguments that are an object stay as they are, and so do those that a string spells. Any other
/// string is held as `_`, and null is nothing.
pub proof fn law_arguments(args: JsonModel)
    ensures
        args is Object ==> args_props(args) == Some(args),
        args is Null ==> args_props(args) is None,
        args is Str && json_parsed(args->Str_0) is Some && json_parsed(args->Str_0)->0 is Object
            ==> args_props(args) == json_parsed(args->Str_0),
        args is Str && (json_parsed(args->Str_0) is None || !(json_parsed(args->Str_0)->0 is Object))
            ==> args_props(args) is Some && args_props(args)->0 is Object && field(
            args_props(args)->0,
            "_"@,
        ) == Some(args),
        !(args is Object) && !(args is Null) && !(args is Str) ==> args_props(args) is Some && field(
            args_props(args)->0,
            "_"@,
        ) == Some(JsonModel::Str(compact(args))),
{
}

/// Whether a block holds the result of a call that is waited for.
pub open spec fn answers(s: ParseModel, block: JsonModel, call_id: Seq<char>) -> bool {
    &&& field(block, "type"@) == Some(JsonModel::Str("tool-result"@))
    &&& field(block, "toolCallId"@) == Some(JsonModel::Str(call_id))
    &&& s.pending.contains_key(call_id)
}

/// Whether a block says that its call failed.
pub open spec fn is_error(block: JsonModel) -> bool {
    field(block, "isError"@) == Some(JsonModel::Bool(true))
}

/// Whether a node is that of a call with its outcome.
pub open spec fn is_marked(
    node: MessageModel,
    call: JsonModel,
    call_id: Seq<char>,
    failed: bool,
) -> bool {
    &&& node.id == "tool_call:"@ + call_id
    &&& node.message_type is ToolCall
    &&& node.tag == Some(
        if failed {
            "error"@
        } else {
            "success"@
        },
    )
    &&& str_field(call, "toolName"@) is Some ==> node.text == str_field(call, "toolName"@)
    &&& node.data == compact(call)
    &&& field(call, "args"@) is None ==> node.props is None
    &&& field(call, "args"@) is Some ==> node.props == args_props(field(call, "args"@)->0)
}

/// The result of a call marks the call with "error" where it says that the call failed and with
/// "success" where it does not, and so the node of the result, which is put under the call and holds
/// the result's text.
pub proof fn law_result_marks_call(
    s: ParseModel,
    obj: JsonModel,
    block: JsonModel,
    call_id: Seq<char>,
)
    requires
        answers(s, block, call_id),
        str_field(block, "toolName"@) != Some("Task"@),
    ensures
        ({
            let (after, ops) = result_ops(s, obj, block);
            let call = s.pending[call_id];
            &&& after.pending == s.pending.remove(call_id)
            &&& after.seen == s.seen && after.has_pending == s.has_pending
            &&& ops.len() == 2
            &&& ops[0] matches OpModel::Replace { id, message } && {
                &&& id == "tool_call:"@ + call_id
                &&& is_marked(message, call, call_id, is_error(block))
                &&& !message.indent_children && is_bare(message)
            }
            &&& ops[1] matches OpModel::Append { parent_id, message } && {
                &&& parent_id == Some("tool_call:"@ + call_id)
                &&& message.id == "tool_result:"@ + call_id
                &&& message.message_type is ToolResult
                &&& is_error(block) ==> message.tag == Some("error"@)
                &&& !is_error(block) ==> message.tag == Some("success"@)
                &&& str_field(block, "result"@) is Some ==> message.text == str_field(
                    block,
                    "result"@,
                )
                &&& str_field(block, "result"@) is None ==> message.text == Some(""@)
                &&& message.data == compact(
                    JsonModel::Object(
                        seq![("call"@, call), ("result"@, block), ("message"@, obj)],
                    ),
                )
                &&& message.props is None && !message.indent_children && is_bare(message)
            }
        }),
{
    reveal_strlit("?");
    reveal_strlit("Task");
    assert("?"@.len() == 1 && "Task"@.len() == 4);
}

/// The result of a task marks the call by whether the task failed, and hangs what came of it under
/// the call.
pub proof fn law_task_marks_call(
    s: ParseModel,
    obj: JsonModel,
    block: JsonModel,
    call_id: Seq<char>,
)
    requires
        answers(s, block, call_id),
        field(block, "toolName"@) == Some(JsonModel::Str("Task"@)),
    ensures
        ({
            let (after, ops) = result_ops(s, obj, block);
            let call = s.pending[call_id];
            &&& after.pending == s.pending.remove(call_id)
            &&& after.seen == s.seen && after.has_pending == s.has_pending
            &&& ops.len() == 1
            &&& ops[0] matches OpModel::Replace { id, message } && {
                &&& id == "tool_call:"@ + call_id
                &&& is_marked(message, call, call_id, task_failed(obj))
                &&& message.indent_children
                &&& message.children == task_children(call_id, call, block, obj)
            }
        }),
{
}

/// The details that a tool's message carries.
pub open spec fn details(obj: JsonModel) -> Option<JsonModel> {
    within(obj, seq!["providerOptions"@, "cursor"@, "highLevelToolCallResult"@])
}

/// The output among the details of a tool's message.
pub open spec fn output(obj: JsonModel) -> Option<JsonModel> {
    within(obj, seq!["providerOptions"@, "cursor"@, "highLevelToolCallResult"@, "output"@])
}

proof fn lemma_details(obj: JsonModel)
    ensures
        details(obj) is Some ==> crate::cursor::message::result_details(obj) == details(obj)->0,
        details(obj) is None ==> crate::cursor::message::result_details(obj) is Null,
        details(obj) is None ==> output(obj) is None,
        details(obj) is Some ==> output(obj) == field(details(obj)->0, "output"@),
{
    reveal_with_fuel(within, 5);
    let a = seq!["providerOptions"@, "cursor"@, "highLevelToolCallResult"@];
    let b = seq!["providerOptions"@, "cursor"@, "highLevelToolCallResult"@, "output"@];
    assert(a.skip(1) =~= seq!["cursor"@, "highLevelToolCallResult"@]);
    assert(a.skip(1).skip(1) =~= seq!["highLevelToolCallResult"@]);
    assert(a.skip(1).skip(1).skip(1) =~= Seq::<Seq<char>>::empty());
    assert(b.skip(1) =~= seq!["cursor"@, "highLevelToolCallResult"@, "output"@]);
    assert(b.skip(1).skip(1) =~= seq!["highLevelToolCallResult"@, "output"@]);
    assert(b.skip(1).skip(1).skip(1) =~= seq!["output"@]);
    assert(b.skip(1).skip(1).skip(1).skip(1) =~= Seq::<Seq<char>>::empty());
}

/// A task failed exactly where its details say that it did, or its output holds an error.
pub proof fn law_failed_tasks(obj: JsonModel)
    ensures
        task_failed(obj) <==> (details(obj) is Some && field(details(obj)->0, "isError"@) == Some(
            JsonModel::Bool(true),
        )) || (output(obj) is Some && is_given(field(output(obj)->0, "error"@))),
{
    lemma_details(obj);
}

/// Under the call of a task that failed stands why; under the call of one that did not stand its
/// summary and then its steps.
pub proof fn law_children_of_a_task(
    call_id: Seq<char>,
    call: JsonModel,
    block: JsonModel,
    obj: JsonModel,
)
    ensures
        ({
            let children = task_children(call_id, call, block, obj);
            let why = if output(obj) is Some && field(output(obj)->0, "error"@) is Some {
                str_field(field(output(obj)->0, "error"@)->0, "error"@)
            } else {
                None
            };
            let steps = if output(obj) is Some && field(output(obj)->0, "success"@) is Some
                && items_field(field(output(obj)->0, "success"@)->0, "conversationSteps"@) is Some {
                items_field(field(output(obj)->0, "success"@)->0, "conversationSteps"@)->0
            } else {
                Seq::empty()
            };
            &&& task_failed(obj) ==> {
                &&& children.len() == 1
                &&& children[0].id == "tool_result:"@ + call_id
                &&& children[0].message_type is ToolResult
                &&& children[0].tag == Some("error"@)
                &&& why is Some ==> children[0].text == why
                &&& why is None && str_field(block, "result"@) is Some ==> children[0].text
                    == str_field(block, "result"@)
                &&& why is None && str_field(block, "result"@) is None ==> children[0].text == Some(
                    "[task failed]"@,
                )
            }
            &&& !task_failed(obj) ==> {
                &&& children.len() >= 1
                &&& children[0].id == "task_summary:"@ + call_id
                &&& children[0].message_type is TaskSummary
                &&& children[0].text == Some(task_result_text(block))
                &&& children[0].tag is None && children[0].data == compact(block)
                &&& children.skip(1) == step_nodes(call_id, steps, task_result_text(block))
            }
        }),
{
    lemma_details(obj);
    let children = task_children(call_id, call, block, obj);
    if !task_failed(obj) {
        let steps = if output(obj) is Some && field(output(obj)->0, "success"@) is Some
            && items_field(field(output(obj)->0, "success"@)->0, "conversationSteps"@) is Some {
            items_field(field(output(obj)->0, "success"@)->0, "conversationSteps"@)->0
        } else {
            Seq::empty()
        };
        assert(children.skip(1) =~= step_nodes(call_id, steps, task_result_text(block)));
    }
}

/// The summary of a task is the text of the first of its contents, and else its result.
pub proof fn law_text_of_a_task(block: JsonModel, items: Seq<JsonModel>)
    ensures
        items_field(block, "experimental_content"@) == Some(items) && items.len() > 0 && str_field(
            items[0],
            "text"@,
        ) is Some ==> task_result_text(block) == str_field(items[0], "text"@)->0,
        items_field(block, "experimental_content"@) is None && str_field(block, "result"@) is Some
            ==> task_result_text(block) == str_field(block, "result"@)->0,
        items_field(block, "experimental_content"@) == Some(items) && items.len() > 0 && str_field(
            items[0],
            "text"@,
        ) is None && str_field(block, "result"@) is Some ==> task_result_text(block) == str_field(
            block,
            "result"@,
        )->0,
        items_field(block, "experimental_content"@) == Some(items) && items.len() == 0 && str_field(
            block,
            "result"@,
        ) is Some ==> task_result_text(block) == str_field(block, "result"@)->0,
        items_field(block, "experimental_content"@) is None && str_field(block, "result"@) is None
            ==> task_result_text(block) == ""@,
{
}

/// The steps of a task are shown in order, each by its place; what the summary quotes is not shown
/// again.
pub proof fn law_steps_in_order(
    call_id: Seq<char>,
    steps: Seq<JsonModel>,
    step: JsonModel,
    summary: Seq<char>,
)
    ensures
        step_nodes(call_id, Seq::empty(), summary) == Seq::<MessageModel>::empty(),
        ({
            let said = if field(step, "assistantMessage"@) is Some {
                str_field(field(step, "assistantMessage"@)->0, "text"@)
            } else {
                None
            };
            let quoted = said is Some && holds_text(summary, trimmed(said->0));
            let node = step_node(call_id, steps.len(), step);
            let before = step_nodes(call_id, steps, summary);
            let all = step_nodes(call_id, steps.push(step), summary);
            &&& quoted || node is None ==> all == before
            &&& !quoted && node is Some ==> all == before.push(node->0)
        }),
{
    assert(steps.push(step).drop_last() =~= steps);
}

/// A step of thinking and a message of the agent are nodes that hold their texts.
pub proof fn law_step_texts(call_id: Seq<char>, i: nat, step: JsonModel, inner: JsonModel)
    ensures
        field(step, "thinkingMessage"@) == Some(inner) && inner is Object ==> ({
            let node = step_node(call_id, i, step);
            &&& node is Some
            &&& node->0.id == "subagent_think:"@ + (call_id + ":"@ + decimal(i))
            &&& node->0.message_type is Thinking
            &&& str_field(inner, "text"@) is Some ==> node->0.text == str_field(inner, "text"@)
            &&& node->0.data == compact(step)
            &&& node->0.tag is None && node->0.props is None && is_bare(node->0)
        }),
        !is_given(field(step, "thinkingMessage"@)) && field(step, "assistantMessage"@) == Some(inner)
            && inner is Object ==> ({
            let node = step_node(call_id, i, step);
            &&& node is Some
            &&& node->0.id == "subagent_text:"@ + (call_id + ":"@ + decimal(i))
            &&& node->0.message_type is AgentMessage
            &&& str_field(inner, "text"@) is Some ==> node->0.text == str_field(inner, "text"@)
            &&& node->0.data == compact(step)
            &&& node->0.tag is None && node->0.props is None && is_bare(node->0)
        }),
{
}

/// A step that calls a tool is a node that shows the tool's name and tells how the call ended.
pub proof fn law_step_calls(
    call_id: Seq<char>,
    i: nat,
    step: JsonModel,
    members: Seq<(Seq<char>, JsonModel)>,
)
    requires
        !is_given(field(step, "thinkingMessage"@)),
        !is_given(field(step, "assistantMessage"@)),
        field(step, "toolCall"@) == Some(JsonModel::Object(members)),
    ensures
        first_call(members) is None ==> step_node(call_id, i, step) is None,
        first_call(members) is Some ==> ({
            let (kind, call) = first_call(members)->0;
            let node = step_node(call_id, i, step);
            &&& node is Some
            &&& node->0.id == "subagent_tool:"@ + (call_id + ":"@ + decimal(i))
            &&& node->0.message_type is ToolCall
            &&& node->0.text == Some(capitalized(drop_words(kind, "ToolCall"@)))
            &&& field(call, "result"@) is Some ==> node->0.tag == step_tag(
                field(call, "result"@)->0,
            )
            &&& node->0.data == compact(step)
        }),
{
}

/// The call of a step is the first member whose name ends as those of calls do.
pub proof fn law_first_call(members: Seq<(Seq<char>, JsonModel)>)
    ensures
        first_call(members) is Some ==> exists|k: int|
            0 <= k < members.len() && (#[trigger] members[k]) == first_call(members)->0 && ends(
                members[k].0,
                "ToolCall"@,
            ) && forall|j: int| 0 <= j < k ==> !ends((#[trigger] members[j]).0, "ToolCall"@),
        first_call(members) is None ==> forall|j: int|
            0 <= j < members.len() ==> !ends((#[trigger] members[j]).0, "ToolCall"@),
    decreases members.len(),
{
    if members.len() > 0 && !ends(members[0].0, "ToolCall"@) {
        let rest = members.skip(1);
        law_first_call(rest);
        if first_call(members) is Some {
            let k = choose|k: int|
                0 <= k < rest.len() && (#[trigger] rest[k]) == first_call(rest)->0 && ends(
                    rest[k].0,
                    "ToolCall"@,
                ) && forall|j: int| 0 <= j < k ==> !ends((#[trigger] rest[j]).0, "ToolCall"@);
            assert(members[k + 1] == rest[k]);
            assert forall|j: int| 0 <= j < k + 1 implies !ends(
                (#[trigger] members[j]).0,
                "ToolCall"@,
            ) by {
                if j > 0 {
                    assert(members[j] == rest[j - 1]);
                }
            }
        } else {
            assert forall|j: int| 0 <= j < members.len() implies !ends(
                (#[trigger] members[j]).0,
                "ToolCall"@,
            ) by {
                if j > 0 {
                    assert(members[j] == rest[j - 1]);
                }
            }
        }
    } else if members.len() > 0 {
        assert(members[0] == first_call(members)->0);
    }
}

/// A step's call that succeeded is marked so, and one that failed or was not permitted as an error;
/// of one that tells neither nothing is said.
pub proof fn law_step_outcomes(result: JsonModel)
    ensures
        is_given(field(result, "success"@)) ==> step_tag(result) == Some("success"@),
        !is_given(field(result, "success"@)) && (is_given(field(result, "failure"@)) || is_given(
            field(result, "error"@),
        ) || is_given(field(result, "permissionDenied"@))) ==> step_tag(result) == Some("error"@),
        !is_given(field(result, "success"@)) && !is_given(field(result, "failure"@)) && !is_given(
            field(result, "error"@),
        ) && !is_given(field(result, "permissionDenied"@)) ==> step_tag(result) is None,
{
}

/// The name of a tool is what is left without the words at its end.
pub proof fn law_dropped_words(name: Seq<char>, w: Seq<char>)
    requires
        w.len() > 0,
    ensures
        drop_words(name + w, w) == drop_words(name, w),
        !ends(name, w) ==> drop_words(name, w) == name,
{
    let all = name + w;
    assert(all.skip(all.len() - w.len()) =~= w);
    assert(all.subrange(all.len() - w.len(), all.len() as int) =~= w);
    assert(ends(all, w));
    assert(all.take(all.len() - w.len()) =~= name);
}

/// A call that runs on is noted under its shell's number, or its agent's id, with the call's id and
/// whether it is an agent's; any other result notes nothing.
pub proof fn law_background_tasks(
    s: ParseModel,
    obj: JsonModel,
    block: JsonModel,
    call_id: Seq<char>,
)
    requires
        answers(s, block, call_id),
    ensures
        ({
            let after = result_ops(s, obj, block).0;
            let agent = str_field(block, "toolName"@) == Some("Task"@);
            &&& background_id(obj) is None ==> after.tasks == s.tasks
            &&& background_id(obj) is Some ==> after.tasks == s.tasks.insert(
                background_id(obj)->0,
                TaskModel { tool_call_id: call_id, is_subagent: agent },
            )
        }),
{
    reveal_strlit("?");
    reveal_strlit("Task");
    assert("?"@.len() == 1 && "Task"@.len() == 4);
}

/// Whether an output tells that its call runs on.
pub open spec fn runs_on(out: JsonModel) -> bool {
    let done = field(out, "success"@);
    ||| field(out, "isBackground"@) == Some(JsonModel::Bool(true))
    ||| done is Some && field(done->0, "isBackground"@) == Some(JsonModel::Bool(true))
    ||| done is Some && str_field(done->0, "backgroundReason"@) is Some
}

/// The id of a call that runs on is the number of its shell, and else the id of its agent; a call
/// that does not run on has none.
pub proof fn law_background_id(obj: JsonModel)
    ensures
        output(obj) is None || !runs_on(output(obj)->0) ==> background_id(obj) is None,
        output(obj) is Some && runs_on(output(obj)->0) && field(output(obj)->0, "success"@) is Some
            ==> ({
            let done = field(output(obj)->0, "success"@)->0;
            let shell = field(done, "shellId"@);
            &&& shell is Some && shell->0 is Unsigned ==> background_id(obj) == Some(
                decimal(shell->0->Unsigned_0 as nat),
            )
            &&& shell is Some && shell->0 is Negative ==> background_id(obj) == Some(
                signed_decimal(shell->0->Negative_0 as int),
            )
            &&& shell is None || shell->0 is Null || shell->0 is Str ==> background_id(obj)
                == str_field(done, "agentId"@)
        }),
{
    lemma_details(obj);
}

/// A block that is no result, and a result of no call that is waited for, does nothing.
pub proof fn law_result_of_no_call(s: ParseModel, obj: JsonModel, block: JsonModel)
    requires
        str_field(block, "type"@) != Some("tool-result"@) || (str_field(block, "toolCallId"@) is Some
            && !s.pending.contains_key(str_field(block, "toolCallId"@)->0)),
    ensures
        result_ops(s, obj, block) == (s, Seq::<OpModel>::empty()),
{
}

/// The results of a message are taken one after the other, each in the state that those before it
/// left.
pub proof fn law_results_in_order(
    s: ParseModel,
    obj: JsonModel,
    blocks: Seq<JsonModel>,
    block: JsonModel,
)
    ensures
        results_ops(s, obj, Seq::empty()) == (s, Seq::<OpModel>::empty()),
        ({
            let (s1, before) = results_ops(s, obj, blocks);
            let (s2, last) = result_ops(s1, obj, block);
            results_ops(s, obj, blocks.push(block)) == (s2, before + last)
        }),
{
    assert(blocks.push(block).drop_last() =~= blocks);
}

/// Whether a message is the summary of a conversation.
pub open spec fn is_summary(obj: JsonModel) -> bool {
    within(obj, seq!["providerOptions"@, "cursor"@, "isSummary"@]) == Some(JsonModel::Bool(true))
}

proof fn lemma_summary(obj: JsonModel)
    ensures
        is_summary(obj) <==> crate::claude::message::flag(
            crate::claude::message::at(
                crate::claude::message::at(obj, "providerOptions"@),
                "cursor"@,
            ),
            "isSummary"@,
        ),
{
    reveal_with_fuel(within, 5);
    let a = seq!["providerOptions"@, "cursor"@, "isSummary"@];
    assert(a.skip(1) =~= seq!["cursor"@, "isSummary"@]);
    assert(a.skip(1).skip(1) =~= seq!["isSummary"@]);
    assert(a.skip(1).skip(1).skip(1) =~= Seq::<Seq<char>>::empty());
}

/// A user's message is one node at the top that holds what the user asked, with its time, or, where
/// it is a notice that a task has ended, how it ended. It is hidden exactly where it only tells of
/// the user, and marked where it is a summary or a notice. The state stays as it was.
pub proof fn law_user_message(s: ParseModel, obj: JsonModel, hex: Seq<char>, content: JsonModel)
    requires
        field(obj, "role"@) == Some(JsonModel::Str("user"@)),
        field(obj, "content"@) == Some(content),
    ensures
        ({
            let (after, ops) = message_ops(s, obj, hex);
            let raw = content_text(content, None);
            let told = notice(without_timestamp(raw).0);
            let node = node_of(ops[0]);
            let time = user_text(raw).1;
            &&& after == s
            &&& ops.len() >= 1 && on_top(ops[0])
            &&& node.id == "user_msg:"@ + hex
            &&& node.message_type is UserMessage
            &&& node.data == compact(obj)
            &&& told is None ==> ops.len() == 1 && node.text == Some(user_text(raw).0)
            &&& told is Some ==> node.text == Some(told->0.label + ": "@ + told->0.title)
                && ops.skip(1) == link_steps(told->0, s, obj)
            &&& node.hidden is Hidden <==> starts(trimmed(node.text->0), "<user_info>"@)
            &&& is_summary(obj) ==> node.tag == Some("summary"@) && node.brief == Some(
                "[Conversation summary]"@,
            )
            &&& !is_summary(obj) ==> node.brief is None
            &&& !is_summary(obj) && told is Some ==> node.tag == Some("system_notification"@)
            &&& !is_summary(obj) && told is None ==> node.tag is None
            &&& time is Some ==> node.timestamp == timestamp_of(time->0)
            &&& time is None ==> node.timestamp is None
            &&& node.props is None && node.children.len() == 0
        }),
{
    lemma_roles();
    lemma_summary(obj);
    let raw = content_text(content, None);
    let told = notice(without_timestamp(raw).0);
    if told is Some {
        let ops = message_ops(s, obj, hex).1;
        assert(ops.skip(1) =~= link_steps(told->0, s, obj));
    }
}

/// The text to show of a user's message is the query that it wraps, trimmed, and else all of it but
/// its timestamp, trimmed.
pub proof fn law_user_text(text: Seq<char>)
    ensures
        ({
            let (rest, time) = without_timestamp(text);
            &&& user_text(text).1 == time
            &&& tag_text(rest, "user_query"@) is Some ==> user_text(text).0 == trimmed(
                tag_text(rest, "user_query"@)->0,
            )
            &&& tag_text(rest, "user_query"@) is None ==> user_text(text).0 == trimmed(rest)
        }),
{
}

/// A message's timestamp is what its first element of that name holds; the rest is what stands
/// before and behind it. A message without such an element is left as it is.
pub proof fn law_timestamp_is_cut_out(text: Seq<char>)
    ensures
        without_timestamp(text).1 == tag_text(text, "timestamp"@),
        without_timestamp(text).1 is None ==> without_timestamp(text).0 == text,
        without_timestamp(text).1 is Some ==> exists|a: int, e: int|
            0 <= a <= e <= text.len() && without_timestamp(text).0 == #[trigger] text.take(a)
                + #[trigger] text.skip(e) && text.subrange(a, e) == opening("timestamp"@)
                + without_timestamp(text).1->0 + closing("timestamp"@),
{
    if without_timestamp(text).1 is Some {
        let open = opening("timestamp"@);
        let close = closing("timestamp"@);
        crate::text::lemma_first_at(text, open, 0);
        let a = crate::text::first_at(text, open, 0)->0;
        crate::text::lemma_first_at(text, close, a + open.len());
        let e = crate::text::first_at(text, close, a + open.len())->0 + close.len();
        assert(without_timestamp(text).0 == text.take(a) + text.skip(e));
        assert(text.subrange(a, e) =~= open + without_timestamp(text).1->0 + close);
    }
}

/// A notice of a task that nobody started does nothing. The report of an agent takes the place of
/// its summary; without a report, how the task ended does. How a shell ended is put under its call,
/// marked by whether it failed.
pub proof fn law_notices(n: NotificationModel, s: ParseModel, obj: JsonModel)
    ensures
        n.task_id is None || !s.tasks.contains_key(n.task_id->0) ==> link_steps(n, s, obj).len()
            == 0,
        n.task_id is Some && s.tasks.contains_key(n.task_id->0) ==> ({
            let ops = link_steps(n, s, obj);
            let task = s.tasks[n.task_id->0];
            &&& ops.len() == 1
            &&& task.is_subagent ==> (ops[0] matches OpModel::Replace { id, message } && {
                &&& id == "task_summary:"@ + task.tool_call_id && message.id == id
                &&& message.message_type is TaskSummary
                &&& n.body.len() > 0 ==> message.text == Some(n.body)
                &&& n.body.len() == 0 ==> message.text == Some(n.label + ": "@ + n.title)
                &&& message.data == compact(obj)
                &&& message.tag is None && is_bare(message)
            })
            &&& !task.is_subagent ==> (ops[0] matches OpModel::Append { parent_id, message } && {
                &&& parent_id == Some("tool_call:"@ + task.tool_call_id)
                &&& message.id == "background_result:"@ + task.tool_call_id
                &&& message.message_type is ToolResult
                &&& n.is_error ==> message.tag == Some("error"@)
                &&& !n.is_error ==> message.tag == Some("success"@)
                &&& n.detail is Some ==> message.text == Some(n.label + " ("@ + n.detail->0 + ")"@)
                &&& n.detail is None ==> message.text == Some(n.label)
                &&& message.data == compact(obj)
                &&& is_bare(message)
            })
        }),
{
}

/// A blob that was not parsed before does what its message does, its nodes named by the first 32
/// characters of its id; one that is no message does nothing. Either way it counts as parsed.
pub proof fn law_blob(s: ParseModel, id: Seq<char>, bytes: Seq<u8>, data: Option<JsonModel>)
    requires
        known_id(bytes) is Some ==> !s.seen.contains(known_id(bytes)->0),
    ensures
        ({
            let s1 = if known_id(bytes) is Some {
                ParseModel { seen: s.seen.insert(known_id(bytes)->0), ..s }
            } else {
                s
            };
            &&& data is None ==> blob_ops(s, id, bytes, data) == (s1, Seq::<OpModel>::empty())
            &&& data is Some && id.len() > 32 ==> blob_ops(s, id, bytes, data) == message_ops(
                s1,
                data->0,
                id.subrange(0, 32),
            )
            &&& data is Some && id.len() <= 32 ==> blob_ops(s, id, bytes, data) == message_ops(
                s1,
                data->0,
                id,
            )
        }),
{
    if id.len() > 32 {
        assert(short_id(id) =~= id.subrange(0, 32));
    }
}

/// The message that is still being written has one node, whose text is that of the message,
/// trimmed; without a text it goes. A message of another role, and what is no message, does nothing.
pub proof fn law_pending_message(s: ParseModel, obj: JsonModel, content: JsonModel)
    requires
        field(obj, "content"@) == Some(content),
    ensures
        pending_ops(s, None) == (s, Seq::<OpModel>::empty()),
        str_field(obj, "role"@) != Some("assistant"@) ==> pending_ops(s, Some(obj)) == (
            s,
            Seq::<OpModel>::empty(),
        ),
        str_field(obj, "role"@) == Some("assistant"@) ==> ({
            let (after, ops) = pending_ops(s, Some(obj));
            let text = trimmed(content_text(content, None));
            let id = "streaming:pending"@;
            &&& after == (ParseModel { has_pending: text.len() > 0, ..s })
            &&& text.len() == 0 && !s.has_pending ==> ops.len() == 0
            &&& text.len() == 0 && s.has_pending ==> ops == seq![OpModel::Remove { id }]
            &&& text.len() > 0 ==> {
                &&& ops.len() == 1
                &&& s.has_pending ==> ops[0] is Replace && ops[0]->Replace_id == id
                &&& !s.has_pending ==> on_top(ops[0])
                &&& node_of(ops[0]).id == id
                &&& node_of(ops[0]).text == Some(text)
                &&& node_of(ops[0]).message_type is AgentMessage
                &&& node_of(ops[0]).data == compact(obj)
                &&& node_of(ops[0]).tag is None && is_bare(node_of(ops[0]))
            }
        }),
{
}

/// The text of a number is its digits; what is no number has none.
pub proof fn law_number_text(m: JsonModel)
    ensures
        m is Unsigned ==> number_text(m) == Some(decimal(m->Unsigned_0 as nat)),
        m is Negative ==> number_text(m) == Some(signed_decimal(m->Negative_0 as int)),
        m is Str || m is Null || m is Bool || m is Array || m is Object ==> number_text(m) is None,
{
}

/// Before any blob nothing was parsed, no call waits, no message is being written and no task runs.
pub proof fn law_before_any_blob(id: Seq<char>)
    ensures
        !empty_state().seen.contains(id),
        !empty_state().pending.contains_key(id),
        !empty_state().tasks.contains_key(id),
        !empty_state().has_pending,
{
}

/// A block that lacks a part is shown without it: a call without a name by a question mark, a text
/// that is missing as an empty one. A call without an id is waited for under the empty one.
pub proof fn law_incomplete_blocks(s: ParseModel, hex: Seq<char>, idx: nat, block: JsonModel)
    ensures
        ({
            let (after, ops) = block_ops(s, hex, idx, block);
            let node = node_of(ops[0]);
            let kind = str_field(block, "type"@);
            &&& kind == Some("tool-call"@) && str_field(block, "toolName"@) is None ==> ops.len()
                == 1 && node.text == Some("?"@) && node.message_type is ToolCall
            &&& kind == Some("tool-call"@) && str_field(block, "toolCallId"@) is None ==> {
                &&& ops.len() == 1 && node.id == "tool_call:"@
                &&& after == (ParseModel {
                    pending: s.pending.insert(Seq::empty(), block),
                    ..s
                })
            }
            &&& kind == Some("text"@) && str_field(block, "text"@) is None ==> ops.len() == 1
                && node.text == Some(Seq::<char>::empty()) && node.message_type is AgentMessage
            &&& kind == Some("reasoning"@) && str_field(block, "text"@) is None ==> ops.len() == 1
                && node.text == Some(Seq::<char>::empty()) && node.message_type is Thinking
        }),
{
    lemma_block_words();
    reveal_strlit("");
    assert(""@ =~= Seq::<char>::empty());
    assert("tool_call:"@ + ""@ =~= "tool_call:"@);
}

} // verus!
