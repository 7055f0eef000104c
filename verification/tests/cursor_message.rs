use agt::cursor::message::{parse_blob, parse_pending_blob, strip_message_tags, ParseState};
use agt::cursor::notification::TaskNotification;
use agt::cursor::timestamp::parse_timestamp;
use agt::json::{parse_json, Json};
use agt::tree::{MessageState, MessageType, TreeOperation};

/// The JSON text of a string.
fn quote(s: &str) -> String {
    Json::Str(s.to_string()).to_compact()
}



fn fake_blob_id() -> String {
    "a".repeat(64)
}

fn append_ids(ops: &[TreeOperation]) -> Vec<String> {
    ops.iter()
        .filter_map(|op| match op {
            TreeOperation::Append { message, .. } => Some(message.id.clone()),
            _ => None,
        })
        .collect()
}

fn all_appends_at_root(ops: &[TreeOperation]) -> bool {
    ops.iter().all(|op| match op {
        TreeOperation::Append { parent_id, .. } => parent_id.is_none(),
        _ => true,
    })
}

fn has_container(ops: &[TreeOperation]) -> bool {
    ops.iter().any(|op| match op {
        TreeOperation::Append { message, .. } => message.message_type == MessageType::Container,
        _ => false,
    })
}

#[test]
fn test_parse_system_blob_emits_system_node() {
    let blob = r#"{"role":"system","content":"You are an AI."}"#;
    let mut state = ParseState::new();
    let ops = parse_blob(&fake_blob_id(), blob.to_string().as_bytes(), &mut state);
    assert_eq!(ops.len(), 1);
    match &ops[0] {
        TreeOperation::Append { parent_id, message } => {
            assert!(parent_id.is_none());
            assert_eq!(message.message_type, MessageType::System);
            assert_eq!(message.brief.as_deref(), Some("[System prompt]"));
            assert!(!message.expanded || message.text.as_deref() == Some("You are an AI."));
        }
        _ => panic!("expected Append"),
    }
}

#[test]
fn test_injected_user_message_is_hidden() {
    let content = "<user_info>\nOS: linux\n</user_info>\n<rules>some rules</rules>";
    let blob = format!(
        r#"{{"role":"user","content":[{{"type":"text","text":{}}}]}}"#,
        quote(content)
    );
    let mut state = ParseState::new();
    let ops = parse_blob(&fake_blob_id(), blob.to_string().as_bytes(), &mut state);
    let user_msg = ops.iter().find_map(|op| match op {
        TreeOperation::Append { message, .. } if message.id.starts_with("user_msg:") => {
            Some(message)
        }
        _ => None,
    });
    assert!(
        user_msg.unwrap().hidden.is_hidden(),
        "injected user message should be hidden"
    );
}

#[test]
fn test_real_user_message_is_visible() {
    let content = "<timestamp>Saturday, May 2, 2026, 3:00 PM (UTC+8)</timestamp>\n<user_query>Hello world</user_query>";
    let blob = format!(
        r#"{{"role":"user","content":[{{"type":"text","text":{}}}]}}"#,
        quote(content)
    );
    let mut state = ParseState::new();
    let ops = parse_blob(&fake_blob_id(), blob.to_string().as_bytes(), &mut state);
    let user_msg = ops.iter().find_map(|op| match op {
        TreeOperation::Append { message, .. } if message.id.starts_with("user_msg:") => {
            Some(message)
        }
        _ => None,
    });
    assert!(
        !user_msg.unwrap().hidden.is_hidden(),
        "real user message should not be hidden"
    );
}

fn notification_content(status: &str) -> String {
    format!(
        "<timestamp>Friday, Sep 18, 2026, 3:43 PM (UTC+8)</timestamp>\n\
         <system_notification>\n\
         The following task has finished. If you were already aware, ignore this notification and do not restate prior responses.\n\n\
         <task>\nkind: shell\nstatus: {status}\ntask_id: 795680\ntitle: Restart worktree DAI dev server\n</task>\n\
         </system_notification>\n\
         <user_query>Briefly inform the user about the task result and perform any follow-up actions (if needed).</user_query>"
    )
}

fn parse_single_user_msg(content: &str) -> MessageState {
    let blob = format!(r#"{{"role":"user","content":{}}}"#, quote(&content));
    let mut state = ParseState::new();
    let ops = parse_blob(&fake_blob_id(), blob.to_string().as_bytes(), &mut state);
    ops.into_iter()
        .find_map(|op| match op {
            TreeOperation::Append { message, .. } if message.id.starts_with("user_msg:") => {
                Some(message)
            }
            _ => None,
        })
        .expect("user message")
}

#[test]
fn test_system_notification_is_summarized() {
    let msg = parse_single_user_msg(&notification_content("success"));
    assert_eq!(
        msg.text.as_deref(),
        Some("Completed: Restart worktree DAI dev server")
    );
    assert_eq!(msg.tag.as_deref(), Some("system_notification"));
    assert_eq!(msg.message_type, MessageType::UserMessage);
    assert!(msg.timestamp.is_some());
    assert!(!msg.hidden.is_hidden());
}

#[test]
fn test_system_notification_status_labels() {
    let cases = [
        ("error", "Failed"),
        ("cancelled", "Cancelled"),
        ("timeout", "Timeout"),
    ];
    for (status, label) in cases {
        let msg = parse_single_user_msg(&notification_content(status));
        assert_eq!(
            msg.text.as_deref(),
            Some(format!("{label}: Restart worktree DAI dev server").as_str()),
            "status {status}"
        );
    }
}

#[test]
fn test_system_notification_without_task_falls_back() {
    let content = "<system_notification>\nSomething happened\n</system_notification>\n<user_query>Do the thing</user_query>";
    let msg = parse_single_user_msg(content);
    assert_eq!(msg.text.as_deref(), Some("Do the thing"));
    assert_eq!(msg.tag, None);
}

#[test]
fn test_system_notification_mid_message_not_detected() {
    let content = format!(
        "<user_query>Why does this show up?\n{}</user_query>",
        "<system_notification><task>\nstatus: success\ntitle: X\n</task></system_notification>"
    );
    let msg = parse_single_user_msg(&content);
    assert!(msg.text.as_deref().unwrap().starts_with("Why does this show up?"));
    assert_eq!(msg.tag, None);
}

#[test]
fn test_task_notification_splits_header_and_body() {
    let text = "<system_notification>\n<task>\nkind: subagent\nstatus: success\n\
                task_id: abc\ntitle: Explore\ndetail: Exploring things\n\
                # Report\nNote: keep me\n</task>\n</system_notification>";
    let n = TaskNotification::parse(text).unwrap();
    assert_eq!(n.task_id.as_deref(), Some("abc"));
    assert_eq!(n.detail.as_deref(), Some("Exploring things"));
    assert_eq!(n.body, "# Report\nNote: keep me");
}

/// Feeds a background tool call + its result through `parse_blob`.
/// `output` is the tool message's `highLevelToolCallResult.output`.
fn start_background_call(
    state: &mut ParseState,
    tool_name: &str,
    tc_id: &str,
    output: &str,
) {
    state.pending_tool_calls.insert(
        tc_id.to_string(),
        parse_json(&format!(
            r#"{{"type":"tool-call","toolName":"{tool_name}","toolCallId":"{tc_id}","args":{{}}}}"#
        ))
        .unwrap(),
    );
    let tool_blob = format!(
        r#"{{"role":"tool","content":[{{"type":"tool-result","toolName":"{tool_name}","toolCallId":"{tc_id}","result":"started"}}],"providerOptions":{{"cursor":{{"highLevelToolCallResult":{{"output":{output}}}}}}}}}"#
    );
    // Helpers reuse blob IDs; forget them so repeated calls aren't deduplicated.
    state.seen_blobs.clear();
    parse_blob(&"c".repeat(64), tool_blob.to_string().as_bytes(), state);
}

fn parse_notification(state: &mut ParseState, task: &str) -> Vec<TreeOperation> {
    let content =
        format!("<system_notification>\nFinished.\n\n<task>\n{task}\n</task>\n</system_notification>");
    let blob = format!(r#"{{"role":"user","content":{}}}"#, quote(&content));
    state.seen_blobs.clear();
    parse_blob(&"e".repeat(64), blob.to_string().as_bytes(), state)
}

#[test]
fn test_shell_notification_appends_outcome_to_originating_call() {
    let mut state = ParseState::new();
    start_background_call(
        &mut state,
        "Shell",
        "tc_shell",
        r#"{"success":{"shellId":825186},"isBackground":true}"#,
    );
    // Backgrounded after a timeout: no `isBackground`, only `backgroundReason`.
    start_background_call(
        &mut state,
        "Shell",
        "tc_timeout",
        r#"{"success":{"shellId":7,"backgroundReason":"SHELL_BACKGROUND_REASON_TIMEOUT"}}"#,
    );
    let ops = parse_notification(
        &mut state,
        "kind: shell\nstatus: error\ntask_id: 825186\ntitle: Start server\ndetail: exit_code=143",
    );
    assert_eq!(ops.len(), 2, "user message + linked result");
    match &ops[1] {
        TreeOperation::Append { parent_id, message } => {
            assert_eq!(parent_id.as_deref(), Some("tool_call:tc_shell"));
            assert_eq!(message.text.as_deref(), Some("Failed (exit_code=143)"));
            assert_eq!(message.tag.as_deref(), Some("error"));
            assert_eq!(message.message_type, MessageType::ToolResult);
        }
        _ => panic!("expected Append"),
    }

    let ops = parse_notification(
        &mut state,
        "kind: shell\nstatus: success\ntask_id: 7\ntitle: Slow build",
    );
    assert!(
        matches!(&ops[1], TreeOperation::Append { parent_id, message }
            if parent_id.as_deref() == Some("tool_call:tc_timeout")
                && message.text.as_deref() == Some("Completed")),
        "timeout-backgrounded shell should link"
    );
}

#[test]
fn test_task_result_keeps_tool_call_with_summary_child() {
    let mut state = ParseState::new();
    state.pending_tool_calls.insert(
        "tc2".to_string(),
        parse_json(r#"{"type":"tool-call","toolName":"Task","toolCallId":"tc2","args":{"description":"Explore"}}"#).unwrap(),
    );
    let tool_blob = r#"{"role":"tool","content":[{"type":"tool-result","toolName":"Task","toolCallId":"tc2","result":"done"}]}"#;
    let ops = parse_blob(&"d".repeat(64), tool_blob.to_string().as_bytes(), &mut state);

    let [TreeOperation::Replace { id, message }] = ops.as_slice() else {
        panic!("expected a single Replace");
    };
    assert_eq!(id, "tool_call:tc2");
    assert_eq!(message.id, "tool_call:tc2");
    assert_eq!(message.message_type, MessageType::ToolCall);
    assert_eq!(message.tag.as_deref(), Some("success"));
    assert!(message.props.is_some(), "args kept for ToolFormatter");
    assert_eq!(message.children.len(), 1);
    assert_eq!(message.children[0].id, "task_summary:tc2");
    assert_eq!(message.children[0].text.as_deref(), Some("done"));
}

/// Parses a Task tool result whose message-level `highLevelToolCallResult` is `hl`.
fn parse_task_result(result: &str, hl: &str) -> MessageState {
    let mut state = ParseState::new();
    state.pending_tool_calls.insert(
        "tc".to_string(),
        parse_json(r#"{"type":"tool-call","toolName":"Task","toolCallId":"tc","args":{"description":"Explore"}}"#).unwrap(),
    );
    let tool_blob = format!(
        r#"{{"role":"tool","content":[{{"type":"tool-result","toolName":"Task","toolCallId":"tc","result":{}}}],"providerOptions":{{"cursor":{{"highLevelToolCallResult":{hl}}}}}}}"#,
        quote(result)
    );
    let ops = parse_blob(&"d".repeat(64), tool_blob.to_string().as_bytes(), &mut state);
    match ops.into_iter().next() {
        Some(TreeOperation::Replace { message, .. }) => message,
        _ => panic!("expected Replace"),
    }
}

#[test]
fn test_task_result_renders_conversation_steps() {
    let task = parse_task_result(
        "Report: done",
        // The third step is the last message, which the summary quotes: it is skipped.
        r#"{"output":{"success":{"conversationSteps":[
            {"thinkingMessage":{"text":"hmm","durationMs":5}},
            {"assistantMessage":{"text":"Looking."}},
            {"assistantMessage":{"text":"done"}},
            {"toolCall":{"shellToolCall":{
                "args":{"command":"ls","toolCallId":"x"},
                "result":{"success":{"exitCode":0}}}}},
            {"toolCall":{"webFetchToolCall":{
                "args":{"url":"https://example.com"},
                "result":{"failure":{"message":"nope"}}}}}
        ]}}}"#,
    );
    assert_eq!(task.tag.as_deref(), Some("success"));
    let kids: Vec<_> = task
        .children
        .iter()
        .map(|c| (c.message_type.clone(), c.text.clone().unwrap_or_default(), c.tag.clone()))
        .collect();
    assert_eq!(
        kids,
        vec![
            (MessageType::TaskSummary, "Report: done".to_string(), None),
            (MessageType::Thinking, "hmm".to_string(), None),
            (MessageType::AgentMessage, "Looking.".to_string(), None),
            (MessageType::ToolCall, "Shell".to_string(), Some("success".to_string())),
            (MessageType::ToolCall, "WebFetch".to_string(), Some("error".to_string())),
        ]
    );
    assert_eq!(
        task.children[3].props.as_ref().map(|p| p.to_compact()),
        Some(r#"{"command":"ls"}"#.to_string()),
        "args become props, minus toolCallId"
    );
}

#[test]
fn test_task_error_result_is_tagged_error() {
    let task = parse_task_result(
        "Error: Invalid arguments",
        r#"{"output":{"error":{"error":"Invalid arguments:\nbad subagent_type"}},"isError":true}"#,
    );
    assert_eq!(task.tag.as_deref(), Some("error"));
    assert_eq!(task.children.len(), 1);
    assert_eq!(task.children[0].message_type, MessageType::ToolResult);
    assert_eq!(
        task.children[0].text.as_deref(),
        Some("Invalid arguments:\nbad subagent_type")
    );
}

#[test]
fn test_subagent_notification_fills_task_summary() {
    let mut state = ParseState::new();
    start_background_call(
        &mut state,
        "Task",
        "tc_task",
        r#"{"success":{"agentId":"agent-1","isBackground":true}}"#,
    );
    let ops = parse_notification(
        &mut state,
        "kind: subagent\nstatus: success\ntask_id: agent-1\ntitle: Explore\n\
         detail: Exploring\n# Report\nAll good.",
    );
    assert_eq!(ops.len(), 2, "user message + linked summary");
    match &ops[1] {
        TreeOperation::Replace { id, message } => {
            assert_eq!(id, "task_summary:tc_task");
            assert_eq!(message.text.as_deref(), Some("# Report\nAll good."));
            assert_eq!(message.message_type, MessageType::TaskSummary);
        }
        _ => panic!("expected Replace"),
    }
}

#[test]
fn test_notification_without_background_origin_is_not_linked() {
    let mut state = ParseState::new();
    // Foreground shell: carries a shellId but no isBackground flag.
    start_background_call(
        &mut state,
        "Shell",
        "tc_fg",
        r#"{"success":{"shellId":1}}"#,
    );
    for task_id in ["1", "999"] {
        let ops = parse_notification(
            &mut state,
            &format!("kind: shell\nstatus: success\ntask_id: {task_id}\ntitle: X"),
        );
        assert_eq!(ops.len(), 1, "task_id {task_id}: only the user message");
    }
}

#[test]
fn test_strip_message_tags() {
    let input = "<timestamp>Saturday, May 2, 2026, 3:00 PM (UTC+8)</timestamp>\n<user_query>Hello world</user_query>";
    let (display, ts) = strip_message_tags(input);
    assert_eq!(display, "Hello world");
    assert_eq!(
        ts.as_deref(),
        Some("Saturday, May 2, 2026, 3:00 PM (UTC+8)")
    );
}

#[test]
fn test_parse_timestamp() {
    let ts = parse_timestamp("Saturday, May 2, 2026, 3:00 PM (UTC+8)").unwrap();
    assert_eq!(ts.offset_seconds, 8 * 3600);
}

#[test]
fn test_parse_user_blob_appends_at_root() {
    let blob = r#"{"role":"user","content":[{"type":"text","text":"Hello world"}]}"#;
    let mut state = ParseState::new();
    let ops = parse_blob(&fake_blob_id(), blob.to_string().as_bytes(), &mut state);

    assert!(
        append_ids(&ops)
            .iter()
            .any(|id| id.starts_with("user_msg:"))
    );
    assert!(all_appends_at_root(&ops));
    assert!(!has_container(&ops), "no turn containers should be emitted");
}

#[test]
fn test_parse_assistant_blob_emits_text_node() {
    let id = "b".repeat(64);
    let blob = r#"{"role":"assistant","content":[{"type":"text","text":"Hi there"}]}"#;
    let mut state = ParseState::new();
    let ops = parse_blob(&id, blob.to_string().as_bytes(), &mut state);

    assert!(append_ids(&ops).iter().any(|id| id.starts_with("text:")));
    assert!(all_appends_at_root(&ops));
    assert!(!has_container(&ops));
}

#[test]
fn test_tool_result_tags_call_and_appends_result() {
    let tc_id = "toolu_abc";
    let blob_id = "c".repeat(64);

    // Simulate having seen the tool-call leaf.
    let mut state = ParseState::new();
    state.pending_tool_calls.insert(
        tc_id.to_string(),
        parse_json(
            r#"{"type":"tool-call","toolName":"Read","toolCallId":"toolu_abc","args":{}}"#,
        )
        .unwrap(),
    );

    let tool_blob = r#"{"role":"tool","content":[{"type":"tool-result","toolName":"Read","toolCallId":"toolu_abc","result":"file content"}]}"#;
    let ops = parse_blob(&blob_id, tool_blob.to_string().as_bytes(), &mut state);
    assert!(ops.len() >= 2);

    // First op: Replace the ToolCall with call-only text and success tag.
    match &ops[0] {
        TreeOperation::Replace { id, message } => {
            assert_eq!(id, &format!("tool_call:{}", tc_id));
            assert_eq!(message.tag.as_deref(), Some("success"));
            assert!(
                !message
                    .text
                    .as_deref()
                    .unwrap_or("")
                    .contains("file content"),
                "ToolCall text should not include result"
            );
        }
        _ => panic!("expected Replace as first op"),
    }

    // Second op: Append ToolResult as child of ToolCall.
    match &ops[1] {
        TreeOperation::Append { parent_id, message } => {
            assert_eq!(
                parent_id.as_deref(),
                Some(format!("tool_call:{}", tc_id).as_str())
            );
            assert_eq!(message.message_type, MessageType::ToolResult);
            assert_eq!(message.tag.as_deref(), Some("success"));
            assert!(
                message
                    .text
                    .as_deref()
                    .unwrap_or("")
                    .contains("file content")
            );
        }
        _ => panic!("expected Append as second op"),
    }
}

#[test]
fn test_consecutive_user_blobs_both_append_at_root() {
    let mut state = ParseState::new();

    let u1 = r#"{"role":"user","content":"hello"}"#;
    let u1_id = "a".repeat(64);
    let u2 = r#"{"role":"user","content":"follow-up"}"#;
    let u2_id = "b".repeat(64);

    let mut ops = parse_blob(&u1_id, u1.to_string().as_bytes(), &mut state);
    ops.extend(parse_blob(&u2_id, u2.to_string().as_bytes(), &mut state));

    let ids = append_ids(&ops);
    assert_eq!(
        ids.len(),
        2,
        "back-to-back user messages must not be wrapped"
    );
    assert!(ids[0].starts_with("user_msg:a"));
    assert!(ids[1].starts_with("user_msg:b"));
    assert!(all_appends_at_root(&ops));
    assert!(!has_container(&ops));
}

/// A scripted round-trip: everything lands at root level, except tool results,
/// which nest under the tool call they answer.
#[test]
fn message_test_round_trip_emits_flat_tree() {
    let mut state = ParseState::new();
    let blobs = [
        (
            "a".repeat(64),
            r#"{"role":"user","content":"please read the file"}"#,
        ),
        (
            "b".repeat(64),
            r#"{"role":"assistant","content":[{"type":"text","text":"sure"},{"type":"tool-call","toolName":"Read","toolCallId":"tc1","args":{}}]}"#,
        ),
        (
            "c".repeat(64),
            r#"{"role":"tool","content":[{"type":"tool-result","toolName":"Read","toolCallId":"tc1","result":"contents"}]}"#,
        ),
        (
            "d".repeat(64),
            r#"{"role":"user","content":"thanks"}"#,
        ),
    ];

    let mut ops = Vec::new();
    for (id, blob) in &blobs {
        ops.extend(parse_blob(id, blob.to_string().as_bytes(), &mut state));
    }

    assert!(!has_container(&ops), "no turn containers should be emitted");
    for op in &ops {
        if let TreeOperation::Append { parent_id, message } = op {
            match parent_id.as_deref() {
                None => {}
                Some("tool_call:tc1") => {
                    assert_eq!(message.message_type, MessageType::ToolResult)
                }
                Some(other) => panic!("unexpected parent {other} for {}", message.id),
            }
        }
    }
}

#[test]
fn test_parse_pending_blob_first_call_emits_append() {
    let blob = r#"{"role":"assistant","content":[{"type":"text","text":"partial response"}]}"#;
    let mut state = ParseState::new();
    let ops = parse_pending_blob(blob.to_string().as_bytes(), &mut state);
    assert!(state.has_pending);
    let pending_op = ops.iter().find(|op| match op {
        TreeOperation::Append { message, .. } => message.id == "streaming:pending",
        _ => false,
    });
    assert!(
        pending_op.is_some(),
        "first call should emit Append for streaming:pending"
    );
    match pending_op.unwrap() {
        TreeOperation::Append { message, .. } => {
            assert_eq!(message.text.as_deref(), Some("partial response"));
        }
        _ => unreachable!(),
    }
}

#[test]
fn test_parse_pending_blob_second_call_emits_replace() {
    let blob = r#"{"role":"assistant","content":[{"type":"text","text":"updated response"}]}"#;
    let mut state = ParseState::new();
    state.has_pending = true;
    let ops = parse_pending_blob(blob.to_string().as_bytes(), &mut state);
    let replace_op = ops.iter().find(|op| {
        matches!(
            op, TreeOperation::Replace { id, .. } if id == "streaming:pending"
        )
    });
    assert!(
        replace_op.is_some(),
        "second call should emit Replace for streaming:pending"
    );
}

#[test]
fn test_parse_pending_blob_non_text_blocks_skipped() {
    // redacted-reasoning and tool-call have no displayable text in field 4.
    let blob = r#"{"role":"assistant","content":[{"type":"redacted-reasoning","data":"opaque"},{"type":"text","text":"visible text"}]}"#;
    let mut state = ParseState::new();
    let ops = parse_pending_blob(blob.to_string().as_bytes(), &mut state);
    let append_op = ops.iter().find(|op| match op {
        TreeOperation::Append { message, .. } => message.id == "streaming:pending",
        _ => false,
    });
    assert!(append_op.is_some());
    match append_op.unwrap() {
        TreeOperation::Append { message, .. } => {
            assert_eq!(message.text.as_deref(), Some("visible text"));
        }
        _ => unreachable!(),
    }
}

#[test]
fn test_parse_pending_blob_empty_content_no_append() {
    let blob = r#"{"role":"assistant","content":[{"type":"redacted-reasoning","data":"opaque"}]}"#;
    let mut state = ParseState::new();
    let ops = parse_pending_blob(blob.to_string().as_bytes(), &mut state);
    assert!(
        !state.has_pending,
        "has_pending should stay false when content is empty"
    );
    assert!(
        !ops.iter().any(|op| matches!(op, TreeOperation::Append { message, .. } if message.id == "streaming:pending")),
        "no Append for streaming:pending when content is empty"
    );
}

#[test]
fn test_parse_pending_blob_empty_content_removes_existing() {
    let blob = r#"{"role":"assistant","content":[{"type":"redacted-reasoning","data":"opaque"}]}"#;
    let mut state = ParseState::new();
    state.has_pending = true;
    let ops = parse_pending_blob(blob.to_string().as_bytes(), &mut state);
    assert!(
        !state.has_pending,
        "has_pending cleared when content goes empty"
    );
    assert!(
        ops.iter()
            .any(|op| matches!(op, TreeOperation::Remove { id } if id == "streaming:pending")),
        "Remove emitted for streaming:pending when content becomes empty"
    );
}

#[test]
fn test_summary_blob_gets_tag_and_brief() {
    let blob = r#"{"role":"user","providerOptions":{"cursor":{"isSummary":true}},"content":"Your conversation was summarized due to context constraints."}"#;
    let mut state = ParseState::new();
    let ops = parse_blob(&fake_blob_id(), blob.to_string().as_bytes(), &mut state);
    let user_msg = ops.iter().find_map(|op| match op {
        TreeOperation::Append { message, .. } if message.id.starts_with("user_msg:") => {
            Some(message)
        }
        _ => None,
    });
    let msg = user_msg.unwrap();
    assert_eq!(msg.tag.as_deref(), Some("summary"));
    assert_eq!(msg.brief.as_deref(), Some("[Conversation summary]"));
    assert!(
        !msg.hidden.is_hidden(),
        "summary message should not be hidden"
    );
}

#[test]
fn test_non_summary_user_blob_unaffected() {
    let blob = r#"{"role":"user","content":[{"type":"text","text":"Hello world"}]}"#;
    let mut state = ParseState::new();
    let ops = parse_blob(&fake_blob_id(), blob.to_string().as_bytes(), &mut state);
    let user_msg = ops.iter().find_map(|op| match op {
        TreeOperation::Append { message, .. } if message.id.starts_with("user_msg:") => {
            Some(message)
        }
        _ => None,
    });
    let msg = user_msg.unwrap();
    assert!(
        msg.tag.as_deref() != Some("summary"),
        "regular user message should not have summary tag"
    );
    assert!(
        msg.brief.is_none(),
        "regular user message should have no brief override"
    );
}


