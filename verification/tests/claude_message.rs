use std::collections::{HashMap, HashSet};

use agt::claude::message::{parse_entry, ParseState};
use agt::json::parse_json;
use agt::tree::{MessageType, TreeOperation};
fn append_ids(ops: &[TreeOperation]) -> Vec<String> {
    ops.iter()
        .filter_map(|op| match op {
            TreeOperation::Append { message, .. } => Some(message.id.clone()),
            _ => None,
        })
        .collect()
}

fn all_appends_at_root(ops: &[TreeOperation]) -> bool {
    ops.iter().all(|op| match op {
        TreeOperation::Append { parent_id, .. } => parent_id.is_none(),
        _ => true,
    })
}

fn has_container(ops: &[TreeOperation]) -> bool {
    ops.iter().any(|op| match op {
        TreeOperation::Append { message, .. } => message.message_type == MessageType::Container,
        _ => false,
    })
}

#[test]
fn test_plain_user_message_appends_at_root() {
    let entry = r#"{"type":"user","uuid":"uuid-001","parentUuid":null,"isSidechain":false,"message":{"role":"user","content":"Hello world"}}"#
    .to_string();

    let mut state = ParseState::default();
    let ops = parse_entry(&entry, &mut state).unwrap();

    let ids: Vec<_> = ops
        .iter()
        .filter_map(|op| match op {
            TreeOperation::Append { message, .. } => Some(message.id.clone()),
            _ => None,
        })
        .collect();

    assert!(ids.iter().any(|id| id.starts_with("user_msg:")));
    assert!(
        all_appends_at_root(&ops),
        "user message should be appended at root level"
    );
    assert!(!has_container(&ops), "no Container nodes should be emitted");
}

#[test]
fn test_user_message_visible_by_default() {
    let entry = r#"{"type":"user","uuid":"uuid-002","parentUuid":null,"message":{"role":"user","content":"Real message"}}"#
    .to_string();

    let mut state = ParseState::default();
    let ops = parse_entry(&entry, &mut state).unwrap();

    let user_msg = ops.iter().find_map(|op| match op {
        TreeOperation::Append { message, .. } if message.id.starts_with("user_msg:") => {
            Some(message)
        }
        _ => None,
    });
    assert!(!user_msg.unwrap().hidden.is_hidden());
}

#[test]
fn test_meta_user_message_hidden() {
    let entry = r#"{"type":"user","uuid":"uuid-003","parentUuid":null,"isMeta":true,"message":{"role":"user","content":"<local-command-caveat>caveat</local-command-caveat>"}}"#
    .to_string();

    let mut state = ParseState::default();
    let ops = parse_entry(&entry, &mut state).unwrap();

    let user_msg = ops.iter().find_map(|op| match op {
        TreeOperation::Append { message, .. } if message.id.starts_with("user_msg:") => {
            Some(message)
        }
        _ => None,
    });
    assert!(user_msg.unwrap().hidden.is_hidden());
}

#[test]
fn test_assistant_text_block() {
    let entry = r#"{"type":"assistant","uuid":"uuid-a01","parentUuid":"uuid-001","message":{"role":"assistant","id":"msg_001","content":[{"type":"text","text":"Hi there"}]}}"#
    .to_string();

    let mut state = ParseState::default();

    let ops = parse_entry(&entry, &mut state).unwrap();
    let ids: Vec<_> = ops
        .iter()
        .filter_map(|op| match op {
            TreeOperation::Append { message, .. } => Some(message.id.clone()),
            _ => None,
        })
        .collect();
    assert!(ids.iter().any(|id| id.starts_with("text:")));
}

#[test]
fn test_assistant_thinking_block() {
    let entry = r#"{"type":"assistant","uuid":"uuid-a02","parentUuid":"uuid-001","message":{"role":"assistant","id":"msg_002","content":[{"type":"thinking","thinking":"I'm thinking"}]}}"#
    .to_string();

    let mut state = ParseState::default();

    let ops = parse_entry(&entry, &mut state).unwrap();
    let msg = ops.iter().find_map(|op| match op {
        TreeOperation::Append { message, .. } if message.id.starts_with("thinking:") => {
            Some(message)
        }
        _ => None,
    });
    assert!(msg.is_some());
    assert_eq!(msg.unwrap().message_type, MessageType::Thinking);
}

#[test]
fn test_tool_call_emitted() {
    let entry = r#"{"type":"assistant","uuid":"uuid-a03","parentUuid":"uuid-001","message":{"role":"assistant","id":"msg_003","content":[{"type":"tool_use","id":"toolu_abc","name":"Bash","input":{"command":"ls"}}]}}"#
    .to_string();

    let mut state = ParseState::default();

    let ops = parse_entry(&entry, &mut state).unwrap();
    let tool_op = ops.iter().find_map(|op| match op {
        TreeOperation::Append { message, .. } if message.id == "tool_call:toolu_abc" => {
            Some(message)
        }
        _ => None,
    });
    assert!(tool_op.is_some());
    assert!(state.pending_tool_calls.contains_key("toolu_abc"));
}

#[test]
fn test_tool_result_replaces_call_and_appends_result() {
    let mut state = ParseState::default();
    state.pending_tool_calls.insert(
        "toolu_abc".to_string(),
        parse_json(r#"{"type":"tool_use","id":"toolu_abc","name":"Bash","input":{"command":"ls"}}"#).unwrap(),
    );

    let entry = r#"{"type":"user","uuid":"uuid-tr01","parentUuid":"uuid-a03","message":{"role":"user","content":[{"tool_use_id":"toolu_abc","type":"tool_result","content":"file1.txt\nfile2.txt","is_error":false}]}}"#
    .to_string();

    let ops = parse_entry(&entry, &mut state).unwrap();
    assert!(!ops.is_empty());

    // First op: Replace the ToolCall node (call text only, tagged success).
    match &ops[0] {
        TreeOperation::Replace { id, message } => {
            assert_eq!(id, "tool_call:toolu_abc");
            assert_eq!(message.tag.as_deref(), Some("success"));
            assert!(
                !message.text.as_deref().unwrap_or("").contains("file1.txt"),
                "ToolCall text should be call-only, not merged with result"
            );
        }
        _ => panic!("expected Replace as first op"),
    }

    // Second op: Append ToolResult as child of ToolCall.
    match &ops[1] {
        TreeOperation::Append { parent_id, message } => {
            assert_eq!(parent_id.as_deref(), Some("tool_call:toolu_abc"));
            assert_eq!(message.message_type, MessageType::ToolResult);
            assert_eq!(message.tag.as_deref(), Some("success"));
            assert!(message.text.as_deref().unwrap_or("").contains("file1.txt"));
        }
        _ => panic!("expected Append as second op"),
    }
}

#[test]
fn test_consecutive_user_messages_both_append_at_root() {
    let mut state = ParseState::default();

    let u1 = r#"{"type":"user","uuid":"u1","parentUuid":null,"message":{"role":"user","content":"hello"}}"#
    .to_string();
    let u2 = r#"{"type":"user","uuid":"u2","parentUuid":"u1","message":{"role":"user","content":"follow up"}}"#
    .to_string();

    let mut ops = parse_entry(&u1, &mut state).unwrap();
    ops.extend(parse_entry(&u2, &mut state).unwrap());

    assert_eq!(
        append_ids(&ops),
        vec!["user_msg:u1", "user_msg:u2"],
        "back-to-back user messages must not be split or wrapped"
    );
    assert!(all_appends_at_root(&ops));
    assert!(!has_container(&ops));
}

#[test]
fn test_tool_result_nests_under_its_tool_call() {
    let mut state = ParseState::default();
    state.pending_tool_calls.insert(
        "toolu_xyz".to_string(),
        parse_json(r#"{"type":"tool_use","id":"toolu_xyz","name":"Read","input":{}}"#).unwrap(),
    );

    let entry = r#"{"type":"user","uuid":"tr-uuid","parentUuid":"some-parent","message":{"role":"user","content":[{"tool_use_id":"toolu_xyz","type":"tool_result","content":"ok"}]}}"#
    .to_string();

    let ops = parse_entry(&entry, &mut state).unwrap();

    // A tool result is not a new user prompt: it produces no root-level node.
    for op in &ops {
        if let TreeOperation::Append { parent_id, .. } = op {
            assert_eq!(parent_id.as_deref(), Some("tool_call:toolu_xyz"));
        }
    }
    assert!(!has_container(&ops));
}

/// A scripted round-trip: everything the agent emits lands at root level, except
/// tool results, which nest under the tool call they answer.
#[test]
fn test_round_trip_emits_flat_tree() {
    let mut state = ParseState::default();
    let entries = [
        r#"{"type":"user","uuid":"rt-u1","parentUuid":null,"message":{"role":"user","content":"please read the file"}}"#,
        r#"{"type":"assistant","uuid":"rt-a1","parentUuid":"rt-u1","message":{"role":"assistant","id":"rt_msg1","content":[{"type":"text","text":"sure"},{"type":"tool_use","id":"rt_tool","name":"Read","input":{}}]}}"#,
        r#"{"type":"user","uuid":"rt-tr","parentUuid":"rt-a1","message":{"role":"user","content":[{"type":"tool_result","tool_use_id":"rt_tool","content":"contents"}]}}"#,
        r#"{"type":"user","uuid":"rt-u2","parentUuid":"rt-tr","message":{"role":"user","content":"thanks"}}"#,
    ];

    let mut ops = Vec::new();
    for entry in &entries {
        ops.extend(parse_entry(&entry.to_string(), &mut state).unwrap());
    }

    assert!(!has_container(&ops), "no turn containers should be emitted");
    for op in &ops {
        if let TreeOperation::Append { parent_id, message } = op {
            match parent_id.as_deref() {
                None => {}
                Some("tool_call:rt_tool") => {
                    assert_eq!(message.message_type, MessageType::ToolResult)
                }
                Some(other) => panic!("unexpected parent {other} for {}", message.id),
            }
        }
    }
}

#[test]
fn test_subagent_prefix_still_flattens() {
    let entry = r#"{"type":"user","uuid":"sa-uuid-001","parentUuid":null,"message":{"role":"user","content":"do something"}}"#
    .to_string();

    let mut state = ParseState {
        id_prefix: "sa:abc:".to_string(),
        ..Default::default()
    };
    let ops = parse_entry(&entry, &mut state).unwrap();

    assert_eq!(append_ids(&ops), vec!["sa:abc:user_msg:sa-uuid-001"]);
    assert!(all_appends_at_root(&ops));
    assert!(!has_container(&ops));
}

#[test]
fn test_assistant_blocks_append_at_root() {
    let entry = r#"{"type":"assistant","uuid":"sa-a01","parentUuid":"sa-uuid-001","message":{"role":"assistant","id":"sa-msg-001","content":[{"type":"thinking","thinking":"hmm"},{"type":"text","text":"result"}]}}"#
    .to_string();

    let mut state = ParseState {
        id_prefix: "sa:abc:".to_string(),
        ..Default::default()
    };
    let ops = parse_entry(&entry, &mut state).unwrap();

    assert!(!has_container(&ops));
    assert!(all_appends_at_root(&ops));

    let thinking_id = "sa:abc:thinking:sa-msg-001:0";
    let text_id = "sa:abc:text:sa-msg-001:1";
    let ids: Vec<_> = ops
        .iter()
        .filter_map(|op| match op {
            TreeOperation::Append { message, .. } => Some(message.id.clone()),
            _ => None,
        })
        .collect();
    assert!(ids.contains(&thinking_id.to_string()));
    assert!(ids.contains(&text_id.to_string()));
}

#[test]
fn test_duplicate_uuid_emits_replace() {
    let entry = r#"{"type":"user","uuid":"dup-uuid","parentUuid":null,"message":{"role":"user","content":"hello again"}}"#
    .to_string();

    let mut state = ParseState::default();
    // Pre-populate as if already seen
    state.seen_uuids.insert("dup-uuid".to_string());

    let ops = parse_entry(&entry, &mut state).unwrap();
    let has_replace = ops
        .iter()
        .any(|op| matches!(op, TreeOperation::Replace { .. }));
    assert!(has_replace, "duplicate uuid should emit Replace");
}

#[test]
fn test_duplicate_block_id_emits_replace() {
    let mut state = ParseState::default();
    // Pre-populate as if the block was already appended to the tree.
    state.seen_block_ids.insert("text:msg_dup:0".to_string());

    let entry = r#"{"type":"assistant","uuid":"new-uuid","parentUuid":"prev","message":{"role":"assistant","id":"msg_dup","content":[{"type":"text","text":"updated text"}]}}"#
    .to_string();

    let ops = parse_entry(&entry, &mut state).unwrap();
    let has_replace = ops
        .iter()
        .any(|op| matches!(op, TreeOperation::Replace { id, .. } if id.starts_with("text:")));
    assert!(has_replace, "already-seen block id should emit Replace");
}

#[test]
fn test_split_msg_id_appends_new_blocks() {
    // Thinking and text come as separate entries sharing a message id.
    // The second entry (text-only) must be Append'd, not Replace'd.
    let mut state = ParseState::default();

    let thinking_entry = r#"{"type":"assistant","uuid":"uuid-a","parentUuid":"uuid-user","message":{"role":"assistant","id":"msg_shared","content":[{"type":"thinking","thinking":"hmm"}]}}"#
    .to_string();

    let text_entry = r#"{"type":"assistant","uuid":"uuid-b","parentUuid":"uuid-a","message":{"role":"assistant","id":"msg_shared","content":[{"type":"text","text":"answer"}]}}"#
    .to_string();

    parse_entry(&thinking_entry, &mut state).unwrap();
    let ops = parse_entry(&text_entry, &mut state).unwrap();

    let text_appended = ops.iter().any(|op| match op {
        TreeOperation::Append { message, .. } => message.id == "text:msg_shared:0",
        _ => false,
    });
    assert!(
        text_appended,
        "text block on second entry with same msg_id must be Append'd"
    );
}

#[test]
fn test_agent_tool_result_expands_subagent() {
    let tool_use_id = "toolu_agent_test";

    let mut state = ParseState::default();
    state.pending_tool_calls.insert(
        tool_use_id.to_string(),
        parse_json(r#"{"type":"tool_use","id":"toolu_agent_test","name":"Agent","input":{"description":"do the thing","prompt":"..."}}"#).unwrap(),
    );

    let entry = r#"{"type":"user","uuid":"result-uuid","parentUuid":"prev","toolUseResult":{"agentId":"deadbeef1234","content":[{"type":"text","text":"Final result from agent"}]},"message":{"role":"user","content":[{"type":"tool_result","tool_use_id":"toolu_agent_test","content":"Final result from agent"}]}}"#
    .to_string();

    let ops = parse_entry(&entry, &mut state).unwrap();

    let append_op = ops.iter().find(|op| {
        matches!(op, TreeOperation::Append { parent_id: Some(p), .. } if p == &format!("tool_call:{}", tool_use_id))
    });
    assert!(
        append_op.is_some(),
        "should emit Append on tool_call node; got {} ops",
        ops.len()
    );

    if let Some(TreeOperation::Append { message, .. }) = append_op {
        assert_eq!(message.message_type, MessageType::TaskSummary);
        assert!(message.indent_children);

        assert!(
            message
                .text
                .as_deref()
                .unwrap_or("")
                .contains("Final result"),
            "task_summary should carry the result text"
        );
    }
}

#[test]
fn test_rewind_initial_read_excludes_abandoned_branch() {
    // Two branches from the same parent, simulating a rewind
    let line_a = r#"{"type":"user","uuid":"root","parentUuid":null,"message":{"role":"user","content":"hi"}}"#
    .to_string();
    let line_b1 = r#"{"type":"user","uuid":"branch1","parentUuid":"root","message":{"role":"user","content":"old message"}}"#
    .to_string();
    let line_b2 = r#"{"type":"user","uuid":"branch2","parentUuid":"root","message":{"role":"user","content":"new message after rewind"}}"#
    .to_string();

    // Build parent_of as the two-pass reader would
    let mut parent_of = HashMap::new();
    let mut last_uuid = None;
    for line in [&line_a, &line_b1, &line_b2] {
        if let Some(obj) = parse_json(line) {
            if let Some(uuid) = obj.get_str("uuid") {
                parent_of.insert(
                    uuid.to_string(),
                    obj.get_str("parentUuid").map(|s| s.to_string()),
                );
                last_uuid = Some(uuid.to_string());
            }
        }
    }

    // Build active_path by tracing backward from last_uuid to root
    let mut active_path: HashSet<String> = HashSet::new();
    if let Some(ref last) = last_uuid {
        let mut current = Some(last.as_str());
        while let Some(uuid) = current {
            active_path.insert(uuid.to_string());
            current = parent_of.get(uuid).and_then(|p| p.as_deref());
        }
    }

    assert!(active_path.contains("root"));
    assert!(
        !active_path.contains("branch1"),
        "abandoned branch1 must be excluded"
    );
    assert!(
        active_path.contains("branch2"),
        "post-rewind branch2 must be included"
    );
}

#[test]
fn test_task_notification_shows_summary_and_updates_task_summary_node() {
    let mut state = ParseState::default();

    let tool_use_id = "toolu_async_001";
    let notification_content = format!(
        "<task-notification>\n\
         <task-id>agent123</task-id>\n\
         <tool-use-id>{tool_use_id}</tool-use-id>\n\
         <status>completed</status>\n\
         <summary>Agent \"My task\" completed</summary>\n\
         <result>The actual result content here.</result>\n\
         </task-notification>"
    );

    let entry = format!(
        r#"{{"type":"user","uuid":"notif-uuid","parentUuid":"prev","message":{{"role":"user","content":"{}"}}}}"#,
        notification_content.replace('"', "\\\"").replace('\n', "\\n")
    );

    let ops = parse_entry(&entry, &mut state).unwrap();

    // Should produce a UserMessage with just the summary text.
    let user_msg = ops.iter().find_map(|op| match op {
        TreeOperation::Append { message, .. } if message.id.starts_with("user_msg:") => {
            Some(message)
        }
        _ => None,
    });
    assert!(user_msg.is_some(), "should emit a UserMessage");
    assert_eq!(
        user_msg.unwrap().text.as_deref(),
        Some("Agent \"My task\" completed"),
        "user message text should be the summary"
    );

    // Should also emit a Replace for the TaskSummary node.
    let append_op = ops.iter().find(|op| {
        matches!(op, TreeOperation::Replace { message, .. }
        if message.id == format!("task_summary:{tool_use_id}"))
    });
    assert!(
        append_op.is_some(),
        "should emit Replace for task_summary:{tool_use_id}"
    );

    if let Some(TreeOperation::Replace { message, .. }) = append_op {
        assert_eq!(
            message.text.as_deref(),
            Some("The actual result content here."),
            "task_summary should contain the <result> text"
        );
        assert_eq!(message.message_type, MessageType::TaskSummary);
    }
}

#[test]
fn test_compaction_summary_user_gets_tag() {
    let boundary_uuid = "boundary-001";

    let mut state = ParseState::default();
    state
        .compact_boundary_uuids
        .insert(boundary_uuid.to_string());

    let entry = r#"{"type":"user","uuid":"summary-001","parentUuid":"boundary-001","message":{"role":"user","content":"This session is being continued from a previous conversation. Summary: ..."}}"#
    .to_string();

    let ops = parse_entry(&entry, &mut state).unwrap();

    let user_msg = ops.iter().find_map(|op| match op {
        TreeOperation::Append { message, .. } if message.id.starts_with("user_msg:") => {
            Some(message)
        }
        _ => None,
    });
    let msg = user_msg.expect("should emit a user message node");
    assert_eq!(
        msg.tag.as_deref(),
        Some("summary"),
        "should have summary tag"
    );
    assert_eq!(
        msg.brief.as_deref(),
        Some("[Conversation summary]"),
        "should have compaction summary brief"
    );
}


#[test]
fn test_attachment_file_emits_user_message_with_tag() {
    let entry = r#"{"type":"attachment","uuid":"att-uuid-001","parentUuid":null,"attachment":{"type":"file","filename":"/home/user/project/src/main.rs","displayPath":"src/main.rs","content":{"type":"text"}}}"#
    .to_string();

    let mut state = ParseState::default();
    let ops = parse_entry(&entry, &mut state).unwrap();

    let att_msg = ops.iter().find_map(|op| match op {
        TreeOperation::Append { message, .. } if message.id == "attachment:att-uuid-001" => {
            Some(message)
        }
        _ => None,
    });
    let msg = att_msg.expect("should emit attachment node");
    assert_eq!(msg.message_type, MessageType::UserMessage);
    assert_eq!(msg.tag.as_deref(), Some("attachment"));
    assert!(
        msg.text
            .as_deref()
            .unwrap_or("")
            .starts_with("[File: src/main.rs]"),
        "should use [File: displayPath] label"
    );
}

#[test]
fn test_attachment_appends_at_root() {
    let entry = r#"{"type":"attachment","uuid":"att-uuid-002","parentUuid":null,"attachment":{"type":"task_reminder","content":[],"itemCount":0}}"#
    .to_string();

    let mut state = ParseState::default();
    let ops = parse_entry(&entry, &mut state).unwrap();

    assert_eq!(append_ids(&ops), vec!["attachment:att-uuid-002"]);
    assert!(all_appends_at_root(&ops));
    assert!(!has_container(&ops));
}

#[test]
fn test_attachment_duplicate_uuid_emits_replace() {
    let mut state = ParseState::default();
    state.seen_uuids.insert("att-dup".to_string());

    let entry = r#"{"type":"attachment","uuid":"att-dup","parentUuid":null,"attachment":{"type":"task_reminder","itemCount":0}}"#
    .to_string();

    let ops = parse_entry(&entry, &mut state).unwrap();
    let has_replace = ops.iter().any(
        |op| matches!(op, TreeOperation::Replace { id, .. } if id == "attachment:att-dup"),
    );
    assert!(has_replace, "duplicate attachment uuid should emit Replace");
}

#[test]
fn test_attachment_deferred_tools_label() {
    let entry = r#"{"type":"attachment","uuid":"att-uuid-dt","parentUuid":null,"attachment":{"type":"deferred_tools_delta","addedNames":["TaskCreate","TaskUpdate","WebSearch"],"removedNames":[]}}"#
    .to_string();

    let mut state = ParseState::default();
    let ops = parse_entry(&entry, &mut state).unwrap();
    let msg = ops.iter().find_map(|op| match op {
        TreeOperation::Append { message, .. } if message.id == "attachment:att-uuid-dt" => {
            Some(message)
        }
        _ => None,
    });
    let text = msg.unwrap().text.as_deref().unwrap_or("");
    assert!(
        text.starts_with("[Tools: +"),
        "deferred_tools_delta label should start with '[Tools: +', got: {text}"
    );
}

#[test]
fn test_attachment_unknown_type_uses_type_verbatim() {
    let entry = r#"{"type":"attachment","uuid":"att-uuid-unk","parentUuid":null,"attachment":{"type":"some_future_type"}}"#
    .to_string();

    let mut state = ParseState::default();
    let ops = parse_entry(&entry, &mut state).unwrap();
    let msg = ops.iter().find_map(|op| match op {
        TreeOperation::Append { message, .. } if message.id == "attachment:att-uuid-unk" => {
            Some(message)
        }
        _ => None,
    });
    assert_eq!(
        msg.unwrap().text.as_deref(),
        Some("[some_future_type]"),
        "unknown type should be wrapped in brackets"
    );
}

#[test]
fn test_attachment_with_subagent_prefix_at_root() {
    let entry = r#"{"type":"attachment","uuid":"att-sa-001","parentUuid":null,"attachment":{"type":"skill_listing","skillCount":5}}"#
    .to_string();

    let mut state = ParseState {
        id_prefix: "sa:xyz:".to_string(),
        ..Default::default()
    };
    let ops = parse_entry(&entry, &mut state).unwrap();

    assert_eq!(append_ids(&ops), vec!["sa:xyz:attachment:att-sa-001"]);
    assert!(all_appends_at_root(&ops));
    assert!(!has_container(&ops));
}

#[test]
fn test_non_compaction_user_unaffected() {
    let mut state = ParseState::default();
    state
        .compact_boundary_uuids
        .insert("boundary-001".to_string());

    let entry = r#"{"type":"user","uuid":"regular-001","parentUuid":"some-other-parent","message":{"role":"user","content":"A normal user message"}}"#
    .to_string();

    let ops = parse_entry(&entry, &mut state).unwrap();

    let user_msg = ops.iter().find_map(|op| match op {
        TreeOperation::Append { message, .. } if message.id.starts_with("user_msg:") => {
            Some(message)
        }
        _ => None,
    });
    let msg = user_msg.expect("should emit a user message node");
    assert_ne!(
        msg.tag.as_deref(),
        Some("summary"),
        "regular user message must not get summary tag"
    );
    assert!(
        msg.brief.is_none(),
        "regular user message must not get a brief"
    );
}


