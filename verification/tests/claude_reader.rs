use std::collections::BTreeMap;

use agt::claude::message::ParseStep;
use agt::claude::reader::{ClaudeReader, ReadError, ReaderStep};
use agt::claude::subagent::{agent_of_file, ClaudeSubagentManager};
use agt::tree::{ReaderOp, TreeOperation};

/// A session's transcript and its agents' files, with what reads them.
struct Session {
    file: Vec<u8>,
    agents: BTreeMap<String, Vec<u8>>,
    reader: ClaudeReader,
    manager: ClaudeSubagentManager,
}

impl Session {
    fn new() -> Session {
        Session::with(false, 0)
    }

    fn with(waterfall: bool, initial_loaded: usize) -> Session {
        Session {
            file: Vec::new(),
            agents: BTreeMap::new(),
            reader: ClaudeReader::new(waterfall, initial_loaded),
            manager: ClaudeSubagentManager::new(),
        }
    }

    fn append(&mut self, line: &str) {
        self.file.extend_from_slice(line.as_bytes());
        self.file.push(b'\n');
    }

    fn append_agent(&mut self, name: &str, line: &str) {
        let file = self.agents.entry(name.to_string()).or_default();
        file.extend_from_slice(line.as_bytes());
        file.push(b'\n');
    }

    fn write_meta(&mut self, agent_id: &str, description: &str) -> Vec<ReaderOp> {
        let name = format!("agent-{agent_id}.meta.json");
        let text = format!("{{\"description\":\"{description}\"}}\n");
        self.agents.insert(name.clone(), text.into_bytes());
        self.agent_changed(&name)
    }

    fn read_agent(&mut self, agent_id: &str) -> Vec<ReaderOp> {
        let file = self.agents.get(&format!("agent-{agent_id}.jsonl")).cloned();
        let ops = self.manager.read_subagent_jsonl(agent_id, file.as_deref()).unwrap();
        ops.into_iter().map(ReaderOp::Tree).collect()
    }

    /// What a change of an agent's file gives.
    fn agent_changed(&mut self, name: &str) -> Vec<ReaderOp> {
        let Some(id) = agent_of_file(name) else {
            return vec![];
        };
        let text = self.agents.get(name).and_then(|b| String::from_utf8(b.clone()).ok());
        let file = self.agents.get(&format!("agent-{id}.jsonl")).cloned();
        let ops = self.manager.on_subagent_event(name, text.as_deref(), file.as_deref()).unwrap();
        ops.into_iter().map(ReaderOp::Tree).collect()
    }

    fn scan_agents(&mut self) -> Vec<ReaderOp> {
        let names: Vec<String> =
            self.agents.keys().filter(|n| n.ends_with(".jsonl")).cloned().collect();
        names.iter().flat_map(|n| self.agent_changed(n)).collect()
    }

    fn agent_tool(&mut self, tool_use_id: &str, value: &str, is_result: bool) -> Vec<ReaderOp> {
        if is_result {
            if self.manager.on_subagent_tool_result(tool_use_id, value) {
                return self.read_agent(value);
            }
        } else if let Some(id) = self.manager.on_subagent_tool_use(tool_use_id, value) {
            return self.read_agent(&id);
        }
        vec![]
    }

    /// The first reading.
    fn start(&mut self) -> Vec<ReaderOp> {
        let file = self.file.clone();
        let read = self.reader.do_initial_read(&file);
        assert_eq!(read.error, None);
        let mut ops = Vec::new();
        for step in read.steps {
            match step {
                ParseStep::Op(op) => ops.push(ReaderOp::Tree(op)),
                ParseStep::AgentTool { tool_use_id, value, is_result } => {
                    ops.extend(self.agent_tool(&tool_use_id, &value, is_result));
                }
            }
        }
        ops.extend(self.scan_agents());
        ops
    }

    /// What a change of the transcript gives.
    fn changed(&mut self) -> Vec<ReaderOp> {
        let file = self.file.clone();
        let read = self.reader.handle_main_event(&file);
        assert_eq!(read.error, None);
        let mut ops = Vec::new();
        for step in read.steps {
            match step {
                ReaderStep::Emit(op) => ops.push(op),
                ReaderStep::AgentTool { tool_use_id, value, is_result, quiet } => {
                    let more = self.agent_tool(&tool_use_id, &value, is_result);
                    if !quiet {
                        ops.extend(more);
                    }
                }
                ReaderStep::ClearAgents => self.manager.clear(),
                ReaderStep::ScanAgents => ops.extend(self.scan_agents()),
            }
        }
        ops
    }
}

fn op_summary(ops: &[ReaderOp]) -> Vec<String> {
    ops.iter()
        .map(|op| match op {
            ReaderOp::Tree(TreeOperation::Append { parent_id, message }) => {
                format!("Append({}, parent={:?})", message.id, parent_id.as_deref())
            }
            ReaderOp::Tree(TreeOperation::Replace { id, message }) => {
                format!("Replace({}, text={:?})", id, message.text.as_deref())
            }
            ReaderOp::Tree(TreeOperation::Remove { id }) => format!("Remove({})", id),
            ReaderOp::Tree(TreeOperation::Update { id, .. }) => format!("Update({})", id),
            ReaderOp::Reset { id } => format!("Reset({:?})", id),
            ReaderOp::ResetDone => "ResetDone".to_string(),
        })
        .collect()
}

fn is_reset(op: &ReaderOp) -> bool {
    matches!(op, ReaderOp::Reset { .. })
}

fn appends(op: &ReaderOp, id: &str) -> bool {
    matches!(op, ReaderOp::Tree(TreeOperation::Append { message, .. }) if message.id == id)
}

fn appends_like(op: &ReaderOp, part: &str) -> bool {
    matches!(op, ReaderOp::Tree(TreeOperation::Append { message, .. }) if message.id.contains(part))
}

fn appends_under(op: &ReaderOp, parent: &str) -> bool {
    matches!(op, ReaderOp::Tree(TreeOperation::Append { parent_id: Some(p), .. }) if p == parent)
}

const ROOT: &str =
    r#"{"type":"user","uuid":"root","parentUuid":null,"message":{"role":"user","content":"hello"}}"#;
const ASST_A: &str = r#"{"type":"assistant","uuid":"asst-a","parentUuid":"root","message":{"id":"msg_asst_a","role":"assistant","content":[{"type":"tool_use","id":"tu-1","name":"Read","input":{}}]}}"#;
const ASST_B: &str = r#"{"type":"assistant","uuid":"asst-b","parentUuid":"asst-a","message":{"id":"msg_asst_b","role":"assistant","content":[{"type":"tool_use","id":"tu-2","name":"Read","input":{}}]}}"#;
const RESULT_1: &str = r#"{"type":"user","uuid":"result-1","parentUuid":"asst-a","message":{"role":"user","content":[{"type":"tool_result","tool_use_id":"tu-1","content":"file A"}]}}"#;
const RESULT_2: &str = r#"{"type":"user","uuid":"result-2","parentUuid":"asst-b","message":{"role":"user","content":[{"type":"tool_result","tool_use_id":"tu-2","content":"file B"}]}}"#;
const ASST_FINAL: &str = r#"{"type":"assistant","uuid":"asst-final","parentUuid":"result-2","message":{"id":"msg_asst_final","role":"assistant","content":[{"type":"text","text":"done"}]}}"#;

/// Writing a rewind entry to a live-watched transcript must emit a Reset op.
#[test]
fn test_rewind_live_watch_emits_reset() {
    let mut s = Session::new();
    // Initial content: root → branch1
    s.append(ROOT);
    s.append(r#"{"type":"user","uuid":"branch1","parentUuid":"root","message":{"role":"user","content":"original message"}}"#);

    let initial_ops = s.start();
    assert!(!initial_ops.is_empty(), "should produce ops from initial read");
    assert!(!initial_ops.iter().any(is_reset), "no Reset expected in initial read");

    // A rewind line: branch2 has the same parent as branch1 (root), not branch1 itself.
    s.append(r#"{"type":"user","uuid":"branch2","parentUuid":"root","message":{"role":"user","content":"message after rewind"}}"#);
    let post_ops = s.changed();
    let op_names = op_summary(&post_ops);

    assert!(
        post_ops.iter().any(is_reset),
        "rewind should produce a Reset op; got: {:?}",
        op_names
    );

    // After Reset there should be re-emitted ops for the active (post-rewind) path.
    let reset_pos = post_ops.iter().position(is_reset).unwrap();
    assert!(
        post_ops.len() > reset_pos + 1,
        "ops after Reset should include re-emitted content; got: {:?}",
        op_names
    );
    assert_eq!(post_ops[reset_pos], ReaderOp::Reset { id: Some("branch2".to_string()) });
    assert_eq!(post_ops.last(), Some(&ReaderOp::ResetDone));
}

/// Parallel tool calls: assistant_A (tool_use_1) → assistant_B (tool_use_2, parent=A), then
/// tool_result_1 arrives with parent=A (before result_2). This must NOT trigger a rewind; the
/// stream must continue normally after result_2.
#[test]
fn test_parallel_tool_results_no_false_rewind() {
    let mut s = Session::new();
    s.append(ROOT);
    s.append(ASST_A);
    s.append(ASST_B);

    let initial_ops = s.start();
    assert!(!initial_ops.is_empty(), "should produce ops from initial read");
    assert!(!initial_ops.iter().any(is_reset), "no Reset expected in initial read");

    // tool_result_1 (parent=asst-a, i.e. NOT the chain tail asst-b).
    s.append(RESULT_1);
    let after_result1 = s.changed();
    assert!(
        !after_result1.iter().any(is_reset),
        "parallel tool_result_1 (parent=asst-a, not tail) must NOT emit Reset; got: {:?}",
        op_summary(&after_result1)
    );

    // Now tool_result_2 (parent=asst-b) and an assistant continuation.
    s.append(RESULT_2);
    s.append(ASST_FINAL);
    let after_result2 = s.changed();
    assert!(
        !after_result2.iter().any(is_reset),
        "no Reset after result_2 or final assistant"
    );
    assert!(
        after_result2.iter().any(|op| appends_like(op, "msg_asst_final")),
        "final assistant node should be streamed after parallel results; got: {:?}",
        op_summary(&after_result2)
    );
}

/// Initial read: a parallel tool_result (parent=asst-a, not on the active path) must still be
/// emitted so its tool_call node gets resolved and the result appears.
#[test]
fn test_initial_read_includes_parallel_tool_results() {
    let mut s = Session::new();
    for line in [ROOT, ASST_A, ASST_B, RESULT_1, RESULT_2, ASST_FINAL] {
        s.append(line);
    }

    let ops = s.start();
    let op_ids = op_summary(&ops);

    assert!(
        ops.iter().any(|op| appends(op, "tool_result:tu-1")),
        "parallel tool_result for tu-1 must be emitted in initial read; ops: {op_ids:?}"
    );
    assert!(
        ops.iter().any(|op| appends(op, "tool_result:tu-2")),
        "on-chain tool_result for tu-2 must be emitted; ops: {op_ids:?}"
    );
    assert!(
        ops.iter().any(|op| appends_like(op, "msg_asst_final")),
        "final assistant node must be emitted; ops: {op_ids:?}"
    );
}

/// The file ends with `result-1`, a parallel tool_result whose parent is `asst-a`, and `result-2`
/// is still to come: the active path must hold `asst-b`, and `tu-2` must wait for its result.
#[test]
fn test_mid_parallel_initial_read_active_chain_includes_sibling_assistant() {
    let mut s = Session::new();
    for line in [ROOT, ASST_A, ASST_B, RESULT_1] {
        s.append(line);
    }

    s.start();

    assert!(
        s.reader.message_path.active_path.contains(&"asst-b".to_string()),
        "active_path must include asst-b (sibling of the parallel result-1)"
    );
    assert!(
        s.reader.state.pending_tool_calls.contains_key("tu-2"),
        "tu-2 must be in pending_tool_calls after initial read so result-2 can resolve it"
    );
}

/// If the first reading finds `result-1` (parent=asst-a) as the last entry, the live stream must
/// still emit ops for `result-2` (parent=asst-b) and any subsequent entries.
#[test]
fn test_live_parallel_no_stall_when_initial_read_captures_mid_state() {
    let mut s = Session::new();
    for line in [ROOT, ASST_A, ASST_B, RESULT_1] {
        s.append(line);
    }

    let initial_ops = s.start();
    assert!(!initial_ops.is_empty(), "should produce ops from initial read");
    assert!(!initial_ops.iter().any(is_reset), "no Reset expected during initial read");

    s.append(RESULT_2);
    let after_result2 = s.changed();
    let op_ids = op_summary(&after_result2);
    assert!(
        after_result2.iter().any(|op| appends(op, "tool_result:tu-2")),
        "tool_result:tu-2 must be emitted after result-2 arrives; got: {op_ids:?}"
    );

    s.append(ASST_FINAL);
    let after_final = s.changed();
    let final_ids = op_summary(&after_final);
    assert!(
        after_final.iter().any(|op| appends_like(op, "msg_asst_final")),
        "final assistant node must be emitted after continuation; got: {final_ids:?}"
    );
}

const SA_ROOT: &str =
    r#"{"type":"user","uuid":"root","parentUuid":null,"message":{"role":"user","content":"hi"}}"#;
const SA_CALL: &str = r#"{"type":"assistant","uuid":"asst-1","parentUuid":"root","message":{"id":"msg-1","role":"assistant","content":[{"type":"tool_use","id":"tu-1","name":"Agent","input":{"description":"TaskA","prompt":"..."}}]}}"#;
const SA_LAUNCHED: &str = "{\"type\":\"user\",\"uuid\":\"launched-1\",\"parentUuid\":\"asst-1\",\"toolUseResult\":{\"agentId\":\"abc\",\"isAsync\":true},\"message\":{\"role\":\"user\",\"content\":[{\"type\":\"tool_result\",\"tool_use_id\":\"tu-1\",\"content\":\"\u{2026}\"}]}}";

fn sa_result(text: &str) -> String {
    format!(
        r#"{{"type":"user","uuid":"result-1","parentUuid":"asst-1","toolUseResult":{{"agentId":"abc","content":[{{"type":"text","text":"{text}"}}]}},"message":{{"role":"user","content":[{{"type":"tool_result","tool_use_id":"tu-1","content":"{text}"}}]}}}}"#
    )
}

fn sa_line(n: usize, text: &str) -> String {
    let parent = if n == 1 { "null".to_string() } else { format!("\"sa-{}\"", n - 1) };
    format!(
        r#"{{"type":"assistant","uuid":"sa-{n}","parentUuid":{parent},"message":{{"id":"sa-msg-{n}","role":"assistant","content":[{{"type":"text","text":"{text}"}}]}}}}"#
    )
}

/// meta.json comes after the Agent tool_use has been processed; the agent's transcript streams
/// live; completion arrives as a sync tool_result.
#[test]
fn test_sa_sync_normal_order() {
    let mut s = Session::new();
    s.append(SA_ROOT);
    s.append(SA_CALL);
    let mut ops = s.start();

    ops.extend(s.write_meta("abc", "TaskA"));

    // Should emit Agent ID placeholder parented under tool_call:tu-1
    assert!(
        ops.iter().any(|op| {
            if let ReaderOp::Tree(TreeOperation::Append { message, parent_id }) = op {
                message.id == "task_summary:tu-1"
                    && parent_id.as_deref() == Some("tool_call:tu-1")
                    && message.text.as_deref().is_some_and(|t| t.starts_with("Agent ID:"))
            } else {
                false
            }
        }),
        "meta.json should emit Agent ID placeholder; ops: {:?}",
        op_summary(&ops)
    );

    // A line of the agent: should be re-parented under tool_call:tu-1
    s.append_agent("agent-abc.jsonl", &sa_line(1, "Working on it"));
    let ops = s.agent_changed("agent-abc.jsonl");
    assert!(
        ops.iter().any(|op| appends_under(op, "tool_call:tu-1")),
        "SA JSONL content must be re-parented under tool_call:tu-1; ops: {:?}",
        op_summary(&ops)
    );

    // Sync tool_result: should Append task_summary child to tool_call:tu-1
    s.append(&sa_result("Done!"));
    let ops = s.changed();
    assert!(
        ops.iter().any(|op| {
            if let ReaderOp::Tree(TreeOperation::Append { parent_id: Some(p), message }) = op {
                p == "tool_call:tu-1"
                    && message.id == "task_summary:tu-1"
                    && message.text.as_deref().unwrap_or("").contains("Done!")
            } else {
                false
            }
        }),
        "sync tool_result should Append tool_call:tu-1 with Done! in task_summary child; ops: {:?}",
        op_summary(&ops)
    );
}

/// The agent's meta.json is written before the Agent tool_use entry appears. Once the tool_use is
/// appended the agent must be matched and the placeholder emitted.
#[test]
fn test_sa_race_meta_before_tool_use() {
    let mut s = Session::new();
    s.append(SA_ROOT);
    s.start();

    let ops = s.write_meta("abc", "TaskA");
    assert!(
        !ops.iter().any(|op| appends(op, "task_summary:tu-1")),
        "no task_summary should appear before the tool_use is processed; ops: {:?}",
        op_summary(&ops)
    );

    s.append(SA_CALL);
    let ops = s.changed();
    assert!(
        ops.iter()
            .any(|op| appends(op, "task_summary:tu-1") && appends_under(op, "tool_call:tu-1")),
        "tool_use processing should emit task_summary:tu-1 placeholder; ops: {:?}",
        op_summary(&ops)
    );

    s.append_agent("agent-abc.jsonl", &sa_line(1, "running"));
    let ops = s.agent_changed("agent-abc.jsonl");
    assert!(
        ops.iter().any(|op| appends_under(op, "tool_call:tu-1")),
        "SA content after race should be parented under tool_call:tu-1; ops: {:?}",
        op_summary(&ops)
    );
}

/// agent-abc.jsonl is written before agent-abc.meta.json. Nothing should be emitted while the
/// agent is unmatched; once meta.json appears all buffered bytes must be emitted.
#[test]
fn test_sa_race_jsonl_before_meta() {
    let mut s = Session::new();
    s.append(SA_ROOT);
    s.append(SA_CALL);
    s.start();

    s.append_agent("agent-abc.jsonl", &sa_line(1, "early line"));
    let ops = s.agent_changed("agent-abc.jsonl");
    assert!(
        !ops.iter().any(|op| appends_under(op, "tool_call:tu-1")),
        "JSONL bytes without a watcher must not emit SA ops; ops: {:?}",
        op_summary(&ops)
    );

    let ops = s.write_meta("abc", "TaskA");
    assert!(
        ops.iter()
            .any(|op| appends(op, "task_summary:tu-1") && appends_under(op, "tool_call:tu-1")),
        "meta.json should emit task_summary:tu-1 placeholder; ops: {:?}",
        op_summary(&ops)
    );
    assert!(
        ops.iter().any(|op| appends_under(op, "tool_call:tu-1") && appends_like(op, "sa:abc:")),
        "buffered JSONL bytes must be emitted after meta.json; ops: {:?}",
        op_summary(&ops)
    );
}

/// The async_launched tool_result carries isAsync:true; the agent streams live and completes with
/// a task-notification user message.
#[test]
fn test_sa_async_normal_order() {
    let mut s = Session::new();
    s.append(SA_ROOT);
    s.append(SA_CALL);
    s.append(SA_LAUNCHED);
    s.start();

    let ops = s.write_meta("abc", "TaskA");
    assert!(
        ops.iter()
            .any(|op| appends(op, "task_summary:tu-1") && appends_under(op, "tool_call:tu-1")),
        "async meta.json should emit task_summary:tu-1 placeholder; ops: {:?}",
        op_summary(&ops)
    );

    s.append_agent("agent-abc.jsonl", &sa_line(1, "step 1"));
    let ops = s.agent_changed("agent-abc.jsonl");
    assert!(
        ops.iter().any(|op| appends_under(op, "tool_call:tu-1")),
        "async SA JSONL must be parented under tool_call:tu-1; ops: {:?}",
        op_summary(&ops)
    );

    s.append(r#"{"type":"user","uuid":"notify-1","parentUuid":"launched-1","message":{"role":"user","content":"<task-notification><summary>done</summary><result>All finished!</result><tool-use-id>tu-1</tool-use-id></task-notification>"}}"#);
    let ops = s.changed();
    assert!(
        ops.iter().any(|op| {
            if let ReaderOp::Tree(TreeOperation::Replace { message, .. }) = op {
                message.id == "task_summary:tu-1"
                    && message.text.as_deref().unwrap_or("").contains("All finished!")
            } else {
                false
            }
        }),
        "sync tool_result should Replace task_sumary:tu-1 with All finished!; ops: {:?}",
        op_summary(&ops)
    );
}

/// All entries (tool_use, agent transcript, sync tool_result) exist before the reader starts. The
/// first reading must give the agent's content and the final task_summary text without a Reset.
#[test]
fn test_sa_initial_read_completed_sync() {
    let mut s = Session::new();
    s.append(SA_ROOT);
    s.append(SA_CALL);
    s.append(&sa_result("Finished!"));
    s.append_agent("agent-abc.jsonl", &sa_line(1, "I did the work"));

    let ops = s.start();
    let op_ids = op_summary(&ops);

    assert!(
        ops.iter().any(|op| {
            if let ReaderOp::Tree(TreeOperation::Append { parent_id, message }) = op {
                parent_id.as_deref() == Some("tool_call:tu-1") && message.id.starts_with("sa:abc:")
            } else {
                false
            }
        }),
        "initial read must include sub-agent content parented under tool_call:tu-1; ops: {op_ids:?}"
    );

    // task_summary must carry the final result (not "Agent ID:")
    let summary_text = ops
        .iter()
        .filter_map(|op| {
            if let ReaderOp::Tree(TreeOperation::Append { parent_id: Some(p), message }) = op {
                if p == "tool_call:tu-1" {
                    message.text.as_deref()
                } else {
                    None
                }
            } else {
                None
            }
        })
        .next();
    assert!(
        summary_text.unwrap_or("").contains("Finished!"),
        "task_summary should carry final result text, not placeholder; got: {summary_text:?}"
    );

    assert!(
        !ops.iter().any(|op| matches!(op, ReaderOp::Tree(TreeOperation::Remove { .. }))),
        "no Remove/Reset ops expected"
    );
}

/// An agent that runs in the background has two lines at first. New lines must stream without
/// repeating the first ones.
#[test]
fn test_sa_initial_read_async_in_progress_then_continuation() {
    let mut s = Session::new();
    s.append(SA_ROOT);
    s.append(SA_CALL);
    s.append(SA_LAUNCHED);
    s.agents.insert("agent-abc.meta.json".to_string(), b"{\"description\":\"TaskA\"}\n".to_vec());
    s.append_agent("agent-abc.jsonl", &sa_line(1, "line one"));
    s.append_agent("agent-abc.jsonl", &sa_line(2, "line two"));

    let initial_ops = s.start();
    let initial_sa_count =
        initial_ops.iter().filter(|op| appends_under(op, "tool_call:tu-1")).count();
    assert!(
        initial_sa_count >= 2,
        "initial read should include the 2 pre-existing SA lines; got {initial_sa_count}; ops: {:?}",
        op_summary(&initial_ops)
    );

    s.append_agent("agent-abc.jsonl", &sa_line(3, "line three"));
    let ops = s.agent_changed("agent-abc.jsonl");
    let new_sa_ops: Vec<_> =
        ops.iter().filter(|op| appends_under(op, "tool_call:tu-1")).collect();
    assert_eq!(
        new_sa_ops.len(),
        1,
        "only the new (third) SA line must be emitted — no duplication; ops: {:?}",
        op_summary(&ops)
    );
}

/// The sync tool_result comes before meta.json was ever written: the agent's transcript must still
/// appear.
#[test]
fn test_sa_completion_before_streaming() {
    let mut s = Session::new();
    s.append(SA_ROOT);
    s.append(SA_CALL);
    s.append(&sa_result("Done!"));
    s.append_agent("agent-abc.jsonl", &sa_line(1, "completed work"));

    let ops = s.start();
    let op_ids = op_summary(&ops);
    assert!(
        ops.iter().any(|op| {
            if let ReaderOp::Tree(TreeOperation::Append { message, parent_id }) = op {
                parent_id.as_deref() == Some("tool_call:tu-1") && message.id.starts_with("sa:abc:")
            } else {
                false
            }
        }),
        "SA content must appear even without meta.json; ops: {op_ids:?}"
    );
}

/// A rewind entry during an active agent's stream causes a Reset; what follows is handled cleanly.
#[test]
fn test_sa_rewind_clears_subagent_state() {
    let mut s = Session::new();
    s.append(SA_ROOT);
    s.append(SA_CALL);
    s.start();

    s.write_meta("abc", "TaskA");
    s.append_agent("agent-abc.jsonl", &sa_line(1, "running"));
    s.agent_changed("agent-abc.jsonl");

    // A rewind: same parent as asst-1 (root), different uuid
    s.append(r#"{"type":"assistant","uuid":"asst-rewind","parentUuid":"root","message":{"id":"msg-rewind","role":"assistant","content":[{"type":"text","text":"restarting"}]}}"#);
    let ops = s.changed();
    assert!(ops.iter().any(is_reset), "rewind must emit Reset; ops: {:?}", op_summary(&ops));

    // A clean continuation — no stale task_summary from tu-1
    s.append(r#"{"type":"assistant","uuid":"asst-cont","parentUuid":"asst-rewind","message":{"id":"msg-cont","role":"assistant","content":[{"type":"text","text":"clean continuation"}]}}"#);
    let ops = s.changed();
    assert!(
        !ops.iter().any(is_reset),
        "no second Reset after clean continuation; ops: {:?}",
        op_summary(&ops)
    );
    assert!(
        ops.iter().any(|op| appends_like(op, "msg-cont")),
        "clean continuation must be streamed; ops: {:?}",
        op_summary(&ops)
    );
}

/// Several events come for the same meta.json: task_summary:tu-1 must appear exactly once.
#[test]
fn test_sa_duplicate_meta_events_idempotent() {
    let mut s = Session::new();
    s.append(SA_ROOT);
    s.append(SA_CALL);
    s.start();

    let mut ops = s.write_meta("abc", "TaskA");
    ops.extend(s.write_meta("abc", "TaskA"));
    let task_summary_appends = ops.iter().filter(|op| appends(op, "task_summary:tu-1")).count();
    assert_eq!(
        task_summary_appends,
        1,
        "task_summary:tu-1 must appear exactly once despite duplicate meta.json events; ops: {:?}",
        op_summary(&ops)
    );
}

/// Lines come before the agent is matched: all must be kept and emitted in full once meta.json
/// arrives.
#[test]
fn test_sa_no_bytes_read_without_tool_use_id() {
    let mut s = Session::new();
    s.append(SA_ROOT);
    s.append(SA_CALL);
    s.start();

    let mut ops = Vec::new();
    for i in 1..=3usize {
        s.append_agent("agent-abc.jsonl", &sa_line(i, &format!("line {}", i)));
        ops.extend(s.agent_changed("agent-abc.jsonl"));
    }
    assert!(
        !ops.iter().any(|op| appends_under(op, "tool_call:tu-1")),
        "no SA ops must be emitted before meta.json exists; ops: {:?}",
        op_summary(&ops)
    );

    let ops = s.write_meta("abc", "TaskA");
    let sa_content_ops = ops.iter().filter(|op| appends_under(op, "tool_call:tu-1")).count();
    assert!(
        sa_content_ops >= 3,
        "all 3 buffered SA lines must be emitted after meta.json; got {sa_content_ops}; ops: {:?}",
        op_summary(&ops)
    );
}

#[test]
fn one_entry_at_a_time() {
    let mut s = Session::with(true, 0);
    for line in [ROOT, ASST_A, ASST_B] {
        s.append(line);
    }
    let first = s.start();
    assert!(!first.iter().any(|op| appends_like(op, "tu-1")));
    let second = s.changed();
    assert!(second.iter().any(|op| appends(op, "tool_call:tu-1")), "{:?}", op_summary(&second));
    assert!(!second.iter().any(|op| appends(op, "tool_call:tu-2")));
    let third = s.changed();
    assert!(third.iter().any(|op| appends(op, "tool_call:tu-2")));
    assert!(s.changed().is_empty());
    assert_eq!(s.reader.waterfall_message_limit, 3);
}

#[test]
fn the_first_reading_can_be_cut_short() {
    let mut s = Session::with(false, 2);
    for line in [ROOT, ASST_A, ASST_B] {
        s.append(line);
    }
    let first = s.start();
    assert!(first.iter().any(|op| appends(op, "tool_call:tu-1")));
    assert!(!first.iter().any(|op| appends(op, "tool_call:tu-2")));
    assert_eq!(s.reader.byte_offset, ROOT.len() + ASST_A.len() + 2);
    assert!(s.changed().iter().any(|op| appends(op, "tool_call:tu-2")));
}

#[test]
fn an_incomplete_line_waits() {
    let mut s = Session::new();
    s.append(ROOT);
    s.start();
    s.file.extend_from_slice(ASST_A.as_bytes());
    assert!(s.changed().is_empty());
    s.file.push(b'\n');
    assert!(!s.changed().is_empty());
}

#[test]
fn a_transcript_that_is_no_text_is_an_error() {
    let mut reader = ClaudeReader::new(false, 0);
    let read = reader.do_initial_read(b"\xff\xfe\n");
    assert_eq!(read.error, Some(ReadError::NotText));
    let read = reader.handle_main_event(b"\xff\xfe\n");
    assert_eq!(read.error, Some(ReadError::NotText));
    let mut manager = ClaudeSubagentManager::new();
    manager.on_subagent_tool_result("tu", "x");
    manager.detect_subagent("x", None);
    assert_eq!(manager.read_subagent_jsonl("x", Some(b"\xff\n")), Err(ReadError::NotText));
}

#[test]
fn agent_files_are_known_by_their_names() {
    assert_eq!(agent_of_file("agent-abc.meta.json").as_deref(), Some("abc"));
    assert_eq!(agent_of_file("agent-abc.jsonl").as_deref(), Some("abc"));
    assert_eq!(agent_of_file("abc.jsonl"), None);
    assert_eq!(agent_of_file("agent-abc.txt"), None);
}
