use agt::session_socket::{
    accepts, cmdline_basename, find_cli_ancestor, hook_message, hook_socket, parent_pid,
    path_of_socket, Ancestor, ExpectedCli, HookPayload, MAX_ANCESTOR_HOPS,
};

fn ancestor(pid: u32, name: Option<&str>) -> Ancestor {
    Ancestor { pid, name: name.map(str::to_string) }
}

/// The tool, a shell that it started, and what the shell started.
fn chain() -> Vec<Ancestor> {
    vec![ancestor(40, Some("sh")), ancestor(30, Some("tool")), ancestor(1, Some("init"))]
}

#[test]
fn two_sockets_get_different_paths() {
    let a = path_of_socket(17, 0);
    let b = path_of_socket(17, 1);
    assert_ne!(a, b);
    assert_ne!(path_of_socket(1, 71), path_of_socket(17, 1));
    assert_eq!(a, "/tmp/agt-17-0.sock");
}

#[test]
fn parent_pid_resolves_real_relationship() {
    let status = "Name:\tsleep\nState:\tS (sleeping)\nPid:\t900\nPPid:\t899\nTracerPid:\t0\n";
    assert_eq!(parent_pid(status), Some(899));
    assert_eq!(parent_pid("Name:\tx\n"), None);
    assert_eq!(parent_pid("PPid:\tx\n"), None);
}

#[test]
fn cmdline_basename_resolves_known_binary() {
    assert_eq!(cmdline_basename(b"sleep\x002\x00").as_deref(), Some("sleep"));
    assert_eq!(cmdline_basename(b"/usr/bin/sleep\x002\x00").as_deref(), Some("sleep"));
    assert_eq!(cmdline_basename(b"\x00\x00/opt/x\xff\x00").as_deref(), Some("x\u{fffd}"));
    assert_eq!(cmdline_basename(b""), None);
}

/// Walking up must pass the shell, whose name does not match, and find the tool.
#[test]
fn find_cli_ancestor_walks_up_through_a_shell_hop() {
    assert_eq!(find_cli_ancestor(&chain(), "tool"), Some(30));
}

#[test]
fn find_cli_ancestor_returns_none_when_binary_never_appears() {
    assert_eq!(find_cli_ancestor(&chain(), "no-such-binary-agt-test"), None);
}

#[test]
fn find_cli_ancestor_gives_up_after_some_hops() {
    let mut far: Vec<Ancestor> =
        (0..MAX_ANCESTOR_HOPS as u32).map(|i| ancestor(100 + i, Some("sh"))).collect();
    far.push(ancestor(5, Some("tool")));
    assert_eq!(find_cli_ancestor(&far, "tool"), None);
    far.remove(0);
    assert_eq!(find_cli_ancestor(&far, "tool"), Some(5));
}

#[test]
fn accept_task_drops_session_start_when_ancestor_pid_differs() {
    let expected = ExpectedCli { pid: 99, binary: "tool".to_string() };
    assert!(
        !accepts(Some(&expected), Some(&chain())),
        "message from a mismatched process must be dropped"
    );
}

#[test]
fn accept_task_accepts_session_start_when_ancestor_matches() {
    let expected = ExpectedCli { pid: 30, binary: "tool".to_string() };
    assert!(
        accepts(Some(&expected), Some(&chain())),
        "message from tracked process must be accepted"
    );
}

#[test]
fn without_an_expected_tool_all_are_heard() {
    assert!(accepts(None, None));
    assert!(accepts(None, Some(&chain())));
    let expected = ExpectedCli { pid: 30, binary: "tool".to_string() };
    assert!(accepts(Some(&expected), None));
    assert!(accepts(Some(&expected), Some(&vec![ancestor(40, Some("sh")), ancestor(1, None)])));
}

fn payload() -> HookPayload {
    HookPayload {
        session_id: "s1".to_string(),
        transcript_path: Some("/t/s1.jsonl".to_string()),
        workspace_roots: Some(vec!["/r".to_string(), "/q".to_string()]),
    }
}

#[test]
fn a_hook_tells_of_its_session() {
    let m = hook_message(payload());
    assert_eq!(m.kind, "session-start");
    assert_eq!(m.session_id, "s1");
    assert_eq!(m.transcript_path.as_deref(), Some("/t/s1.jsonl"));
    assert_eq!(m.workspace_path.as_deref(), Some("/r"));
    let m = hook_message(HookPayload { workspace_roots: Some(vec![]), ..payload() });
    assert_eq!(m.workspace_path, None);
}

#[test]
fn a_hook_without_a_socket_is_quiet() {
    assert_eq!(hook_socket(None), None);
    assert_eq!(hook_socket(Some(String::new())), None);
    assert_eq!(hook_socket(Some("/tmp/x.sock".to_string())).as_deref(), Some("/tmp/x.sock"));
}
