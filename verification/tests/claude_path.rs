use agt::claude::path::{ForwardPathResult, MessageNode, MessagePath};

fn n<'a>(
    uuid: &'a str,
    parent: Option<&'a str>,
    is_tool_result: bool,
    byte_offset: usize,
) -> MessageNode<'a> {
    MessageNode {
        uuid,
        parent_uuid: parent,
        is_tool_result,
        byte_offset,
    }
}

/// Run a full backward pass (entries in document order, iterated in reverse)
/// followed by a forward pass (document order). Returns the resulting path and
/// the forward result for each entry in document order.
fn run_passes<'a>(
    path: &mut MessagePath,
    entries: &[MessageNode<'a>],
) -> Vec<ForwardPathResult> {
    for node in entries.iter().rev() {
        path.backward(node);
    }
    entries.iter().map(|node| path.forward(node)).collect()
}

/// Basic scenario: a simple linear chain.
///
/// Document order: root → msg1 → msg2
///
/// Backward pass sets active_tail=msg2 and traces the whole chain into active_path.
/// Forward pass: root has no parent but active_path is already populated from the
/// backward pass, so it is Dropped with a warning. msg1 and msg2 are Ingested because
/// they are already known to be on the active path via initial_active_offsets.
#[test]
fn test_basic_single_chain() {
    let mut path = MessagePath::new();
    let entries = [
        n("root", None, false, 0),
        n("msg1", Some("root"), false, 1),
        n("msg2", Some("msg1"), false, 2),
    ];
    let results = run_passes(&mut path, &entries);

    assert_eq!(path.active_tail.as_deref(), Some("msg2"));
    assert!(path.active_path.contains("root"));
    assert!(path.active_path.contains("msg1"));
    assert!(path.active_path.contains("msg2"));

    assert!(
        matches!(results[0], ForwardPathResult::Ingest),
        "root should be ingested"
    );
    assert!(
        matches!(results[1], ForwardPathResult::Ingest),
        "msg1 should be ingested"
    );
    assert!(
        matches!(results[2], ForwardPathResult::Ingest),
        "msg2 should be ingested"
    );
}

/// Rewind scenario: two branches from the same parent.
///
/// Document order: root(0), branch1(1), branch2(2).
/// The backward pass sees branch2 first (highest offset) and picks it as the active tail;
/// initial_offset is set to 2. branch1 has offset 1 < initial_offset so it is dropped
/// in the forward pass as a known-orphan branch without triggering a Rewind.
#[test]
fn test_rewind_initial_read_drops_inactive_branch() {
    let mut path = MessagePath::new();
    let entries = [
        n("root", None, false, 0),
        n("branch1", Some("root"), false, 1),
        n("branch2", Some("root"), false, 2), // same parent as branch1 → old branch
    ];
    let results = run_passes(&mut path, &entries);

    assert_eq!(path.active_tail.as_deref(), Some("branch2"));
    assert!(path.active_path.contains("root"));
    assert!(path.active_path.contains("branch2"));
    assert!(!path.active_path.contains("branch1"));

    assert!(
        matches!(results[0], ForwardPathResult::Ingest),
        "root must be ingested"
    );
    assert!(
        matches!(results[1], ForwardPathResult::Drop),
        "branch1 must be dropped (offset < initial_offset)"
    );
    assert!(
        matches!(results[2], ForwardPathResult::Ingest),
        "active branch2 must be ingested"
    );
}

/// Live rewind detection: after an initial read of root → branch1, appending
/// branch2 (parent=root, same level as branch1) must trigger ForwardPathResult::Rewind
/// because branch2's parent cannot reach the current active tail (branch1) and its
/// offset (2) is not less than initial_offset (1).
#[test]
fn test_live_rewind_detection() {
    let mut path = MessagePath::new();

    // Simulate initial read: root(0) → branch1(1)
    // Backward iterates in reverse: branch1 first, sets initial_offset=1.
    path.backward(&n("branch1", Some("root"), false, 1));
    path.backward(&n("root", None, false, 0));
    path.forward(&n("root", None, false, 0)); // Drop
    let r = path.forward(&n("branch1", Some("root"), false, 1));
    assert!(matches!(r, ForwardPathResult::Ingest));
    assert_eq!(path.active_tail.as_deref(), Some("branch1"));

    // Live: branch2 (offset 2) shares the same parent as branch1.
    // can_reach_tail("root") = false, and 2 >= initial_offset(1) → Rewind.
    let r = path.forward(&n("branch2", Some("root"), false, 2));
    assert!(
        matches!(r, ForwardPathResult::Rewind),
        "branch at the same depth as the active tail must trigger Rewind"
    );
}

/// Parallel tool call scenario.
///
/// Parallel tool calls are written as:
///   asst-a (tool_use tu-1) → asst-b (tool_use tu-2, parent=asst-a)
///   result-1 (tool_result for tu-1, parent=asst-a — NOT the chain tail asst-b)
///   result-2 (tool_result for tu-2, parent=asst-b)
///   asst-final (parent=result-2)
///
/// result-1's parent (asst-a) is on the active path so is_dangling returns true.
/// Both tool results must be ingested; the final assistant message must chain through.
#[test]
fn test_parallel_tool_calls_full_sequence() {
    let mut path = MessagePath::new();
    let entries = [
        n("root", None, false, 0),
        n("asst-a", Some("root"), false, 1),
        n("asst-b", Some("asst-a"), false, 2),
        n("result-1", Some("asst-a"), true, 3), // parallel: parent is asst-a, not the tail
        n("result-2", Some("asst-b"), true, 4), // chain: parent is the tail asst-b
        n("asst-final", Some("result-2"), false, 5),
    ];
    let results = run_passes(&mut path, &entries);

    assert_eq!(path.active_tail.as_deref(), Some("asst-final"));

    assert!(
        matches!(results[0], ForwardPathResult::Ingest),
        "root ingested"
    );
    assert!(
        matches!(results[1], ForwardPathResult::Ingest),
        "asst-a ingested"
    );
    assert!(
        matches!(results[2], ForwardPathResult::Ingest),
        "asst-b ingested"
    );
    assert!(
        matches!(results[3], ForwardPathResult::Ingest),
        "parallel result-1 (parent=asst-a, not tail) must be ingested, not dropped or rewound"
    );
    assert!(
        matches!(results[4], ForwardPathResult::Ingest),
        "result-2 ingested"
    );
    assert!(
        matches!(results[5], ForwardPathResult::Ingest),
        "asst-final ingested"
    );

    assert!(
        path.active_tool_results.contains_key("result-1"),
        "result-1 tracked in active_tool_results"
    );
    assert!(
        path.active_tool_results.contains_key("result-2"),
        "result-2 tracked in active_tool_results"
    );
}

/// Mid-parallel state: the initial read captures the file while result-1 (parallel,
/// parent=asst-a) is the last entry — result-2 (parent=asst-b) has not yet been written.
///
/// The backward pass traces from result-1 through asst-a, but asst-b is NOT a parent
/// of result-1, so it must be picked up as the active tail (last non-tool-result).
/// asst-b must remain on the active path so that when result-2 arrives live it is
/// correctly ingested instead of being silently dropped as an orphan.
#[test]
fn test_mid_parallel_initial_then_live_continuation() {
    let mut path = MessagePath::new();

    // Initial read: result-2 intentionally absent to reproduce the mid-parallel snapshot.
    let initial = [
        n("root", None, false, 0),
        n("asst-a", Some("root"), false, 1),
        n("asst-b", Some("asst-a"), false, 2),
        n("result-1", Some("asst-a"), true, 3), // parallel, last entry; sets initial_offset=3
    ];
    run_passes(&mut path, &initial);

    // asst-b must be the active tail and on the active path even though result-1
    // (whose parent is asst-a) was the last document entry.
    assert_eq!(path.active_tail.as_deref(), Some("asst-b"));
    assert!(
        path.active_path.contains("asst-b"),
        "asst-b must be on active_path for live continuation to work"
    );

    // Live: result-2 arrives (parent=asst-b, tool_result).
    // is_dangling(asst-b) → active_path.contains(asst-b) = true → Ingest.
    let r = path.forward(&n("result-2", Some("asst-b"), true, 4));
    assert!(
        matches!(r, ForwardPathResult::Ingest),
        "result-2 must be ingested (asst-b is on active_path)"
    );

    // Live: asst-final arrives (parent=result-2, non-tool-result).
    // can_reach_tail(result-2): result-2 → asst-b (via active_tool_results) == active_tail → true.
    let r = path.forward(&n("asst-final", Some("result-2"), false, 5));
    assert!(
        matches!(r, ForwardPathResult::Ingest),
        "asst-final must be ingested after parallel tool results resolve"
    );
    assert_eq!(path.active_tail.as_deref(), Some("asst-final"));
}

#[test]
fn a_result_that_dangles_is_off_the_path_until_something_follows_it() {
    let mut p = MessagePath::new();
    p.forward(&n("root", None, false, 0));
    p.forward(&n("asst", Some("root"), false, 1));
    assert_eq!(p.forward(&n("res", Some("asst"), true, 2)), ForwardPathResult::Ingest);
    assert_eq!(p.active_tool_results.get("res").map(String::as_str), Some("asst"));
    assert_eq!(p.active_tail.as_deref(), Some("asst"));
    assert!(p.active_path.contains("root") && p.active_path.contains("asst"));
    assert!(!p.active_path.contains("res"));

    // A result that follows a dangling one dangles too.
    assert_eq!(p.forward(&n("res2", Some("res"), true, 3)), ForwardPathResult::Ingest);
    assert_eq!(p.forward(&n("res3", Some("asst"), true, 4)), ForwardPathResult::Ingest);
    assert_eq!(p.forward(&n("lost", Some("nowhere"), true, 5)), ForwardPathResult::Drop);

    // What follows takes the results that it passes onto the path, and no others.
    assert_eq!(p.forward(&n("next", Some("res2"), false, 6)), ForwardPathResult::Ingest);
    assert_eq!(p.active_tail.as_deref(), Some("next"));
    assert!(p.active_path.contains("res2") && p.active_path.contains("res"));
    assert!(!p.active_path.contains("res3"));
}

#[test]
fn results_that_follow_each_other_do_not_hold_the_reader_up() {
    let mut p = MessagePath::new();
    p.forward(&n("root", None, false, 0));
    p.forward(&n("a", Some("root"), true, 1));
    p.forward(&n("root", Some("a"), true, 2));
    p.forward(&n("next", Some("root"), false, 3));
    assert_eq!(p.active_tail.as_deref(), Some("next"));
    assert_eq!(p.forward(&n("far", Some("a"), false, 4)), ForwardPathResult::Rewind);
}

#[test]
fn after_a_reset_the_passes_start_anew() {
    let root = n("root", None, false, 0);
    let b1 = n("branch1", Some("root"), false, 1);
    let b2 = n("branch2", Some("root"), false, 2);
    let mut p = MessagePath::new();
    p.backward(&b1);
    p.backward(&root);
    p.forward(&root);
    p.forward(&b1);
    assert_eq!(p.forward(&b2), ForwardPathResult::Rewind);
    p.reset();
    assert!(p.initial_offset.is_none() && !p.root_emitted);
    let results = run_passes(&mut p, &[root, b1, b2]);
    assert_eq!(
        results,
        vec![ForwardPathResult::Ingest, ForwardPathResult::Drop, ForwardPathResult::Ingest]
    );
    assert_eq!(p.active_tail.as_deref(), Some("branch2"));
}
