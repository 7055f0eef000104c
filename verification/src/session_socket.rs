//! The socket over which a tool tells of its sessions, and which tellers are heard.
use crate::cursor::proto::copy_range;
use crate::number::{law_decimal_is_read_back, natural, parse_u32};
use crate::text::{
    after_prefix, concat2, decimal, decimal_text, lines, lines_of, lossy_text, name_in_path,
    path_name, same_text, strip_prefix, text_of_lossy_bytes, trim, trimmed, views,
};
use crate::tree::text_opt;
use vstd::prelude::*;
use vstd::string::*;

verus! {

broadcast use vstd::string::group_string_axioms;

/// How far up the tree of processes to look: no more than a guard against a walk without end.
pub const MAX_ANCESTOR_HOPS: usize = 8;

/// The tool that the socket was handed to when it was started.
#[derive(Debug, PartialEq)]
pub struct ExpectedCli {
    pub pid: u32,
    pub binary: String,
}

/// What a tool's hook writes to the socket.
#[derive(Debug, PartialEq)]
pub struct HookMessage {
    pub kind: String,
    pub session_id: String,
    pub transcript_path: Option<String>,
    pub workspace_path: Option<String>,
}

/// What a tool hands to its hook.
#[derive(Debug, PartialEq)]
pub struct HookPayload {
    pub session_id: String,
    pub transcript_path: Option<String>,
    pub workspace_roots: Option<Vec<String>>,
}

// ---------------------------------------------------------------------------
// Processes
// ---------------------------------------------------------------------------

/// The parent's number that a line of a process's status tells.
pub open spec fn parent_in_line(line: Seq<char>) -> Option<nat> {
    match after_prefix(line, "PPid:"@) {
        Some(rest) => natural(trimmed(rest), u32::MAX as nat),
        None => None,
    }
}

/// The first number of a parent that lines tell.
pub open spec fn parent_in(lines: Seq<Seq<char>>) -> Option<nat>
    decreases lines.len(),
{
    if lines.len() == 0 {
        None
    } else {
        match parent_in_line(lines[0]) {
            Some(pid) => Some(pid),
            None => parent_in(lines.skip(1)),
        }
    }
}

/// The parent of a process, from the text of its status.
pub fn parent_pid(status: &str) -> (r: Option<u32>)
    ensures
        match r {
            Some(pid) => parent_in(lines_of(status@)) == Some(pid as nat),
            None => parent_in(lines_of(status@)) is None,
        },
{
    let found = lines(status);
    let ghost all = views(found@);
    let mut i: usize = 0;
    assert(all.skip(0) =~= all);
    while i < found.len()
        invariant
            i <= found@.len(),
            all == views(found@),
            all == lines_of(status@),
            parent_in(all) == parent_in(all.skip(i as int)),
        decreases found@.len() - i,
    {
        proof {
            assert(all.skip(i as int)[0] == found@[i as int]@);
            assert(all.skip(i as int).skip(1) =~= all.skip(i + 1));
        }
        if let Some(rest) = strip_prefix(found[i].as_str(), "PPid:") {
            if let Some(pid) = parse_u32(trim(rest.as_str()).as_str()) {
                return Some(pid);
            }
        }
        i = i + 1;
    }
    None
}

/// The first part of `bytes` between zero bytes that is not empty.
pub open spec fn first_argument(bytes: Seq<u8>) -> Option<Seq<u8>>
    decreases bytes.len(),
{
    if bytes.len() == 0 {
        None
    } else if bytes[0] == 0 {
        first_argument(bytes.skip(1))
    } else {
        Some(bytes.take(argument_end(bytes, 0)))
    }
}

/// The place of the first zero byte from `from` on, or the end.
pub open spec fn argument_end(bytes: Seq<u8>, from: int) -> int
    decreases bytes.len() - from,
{
    if from >= bytes.len() || bytes[from] == 0 {
        from
    } else {
        argument_end(bytes, from + 1)
    }
}

fn seek_argument(bytes: &[u8], from: usize) -> (r: usize)
    requires
        from <= bytes@.len(),
    ensures
        from <= r <= bytes@.len(),
        r == argument_end(bytes@, from as int),
{
    let mut i: usize = from;
    while i < bytes.len() && bytes[i] != 0
        invariant
            from <= i <= bytes@.len(),
            argument_end(bytes@, from as int) == argument_end(bytes@, i as int),
        decreases bytes@.len() - i,
    {
        i = i + 1;
    }
    i
}

proof fn lemma_argument_end_shift(bytes: Seq<u8>, k: int, from: int)
    requires
        0 <= k <= from <= bytes.len(),
    ensures
        argument_end(bytes, from) == argument_end(bytes.skip(k), from - k) + k,
    decreases bytes.len() - from,
{
    if from < bytes.len() && bytes[from] != 0 {
        lemma_argument_end_shift(bytes, k, from + 1);
    }
}

fn find_first_argument(bytes: &[u8]) -> (r: Option<Vec<u8>>)
    ensures
        match r {
            Some(a) => first_argument(bytes@) == Some(a@),
            None => first_argument(bytes@) is None,
        },
{
    let mut i: usize = 0;
    assert(bytes@.skip(0) =~= bytes@);
    while i < bytes.len() && bytes[i] == 0
        invariant
            i <= bytes@.len(),
            first_argument(bytes@) == first_argument(bytes@.skip(i as int)),
        decreases bytes@.len() - i,
    {
        assert(bytes@.skip(i as int).skip(1) =~= bytes@.skip(i + 1));
        i = i + 1;
    }
    if i == bytes.len() {
        return None;
    }
    let end = seek_argument(bytes, i);
    proof {
        lemma_argument_end_shift(bytes@, i as int, i as int);
        assert(bytes@.skip(i as int).take(end - i) =~= bytes@.subrange(i as int, end as int));
    }
    Some(copy_range(bytes, i, end))
}

/// The name of the program that a process's command line starts with.
pub open spec fn program_name(cmdline: Seq<u8>) -> Option<Seq<char>> {
    match first_argument(cmdline) {
        Some(path) => path_name(lossy_text(path)),
        None => None,
    }
}

/// The name of the program that a process runs, from the bytes of its command line.
pub fn cmdline_basename(cmdline: &[u8]) -> (r: Option<String>)
    ensures
        text_opt(r) == program_name(cmdline@),
{
    match find_first_argument(cmdline) {
        Some(path) => name_in_path(text_of_lossy_bytes(path.as_slice()).as_str()),
        None => None,
    }
}

/// A process above another one, and the program it runs, as far as it is known.
#[derive(Debug, PartialEq)]
pub struct Ancestor {
    pub pid: u32,
    pub name: Option<String>,
}

/// The nearest of the processes that runs the program, among the first `n`.
pub open spec fn nearest(chain: Seq<Ancestor>, binary: Seq<char>, n: int) -> Option<u32>
    decreases n,
{
    if n <= 0 || chain.len() == 0 {
        None
    } else if text_opt(chain[0].name) == Some(binary) {
        Some(chain[0].pid)
    } else {
        nearest(chain.skip(1), binary, n - 1)
    }
}

/// The nearest ancestor that runs `binary_name`. `chain` lists the parent, its parent, and so on;
/// processes in between, such as a shell, are passed over, whatever their number up to the bound.
pub fn find_cli_ancestor(chain: &Vec<Ancestor>, binary_name: &str) -> (r: Option<u32>)
    ensures
        r == nearest(chain@, binary_name@, MAX_ANCESTOR_HOPS as int),
{
    let mut i: usize = 0;
    assert(chain@.skip(0) =~= chain@);
    while i < chain.len() && i < MAX_ANCESTOR_HOPS
        invariant
            i <= chain@.len(),
            i <= MAX_ANCESTOR_HOPS,
            nearest(chain@, binary_name@, MAX_ANCESTOR_HOPS as int) == nearest(
                chain@.skip(i as int),
                binary_name@,
                MAX_ANCESTOR_HOPS - i,
            ),
        decreases chain@.len() - i,
    {
        assert(chain@.skip(i as int).skip(1) =~= chain@.skip(i + 1));
        let found = match &chain[i].name {
            Some(name) => same_text(name.as_str(), binary_name),
            None => false,
        };
        if found {
            return Some(chain[i].pid);
        }
        i = i + 1;
    }
    None
}

/// Whether a teller is heard. One is not where the nearest process above it that runs the tool is
/// known, and is another one than the tool that the socket was handed to: that is an agent which
/// the tool started. Where this cannot be told, it is heard.
pub open spec fn heard(expected: Option<u32>, ancestor: Option<u32>) -> bool {
    !(expected is Some && ancestor is Some && ancestor != expected)
}

/// Whether what a teller says is to be taken. `chain` lists the processes above it, where it is
/// known which process it is.
pub fn accepts(expected: Option<&ExpectedCli>, chain: Option<&Vec<Ancestor>>) -> (r: bool)
    ensures
        r == (match (expected, chain) {
            (Some(e), Some(c)) => heard(
                Some(e.pid),
                nearest(c@, e.binary@, MAX_ANCESTOR_HOPS as int),
            ),
            _ => true,
        }),
{
    match (expected, chain) {
        (Some(e), Some(c)) => match find_cli_ancestor(c, e.binary.as_str()) {
            Some(pid) => pid == e.pid,
            None => true,
        },
        _ => true,
    }
}

/// The tool itself is heard, through whatever it runs its hooks with; another process that runs
/// the same program is not.
pub proof fn law_only_the_tool_is_heard(pid: u32, wrappers: Seq<Ancestor>, tool: Ancestor)
    requires
        wrappers.len() < MAX_ANCESTOR_HOPS,
        tool.name is Some,
        forall|i: int|
            0 <= i < wrappers.len() ==> text_opt((#[trigger] wrappers[i]).name) != text_opt(tool.name),
    ensures
        heard(
            Some(pid),
            nearest(wrappers.push(tool), tool.name->0@, MAX_ANCESTOR_HOPS as int),
        ) == (tool.pid == pid),
{
    lemma_nearest_behind(wrappers, tool, MAX_ANCESTOR_HOPS as int);
}

proof fn lemma_nearest_behind(wrappers: Seq<Ancestor>, tool: Ancestor, n: int)
    requires
        wrappers.len() < n,
        tool.name is Some,
        forall|i: int|
            0 <= i < wrappers.len() ==> text_opt((#[trigger] wrappers[i]).name) != text_opt(tool.name),
    ensures
        nearest(wrappers.push(tool), tool.name->0@, n) == Some(tool.pid),
    decreases wrappers.len(),
{
    let chain = wrappers.push(tool);
    if wrappers.len() == 0 {
        assert(chain[0] == tool);
    } else {
        assert(chain[0] == wrappers[0]);
        assert(chain.skip(1) =~= wrappers.skip(1).push(tool));
        lemma_nearest_behind(wrappers.skip(1), tool, n - 1);
    }
}

// ---------------------------------------------------------------------------
// The socket and its messages
// ---------------------------------------------------------------------------

/// The path of a socket.
pub open spec fn socket_path(pid: u32, n: u32) -> Seq<char> {
    "/tmp/agt-"@ + decimal(pid as nat) + "-"@ + decimal(n as nat) + ".sock"@
}

/// The path of the `n`th socket that the process `pid` makes.
pub fn path_of_socket(pid: u32, n: u32) -> (r: String)
    ensures
        r@ == socket_path(pid, n),
{
    let mut r = concat2("/tmp/agt-", decimal_text(pid as u64).as_str());
    r.append("-");
    r.append(decimal_text(n as u64).as_str());
    r.append(".sock");
    r
}

/// Two sockets of a process have different paths.
pub proof fn law_sockets_differ(pid: u32, a: u32, b: u32)
    requires
        a != b,
    ensures
        socket_path(pid, a) != socket_path(pid, b),
{
    if socket_path(pid, a) == socket_path(pid, b) {
        let head = "/tmp/agt-"@ + decimal(pid as nat) + "-"@;
        let tail = ".sock"@;
        let p = socket_path(pid, a);
        let q = socket_path(pid, b);
        assert(p.subrange(head.len() as int, p.len() - tail.len()) =~= decimal(a as nat));
        assert(q.subrange(head.len() as int, q.len() - tail.len()) =~= decimal(b as nat));
        law_decimal_is_read_back(a as nat);
        law_decimal_is_read_back(b as nat);
        assert(false);
    }
}

/// The socket that a hook writes to: the one that the environment names, unless it is empty.
pub fn hook_socket(named: Option<String>) -> (r: Option<String>)
    ensures
        text_opt(r) == (match text_opt(named) {
            Some(p) => if p.len() == 0 {
                None
            } else {
                Some(p)
            },
            None => None,
        }),
{
    match named {
        Some(p) => {
            if p.as_str().is_empty() {
                None
            } else {
                Some(p)
            }
        },
        None => None,
    }
}

/// The message that a hook writes for what its tool handed to it. Of several workspaces the first
/// one is told.
pub fn hook_message(payload: HookPayload) -> (r: HookMessage)
    ensures
        r.kind@ == "session-start"@,
        r.session_id@ == payload.session_id@,
        text_opt(r.transcript_path) == text_opt(payload.transcript_path),
        text_opt(r.workspace_path) == (match payload.workspace_roots {
            Some(roots) => if roots@.len() == 0 {
                None
            } else {
                Some(roots@[0]@)
            },
            None => None,
        }),
{
    let workspace_path = match &payload.workspace_roots {
        Some(roots) => {
            if roots.len() == 0 {
                None
            } else {
                Some(roots[0].clone())
            }
        },
        None => None,
    };
    HookMessage {
        kind: "session-start".to_owned(),
        session_id: payload.session_id,
        transcript_path: payload.transcript_path,
        workspace_path,
    }
}

} // verus!
