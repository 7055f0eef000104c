//! The active branch among the messages of a transcript.
//!
//! The messages of a transcript form a tree, and the last one that is no tool result picks the
//! branch to show. A backward pass over what is there finds that branch; a forward pass then
//! takes or drops each message, and goes on with those that arrive later. Tool results may hang
//! off the branch: they are followed up to it through `active_tool_results`.
use crate::text::same_text;
use std::collections::HashSet;
use vstd::hash_map::StringHashMap;
use vstd::hash_set::StringHashSet;
use vstd::prelude::*;

verus! {

broadcast use {vstd::std_specs::hash::group_hash_axioms, vstd::string::group_string_axioms};

/// The state of the two passes.
pub struct MessagePath {
    /// The ids on the active branch, without the tool results that may hang off it.
    pub active_path: StringHashSet,
    /// For each tool result on the branch or hanging off it, the id that it follows.
    pub active_tool_results: StringHashMap<String>,
    /// The last message of the branch that is no tool result.
    pub active_tail: Option<String>,
    /// The offset of the first message that the backward pass read.
    pub initial_offset: Option<usize>,
    /// The offsets that the backward pass found on the branch. Ids may repeat, offsets do not.
    pub initial_active_offsets: HashSet<usize>,
    /// Whether the forward pass has taken a root.
    pub root_emitted: bool,
}

/// A message as the passes see it.
pub struct MessageNode<'a> {
    pub uuid: &'a str,
    pub parent_uuid: Option<&'a str>,
    pub is_tool_result: bool,
    pub byte_offset: usize,
}

/// What the forward pass does with a message.
#[derive(Clone, Copy, Debug, PartialEq, Eq, Structural)]
pub enum ForwardPathResult {
    /// Take it.
    Ingest,
    /// The branch has changed: read all again.
    Rewind,
    /// Leave it out.
    Drop,
}

/// What a `MessagePath` holds.
#[verifier::ext_equal]
pub struct PathModel {
    pub path: Set<Seq<char>>,
    pub results: Map<Seq<char>, Seq<char>>,
    pub tail: Option<Seq<char>>,
    pub initial_offset: Option<usize>,
    pub offsets: Set<usize>,
    pub root_emitted: bool,
}

/// What a `MessageNode` holds.
pub struct NodeModel {
    pub uuid: Seq<char>,
    pub parent: Option<Seq<char>>,
    pub is_tool_result: bool,
    pub offset: usize,
}

impl<'a> View for MessageNode<'a> {
    type V = NodeModel;

    open spec fn view(&self) -> NodeModel {
        NodeModel {
            uuid: self.uuid@,
            parent: match self.parent_uuid {
                Some(p) => Some(p@),
                None => None,
            },
            is_tool_result: self.is_tool_result,
            offset: self.byte_offset,
        }
    }
}

/// The views of the values of a map.
pub open spec fn text_map(m: Map<Seq<char>, String>) -> Map<Seq<char>, Seq<char>> {
    Map::new(|k: Seq<char>| m.contains_key(k), |k: Seq<char>| m[k]@)
}

impl View for MessagePath {
    type V = PathModel;

    open spec fn view(&self) -> PathModel {
        PathModel {
            path: self.active_path@,
            results: text_map(self.active_tool_results@),
            tail: match self.active_tail {
                Some(t) => Some(t@),
                None => None,
            },
            initial_offset: self.initial_offset,
            offsets: self.initial_active_offsets@,
            root_emitted: self.root_emitted,
        }
    }
}

impl PathModel {
    /// The tail is on the branch.
    pub open spec fn valid(self) -> bool {
        &&& self.results.dom().finite()
        &&& (self.tail is Some ==> self.path.contains(self.tail->0))
    }
}

/// The state before any pass.
pub open spec fn fresh_path() -> PathModel {
    PathModel {
        path: Set::empty(),
        results: Map::empty(),
        tail: None,
        initial_offset: None,
        offsets: Set::empty(),
        root_emitted: false,
    }
}

/// The id that following `k` tool results from `start` leads to.
pub open spec fn follow(results: Map<Seq<char>, Seq<char>>, start: Seq<char>, k: nat) -> Option<
    Seq<char>,
>
    decreases k,
{
    if k == 0 {
        Some(start)
    } else {
        match follow(results, start, (k - 1) as nat) {
            Some(id) => if results.contains_key(id) {
                Some(results[id])
            } else {
                None
            },
            None => None,
        }
    }
}

/// Following tool results from `start` leads to `goal`.
pub open spec fn reaches(
    results: Map<Seq<char>, Seq<char>>,
    start: Seq<char>,
    goal: Option<Seq<char>>,
) -> bool {
    goal is Some && exists|k: nat| follow(results, start, k) == goal
}

/// Following tool results from `start` leads onto the path.
pub open spec fn dangles(
    results: Map<Seq<char>, Seq<char>>,
    path: Set<Seq<char>>,
    start: Seq<char>,
) -> bool {
    exists|k: nat| leads_onto(results, path, start, k)
}

/// Following `k` tool results from `start` leads to an id on the path.
pub open spec fn leads_onto(
    results: Map<Seq<char>, Seq<char>>,
    path: Set<Seq<char>>,
    start: Seq<char>,
    k: nat,
) -> bool {
    match follow(results, start, k) {
        Some(id) => path.contains(id),
        None => false,
    }
}

/// The `k`-th id from `start` on is a tool result, and none up to it is on the path.
pub open spec fn passes(
    results: Map<Seq<char>, Seq<char>>,
    path: Set<Seq<char>>,
    start: Seq<char>,
    k: nat,
    id: Seq<char>,
) -> bool {
    &&& follow(results, start, k) == Some(id)
    &&& results.contains_key(id)
    &&& forall|j: nat| j <= k ==> !leads_onto(results, path, start, j)
}

/// The tool results that following from `start` passes before it is on the path.
pub open spec fn passed(
    results: Map<Seq<char>, Seq<char>>,
    path: Set<Seq<char>>,
    start: Seq<char>,
) -> Set<Seq<char>> {
    Set::new(|id: Seq<char>| exists|k: nat| passes(results, path, start, k, id))
}

/// `path` with the node's parent on it.
pub open spec fn with_parent(path: Set<Seq<char>>, node: NodeModel) -> Set<Seq<char>> {
    match node.parent {
        Some(p) => path.insert(p),
        None => path,
    }
}

/// One message of the backward pass: the first that is no tool result becomes the tail, and what
/// is on the branch brings its parent onto it.
pub open spec fn backward_step(s: PathModel, node: NodeModel) -> PathModel {
    let s1 = PathModel {
        initial_offset: match s.initial_offset {
            Some(o) => Some(o),
            None => Some(node.offset),
        },
        ..s
    };
    if s.path.contains(node.uuid) {
        PathModel {
            path: with_parent(s.path, node),
            offsets: s.offsets.insert(node.offset),
            ..s1
        }
    } else if s.tail is None && !node.is_tool_result {
        PathModel {
            path: with_parent(s.path.insert(node.uuid), node),
            tail: Some(node.uuid),
            offsets: s.offsets.insert(node.offset),
            ..s1
        }
    } else {
        s1
    }
}

/// Whether a message has a parent: an empty id names none.
pub open spec fn has_parent(node: NodeModel) -> bool {
    node.parent is Some && node.parent->0.len() > 0
}

/// One message of the forward pass.
pub open spec fn forward_step(s: PathModel, node: NodeModel) -> (PathModel, ForwardPathResult) {
    if has_parent(node) {
        let parent = node.parent->0;
        if node.is_tool_result {
            if dangles(s.results, s.path, parent) {
                (
                    PathModel { results: s.results.insert(node.uuid, parent), ..s },
                    ForwardPathResult::Ingest,
                )
            } else {
                (s, ForwardPathResult::Drop)
            }
        } else if s.offsets.contains(node.offset) || reaches(s.results, parent, s.tail) {
            (
                PathModel {
                    path: s.path.union(passed(s.results, s.path, parent)).insert(node.uuid),
                    tail: Some(node.uuid),
                    ..s
                },
                ForwardPathResult::Ingest,
            )
        } else if s.initial_offset is Some && node.offset < s.initial_offset->0 {
            (s, ForwardPathResult::Drop)
        } else {
            (s, ForwardPathResult::Rewind)
        }
    } else if s.root_emitted {
        (s, ForwardPathResult::Drop)
    } else if s.path == Set::<Seq<char>>::empty() {
        (
            PathModel {
                path: s.path.insert(node.uuid),
                tail: Some(node.uuid),
                root_emitted: true,
                ..s
            },
            ForwardPathResult::Ingest,
        )
    } else if s.offsets.contains(node.offset) {
        (PathModel { root_emitted: true, ..s }, ForwardPathResult::Ingest)
    } else {
        (s, ForwardPathResult::Drop)
    }
}

proof fn lemma_follow_stops(
    results: Map<Seq<char>, Seq<char>>,
    start: Seq<char>,
    k: nat,
    n: nat,
)
    requires
        k <= n,
        follow(results, start, k) is None,
    ensures
        follow(results, start, n) is None,
    decreases n,
{
    if k < n {
        lemma_follow_stops(results, start, k, (n - 1) as nat);
    }
}

proof fn lemma_follow_cycles(
    results: Map<Seq<char>, Seq<char>>,
    start: Seq<char>,
    i: nat,
    k: nat,
    n: nat,
) -> (j: nat)
    requires
        i < k,
        follow(results, start, k) is Some,
        follow(results, start, i) == follow(results, start, k),
    ensures
        j < k,
        follow(results, start, n) == follow(results, start, j),
    decreases n,
{
    if n < k {
        n
    } else if n == k {
        i
    } else {
        let j = lemma_follow_cycles(results, start, i, k, (n - 1) as nat);
        if j + 1 == k {
            i
        } else {
            j + 1
        }
    }
}

impl MessagePath {
    /// A path before any pass.
    pub fn new() -> (r: Self)
        ensures
            r@ == fresh_path(),
            r@.valid(),
    {
        let r = MessagePath {
            active_path: StringHashSet::new(),
            active_tool_results: StringHashMap::new(),
            active_tail: None,
            initial_offset: None,
            initial_active_offsets: HashSet::new(),
            root_emitted: false,
        };
        assert(r@ =~= fresh_path());
        assert(r@.results.dom() =~= Set::empty());
        r
    }

    /// One message of the backward pass.
    pub fn backward(&mut self, node: &MessageNode)
        requires
            old(self)@.valid(),
        ensures
            final(self)@ == backward_step(old(self)@, node@),
            final(self)@.valid(),
    {
        let ghost goal = backward_step(self@, node@);
        if self.initial_offset.is_none() {
            self.initial_offset = Some(node.byte_offset);
        }
        if self.active_path.contains(node.uuid) {
            self.initial_active_offsets.insert(node.byte_offset);
            if let Some(p) = node.parent_uuid {
                let _ = self.active_path.insert(p.to_owned());
            }
        } else if self.active_tail.is_none() && !node.is_tool_result {
            self.active_tail = Some(node.uuid.to_owned());
            let _ = self.active_path.insert(node.uuid.to_owned());
            self.initial_active_offsets.insert(node.byte_offset);
            if let Some(p) = node.parent_uuid {
                let _ = self.active_path.insert(p.to_owned());
            }
        }
        assert(self@ =~= goal);
    }

    /// One message of the forward pass.
    pub fn forward(&mut self, node: &MessageNode) -> (r: ForwardPathResult)
        requires
            old(self)@.valid(),
        ensures
            (final(self)@, r) == forward_step(old(self)@, node@),
            final(self)@.valid(),
    {
        let ghost goal = forward_step(self@, node@);
        let parent = match node.parent_uuid {
            Some(p) => if p.is_empty() {
                None
            } else {
                Some(p)
            },
            None => None,
        };
        match parent {
            Some(p) => {
                if node.is_tool_result {
                    if self.is_dangling(p) {
                        self.active_tool_results.insert(node.uuid.to_owned(), p.to_owned());
                        assert(self@.results =~= old(self)@.results.insert(node.uuid@, p@));
                        assert(self@ =~= goal.0);
                        assert(self@.results.dom() =~= old(self)@.results.dom().insert(node.uuid@));
                        ForwardPathResult::Ingest
                    } else {
                        ForwardPathResult::Drop
                    }
                } else if self.initial_active_offsets.contains(&node.byte_offset)
                    || self.can_reach_tail(p) {
                    self.take_passed(p);
                    self.set_active_tail(node.uuid);
                    assert(self@ =~= goal.0);
                    ForwardPathResult::Ingest
                } else {
                    match self.initial_offset {
                        Some(initial) if node.byte_offset < initial => ForwardPathResult::Drop,
                        _ => ForwardPathResult::Rewind,
                    }
                }
            },
            None => {
                if self.root_emitted {
                    ForwardPathResult::Drop
                } else if self.active_path.is_empty() {
                    assert(self@.path =~= Set::<Seq<char>>::empty());
                    self.set_active_tail(node.uuid);
                    self.root_emitted = true;
                    assert(self@ =~= goal.0);
                    ForwardPathResult::Ingest
                } else if self.initial_active_offsets.contains(&node.byte_offset) {
                    self.root_emitted = true;
                    assert(self@ =~= goal.0);
                    ForwardPathResult::Ingest
                } else {
                    ForwardPathResult::Drop
                }
            },
        }
    }

    /// Forgets all that the passes found.
    pub fn reset(&mut self)
        ensures
            final(self)@ == fresh_path(),
            final(self)@.valid(),
    {
        self.active_path.clear();
        self.active_tool_results.clear();
        self.active_tail = None;
        self.initial_offset = None;
        self.initial_active_offsets.clear();
        self.root_emitted = false;
        assert(self@ =~= fresh_path());
        assert(self@.results.dom() =~= Set::empty());
    }

    /// Makes `start` the tail and puts it on the branch.
    fn set_active_tail(&mut self, start: &str)
        requires
            old(self)@.valid(),
        ensures
            final(self)@ == (PathModel {
                path: old(self)@.path.insert(start@),
                tail: Some(start@),
                ..old(self)@
            }),
            final(self)@.valid(),
    {
        self.active_tail = Some(start.to_owned());
        let _ = self.active_path.insert(start.to_owned());
    }

    /// Puts the tool results that lead from `start` to the branch on it.
    fn take_passed(&mut self, start: &str)
        requires
            old(self)@.valid(),
        ensures
            final(self)@ == (PathModel {
                path: old(self)@.path.union(passed(old(self)@.results, old(self)@.path, start@)),
                ..old(self)@
            }),
            final(self)@.valid(),
    {
        let ghost s0 = self@;
        let ids = self.trail(start);
        let mut i: usize = 0;
        let mut done = false;
        while !done && i < ids.len()
            invariant
                i <= ids@.len(),
                is_trail(s0.results, start@, ids@),
                self@.path == s0.path.union(passed_among(s0, ids@, i as int)),
                self@ == (PathModel { path: self@.path, ..s0 }),
                forall|j: int| 0 <= j < i ==> !s0.path.contains(#[trigger] ids@[j]@),
                done ==> i < ids@.len() && s0.path.contains(ids@[i as int]@),
            decreases ids@.len() - i + if done { 0int } else { 1int },
        {
            let id = ids[i].as_str();
            proof {
                if self@.path.contains(id@) && !s0.path.contains(id@) {
                    let j = choose|j: int| 0 <= j < i && (#[trigger] ids@[j])@ == id@;
                    assert(ids@[j]@ != ids@[i as int]@);
                }
            }
            if self.active_path.contains(id) {
                done = true;
            } else {
                let ghost before = self@.path;
                if self.active_tool_results.contains_key(id) {
                    assert(s0.results.contains_key(id@));
                    let _ = self.active_path.insert(id.to_owned());
                } else {
                    assert(!s0.results.contains_key(id@));
                }
                i = i + 1;
                proof {
                    assert(ids@[i - 1]@ == id@);
                    assert(self@.path =~= s0.path.union(passed_among(s0, ids@, i as int)));
                    assert(self@ =~= (PathModel { path: self@.path, ..s0 }));
                }
            }
        }
        proof {
            lemma_passed_among(s0, start@, ids@, i as int);
            assert(self@.path =~= s0.path.union(passed(s0.results, s0.path, start@)));
            assert(self@ =~= (PathModel {
                path: s0.path.union(passed(s0.results, s0.path, start@)),
                ..s0
            }));
        }
    }

    /// Whether a tool result that follows `start` hangs off the branch.
    fn is_dangling(&self, start: &str) -> (r: bool)
        requires
            self@.valid(),
        ensures
            r == dangles(self@.results, self@.path, start@),
    {
        let ids = self.trail(start);
        let mut i: usize = 0;
        while i < ids.len()
            invariant
                i <= ids@.len(),
                is_trail(self@.results, start@, ids@),
                forall|j: int| 0 <= j < i ==> !self@.path.contains(#[trigger] ids@[j]@),
            decreases ids@.len() - i,
        {
            if self.active_path.contains(ids[i].as_str()) {
                assert(leads_onto(self@.results, self@.path, start@, i as nat));
                return true;
            }
            i = i + 1;
        }
        proof {
            assert forall|k: nat| !leads_onto(self@.results, self@.path, start@, k) by {
                if leads_onto(self@.results, self@.path, start@, k) {
                    let j = choose|j: int|
                        0 <= j < ids@.len() && Some((#[trigger] ids@[j])@) == follow(
                            self@.results,
                            start@,
                            k,
                        );
                    assert(!self@.path.contains(ids@[j]@));
                }
            }
        }
        false
    }

    /// Whether following tool results from `start` leads to the tail.
    fn can_reach_tail(&self, start: &str) -> (r: bool)
        requires
            self@.valid(),
        ensures
            r == reaches(self@.results, start@, self@.tail),
    {
        let tail: &String = match &self.active_tail {
            Some(t) => t,
            None => {
                return false;
            },
        };
        let ids = self.trail(start);
        let mut i: usize = 0;
        while i < ids.len()
            invariant
                i <= ids@.len(),
                self@.tail == Some(tail@),
                is_trail(self@.results, start@, ids@),
                forall|j: int| 0 <= j < i ==> (#[trigger] ids@[j])@ != tail@,
            decreases ids@.len() - i,
        {
            if same_text(ids[i].as_str(), tail.as_str()) {
                assert(follow(self@.results, start@, i as nat) == Some(tail@));
                return true;
            }
            i = i + 1;
        }
        proof {
            assert forall|k: nat| follow(self@.results, start@, k) != Some(tail@) by {
                if follow(self@.results, start@, k) == Some(tail@) {
                    let j = choose|j: int|
                        0 <= j < ids@.len() && Some((#[trigger] ids@[j])@) == follow(
                            self@.results,
                            start@,
                            k,
                        );
                    assert(ids@[j]@ != tail@);
                }
            }
        }
        false
    }

    /// The ids that following tool results from `start` passes, `start` first. Ids may repeat in a
    /// transcript, so the way may come back to one: each is listed once.
    fn trail(&self, start: &str) -> (r: Vec<String>)
        requires
            self@.valid(),
        ensures
            is_trail(self@.results, start@, r@),
    {
        let ghost results = self@.results;
        let mut seen = StringHashSet::new();
        let mut cur = start.to_owned();
        let mut out: Vec<String> = Vec::new();
        loop
            invariant
                results == self@.results,
                results.dom().finite(),
                follow(results, start@, out@.len()) == Some(cur@),
                forall|i: int|
                    0 <= i < out@.len() ==> follow(results, start@, i as nat) == Some(
                        (#[trigger] out@[i])@,
                    ),
                forall|i: int, j: int|
                    0 <= i < j < out@.len() ==> (#[trigger] out@[i])@ != (#[trigger] out@[j])@,
                forall|id: Seq<char>|
                    #![trigger seen@.contains(id)]
                    seen@.contains(id) <==> exists|i: int|
                        0 <= i < out@.len() && (#[trigger] out@[i])@ == id,
                seen@.subset_of(results.dom()),
            decreases results.dom().difference(seen@).len(),
        {
            let ghost k = out@.len();
            if seen.contains(cur.as_str()) {
                proof {
                    let i = choose|i: int| 0 <= i < out@.len() && (#[trigger] out@[i])@ == cur@;
                    assert(follow(results, start@, i as nat) == Some(cur@));
                    assert forall|n: nat| follow(results, start@, n) is Some implies listed(
                        out@,
                        follow(results, start@, n),
                    ) by {
                        let j = lemma_follow_cycles(results, start@, i as nat, k, n);
                        assert(Some(out@[j as int]@) == follow(results, start@, n));
                    }
                }
                return out;
            }
            let next: Option<String> = match self.active_tool_results.get(cur.as_str()) {
                Some(parent) => Some(parent.clone()),
                None => None,
            };
            let ghost before = seen@;
            let ghost here = cur@;
            let ghost old_out = out@;
            out.push(cur.clone());
            let _ = seen.insert(cur);
            proof {
                assert(out@[k as int]@ == here);
                assert forall|i: int| 0 <= i < k implies (#[trigger] out@[i])@ != here by {
                    assert(out@[i] == old_out[i]);
                    if old_out[i]@ == here {
                        assert(before.contains(here));
                    }
                }
                assert forall|id: Seq<char>| #![trigger seen@.contains(id)] seen@.contains(id) <==> exists|i: int|
                    0 <= i < out@.len() && (#[trigger] out@[i])@ == id by {
                    if before.contains(id) {
                        let i = choose|i: int|
                            0 <= i < old_out.len() && (#[trigger] old_out[i])@ == id;
                        assert(out@[i]@ == id);
                    }
                    if exists|i: int| 0 <= i < out@.len() && (#[trigger] out@[i])@ == id {
                        let i = choose|i: int| 0 <= i < out@.len() && (#[trigger] out@[i])@ == id;
                        if i < k {
                            assert(old_out[i]@ == id);
                        }
                    }
                }
            }
            match next {
                Some(parent) => {
                    proof {
                        assert(results.contains_key(here) && results[here] == parent@);
                        assert(follow(results, start@, k + 1) == Some(parent@));
                        assert(results.dom().difference(before).remove(here)
                            =~= results.dom().difference(seen@));
                        assert(results.dom().difference(before).contains(here));
                    }
                    cur = parent;
                },
                None => {
                    proof {
                        assert(!results.contains_key(here));
                        assert(follow(results, start@, k + 1) is None);
                        assert forall|n: nat| follow(results, start@, n) is Some implies listed(
                            out@,
                            follow(results, start@, n),
                        ) by {
                            if n > k {
                                lemma_follow_stops(results, start@, k + 1, n);
                            }
                            assert(Some(out@[n as int]@) == follow(results, start@, n));
                        }
                    }
                    return out;
                },
            }
        }
    }
}

/// An id is among the listed ones.
spec fn listed(ids: Seq<String>, id: Option<Seq<char>>) -> bool {
    exists|i: int| 0 <= i < ids.len() && Some((#[trigger] ids[i])@) == id
}

/// The ids that following from `start` passes, in order, each once.
spec fn is_trail(results: Map<Seq<char>, Seq<char>>, start: Seq<char>, ids: Seq<String>) -> bool {
    &&& forall|i: int|
        0 <= i < ids.len() ==> follow(results, start, i as nat) == Some((#[trigger] ids[i])@)
    &&& forall|i: int, j: int|
        0 <= i < j < ids.len() ==> (#[trigger] ids[i])@ != (#[trigger] ids[j])@
    &&& forall|n: nat|
        #![trigger follow(results, start, n)]
        follow(results, start, n) is Some ==> listed(ids, follow(results, start, n))
}

/// The tool results among the first `n` ids.
spec fn passed_among(s: PathModel, ids: Seq<String>, n: int) -> Set<Seq<char>> {
    Set::new(
        |id: Seq<char>|
            s.results.contains_key(id) && exists|i: int| 0 <= i < n && (#[trigger] ids[i])@ == id,
    )
}

proof fn lemma_passed_among(s: PathModel, start: Seq<char>, ids: Seq<String>, n: int)
    requires
        is_trail(s.results, start, ids),
        0 <= n <= ids.len(),
        forall|j: int| 0 <= j < n ==> !s.path.contains(#[trigger] ids[j]@),
        n < ids.len() ==> s.path.contains(ids[n]@),
    ensures
        passed_among(s, ids, n) == passed(s.results, s.path, start),
{
    let all = passed(s.results, s.path, start);
    assert forall|id: Seq<char>| passed_among(s, ids, n).contains(id) implies all.contains(id) by {
        let i = choose|i: int| 0 <= i < n && (#[trigger] ids[i])@ == id;
        assert forall|j: nat| j <= i implies !leads_onto(s.results, s.path, start, j) by {
            assert(follow(s.results, start, j) == Some(ids[j as int]@));
        }
        assert(passes(s.results, s.path, start, i as nat, id));
    }
    assert forall|id: Seq<char>| all.contains(id) implies passed_among(s, ids, n).contains(id) by {
        let k = choose|k: nat| passes(s.results, s.path, start, k, id);
        assert(listed(ids, follow(s.results, start, k)));
        let i = choose|i: int| 0 <= i < ids.len() && Some((#[trigger] ids[i])@) == Some(id);
        if i >= n {
            assert(leads_onto(s.results, s.path, start, n as nat)) by {
                assert(follow(s.results, start, n as nat) == Some(ids[n]@));
            }
            if k < n {
                assert(follow(s.results, start, k) == Some(ids[k as int]@));
                assert(ids[k as int]@ != ids[i]@);
            }
        }
    }
    assert(passed_among(s, ids, n) =~= all);
}

// ---------------------------------------------------------------------------
// Laws
// ---------------------------------------------------------------------------

/// The state after a backward pass over `nodes[j..]`, the last message first.
pub open spec fn backward_from(nodes: Seq<NodeModel>, j: int) -> PathModel
    decreases nodes.len() - j,
{
    if j < 0 || j >= nodes.len() {
        fresh_path()
    } else {
        backward_step(backward_from(nodes, j + 1), nodes[j])
    }
}

/// The state after a forward pass over the first `k` messages.
pub open spec fn forward_to(s: PathModel, nodes: Seq<NodeModel>, k: int) -> PathModel
    decreases k,
{
    if k <= 0 || k > nodes.len() {
        s
    } else {
        forward_step(forward_to(s, nodes, k - 1), nodes[k - 1]).0
    }
}

/// Message `i` is message `t` or the parent of a later message on the branch of `t`.
pub open spec fn on_branch(nodes: Seq<NodeModel>, t: int, i: int) -> bool
    decreases nodes.len() - i,
{
    i == t || exists|k: int|
        i < k < nodes.len() && #[trigger] is_parent(nodes, i, k) && on_branch(nodes, t, k)
}

/// Message `i` is the parent of message `k`.
pub open spec fn is_parent(nodes: Seq<NodeModel>, i: int, k: int) -> bool {
    nodes[k].parent == Some(nodes[i].uuid)
}

/// Message `t` is the last that is no tool result.
pub open spec fn is_tip(nodes: Seq<NodeModel>, t: int) -> bool {
    &&& 0 <= t < nodes.len()
    &&& !nodes[t].is_tool_result
    &&& forall|k: int| t < k < nodes.len() ==> (#[trigger] nodes[k]).is_tool_result
}

/// No two messages have the same id.
pub open spec fn distinct_ids(nodes: Seq<NodeModel>) -> bool {
    forall|i: int, k: int|
        0 <= i < k < nodes.len() ==> (#[trigger] nodes[i]).uuid != (#[trigger] nodes[k]).uuid
}

/// The branch above the tip holds nothing that stands behind the tip.
proof fn lemma_branch_before_tip(nodes: Seq<NodeModel>, t: int, i: int)
    requires
        is_tip(nodes, t),
        t < i < nodes.len(),
    ensures
        !on_branch(nodes, t, i),
    decreases nodes.len() - i,
{
    assert forall|k: int| i < k < nodes.len() && #[trigger] is_parent(nodes, i, k) implies !on_branch(
        nodes,
        t,
        k,
    ) by {
        lemma_branch_before_tip(nodes, t, k);
    }
}

/// What the backward pass over `nodes[j..]` has found.
pub open spec fn found(nodes: Seq<NodeModel>, t: int, j: int, s: PathModel) -> bool {
    &&& s.tail == (if j <= t {
        Some(nodes[t].uuid)
    } else {
        None
    })
    &&& forall|o: usize|
        s.offsets.contains(o) <==> exists|i: int|
            j <= i < nodes.len() && on_branch(nodes, t, i) && (#[trigger] nodes[i]).offset == o
    &&& forall|id: Seq<char>|
        s.path.contains(id) <==> exists|i: int|
            j <= i < nodes.len() && on_branch(nodes, t, i) && ((#[trigger] nodes[i]).uuid == id
                || nodes[i].parent == Some(id))
    &&& s.results == Map::<Seq<char>, Seq<char>>::empty()
    &&& !s.root_emitted
}

proof fn lemma_backward_finds(nodes: Seq<NodeModel>, t: int, j: int)
    requires
        is_tip(nodes, t),
        distinct_ids(nodes),
        0 <= j <= nodes.len(),
    ensures
        found(nodes, t, j, backward_from(nodes, j)),
        j < nodes.len() ==> backward_from(nodes, j).initial_offset == Some(nodes.last().offset),
        j == nodes.len() ==> backward_from(nodes, j).initial_offset is None,
    decreases nodes.len() - j,
{
    if j < nodes.len() {
        lemma_backward_finds(nodes, t, j + 1);
        let s = backward_from(nodes, j + 1);
        let node = nodes[j];
        let s1 = backward_step(s, node);
        assert(s.path.contains(node.uuid) ==> on_branch(nodes, t, j)) by {
            if s.path.contains(node.uuid) {
                let i = choose|i: int|
                    j + 1 <= i < nodes.len() && on_branch(nodes, t, i) && ((
                    #[trigger] nodes[i]).uuid == node.uuid || nodes[i].parent == Some(node.uuid));
                assert(nodes[j].uuid != nodes[i].uuid);
                assert(is_parent(nodes, j, i));
            }
        }
        if j > t {
            lemma_branch_before_tip(nodes, t, j);
        } else if j < t {
            assert(on_branch(nodes, t, j) ==> s.path.contains(node.uuid)) by {
                if on_branch(nodes, t, j) {
                    let k = choose|k: int|
                        j < k < nodes.len() && #[trigger] is_parent(nodes, j, k) && on_branch(
                            nodes,
                            t,
                            k,
                        );
                    assert(nodes[k].parent == Some(node.uuid));
                }
            }
        } else {
            assert(!s.path.contains(node.uuid)) by {
                if s.path.contains(node.uuid) {
                    let i = choose|i: int|
                        j + 1 <= i < nodes.len() && on_branch(nodes, t, i) && ((
                        #[trigger] nodes[i]).uuid == node.uuid || nodes[i].parent == Some(
                            node.uuid,
                        ));
                    lemma_branch_before_tip(nodes, t, i);
                }
            }
        }
        let taken = on_branch(nodes, t, j);
        assert(taken ==> s1.offsets == s.offsets.insert(node.offset));
        assert(!taken ==> s1.offsets == s.offsets);
        assert forall|o: usize| s1.offsets.contains(o) implies exists|i: int|
            j <= i < nodes.len() && on_branch(nodes, t, i) && (#[trigger] nodes[i]).offset == o by {
            if taken && o == node.offset {
                assert(nodes[j].offset == o);
            } else {
                let i = choose|i: int|
                    j + 1 <= i < nodes.len() && on_branch(nodes, t, i) && (
                    #[trigger] nodes[i]).offset == o;
                assert(nodes[i].offset == o);
            }
        }
        assert forall|o: usize|
            (exists|i: int|
                j <= i < nodes.len() && on_branch(nodes, t, i) && (#[trigger] nodes[i]).offset
                    == o) implies s1.offsets.contains(o) by {
            let i = choose|i: int|
                j <= i < nodes.len() && on_branch(nodes, t, i) && (#[trigger] nodes[i]).offset
                    == o;
            if i > j {
                assert(s.offsets.contains(o));
            }
        }
        assert forall|id: Seq<char>| s1.path.contains(id) implies exists|i: int|
            j <= i < nodes.len() && on_branch(nodes, t, i) && ((#[trigger] nodes[i]).uuid == id
                || nodes[i].parent == Some(id)) by {
            if taken && (node.uuid == id || node.parent == Some(id)) {
                assert(nodes[j].uuid == id || nodes[j].parent == Some(id));
            } else {
                let i = choose|i: int|
                    j + 1 <= i < nodes.len() && on_branch(nodes, t, i) && ((
                    #[trigger] nodes[i]).uuid == id || nodes[i].parent == Some(id));
                assert(nodes[i].uuid == id || nodes[i].parent == Some(id));
            }
        }
        assert forall|id: Seq<char>|
            (exists|i: int|
                j <= i < nodes.len() && on_branch(nodes, t, i) && ((#[trigger] nodes[i]).uuid
                    == id || nodes[i].parent == Some(id))) implies s1.path.contains(id) by {
            let i = choose|i: int|
                j <= i < nodes.len() && on_branch(nodes, t, i) && ((#[trigger] nodes[i]).uuid
                    == id || nodes[i].parent == Some(id));
            if i > j {
                assert(s.path.contains(id));
            }
        }
    }
}

/// The backward pass finds the active branch: the tail is the last message that is no tool
/// result, the offsets are those of the messages that lead to it from the root, and the ids on the
/// path are those of these messages and of their parents.
pub proof fn law_backward_finds_branch(nodes: Seq<NodeModel>, t: int)
    requires
        is_tip(nodes, t),
        distinct_ids(nodes),
    ensures
        backward_from(nodes, 0).tail == Some(nodes[t].uuid),
        backward_from(nodes, 0).initial_offset == Some(nodes.last().offset),
        forall|o: usize|
            backward_from(nodes, 0).offsets.contains(o) <==> exists|i: int|
                0 <= i < nodes.len() && on_branch(nodes, t, i) && (#[trigger] nodes[i]).offset
                    == o,
        forall|id: Seq<char>|
            backward_from(nodes, 0).path.contains(id) <==> exists|i: int|
                0 <= i < nodes.len() && on_branch(nodes, t, i) && ((#[trigger] nodes[i]).uuid == id
                    || nodes[i].parent == Some(id)),
{
    lemma_backward_finds(nodes, t, 0);
}

/// The forward pass keeps the offsets that the backward pass found, and takes nothing off the
/// branch.
pub proof fn law_forward_only_extends(s: PathModel, node: NodeModel)
    ensures
        forward_step(s, node).0.offsets == s.offsets,
        forward_step(s, node).0.initial_offset == s.initial_offset,
        s.path.subset_of(forward_step(s, node).0.path),
        forward_step(s, node).1 != ForwardPathResult::Ingest ==> forward_step(s, node).0 == s,
{
}

proof fn lemma_forward_to_extends(s: PathModel, nodes: Seq<NodeModel>, k: int)
    requires
        0 <= k <= nodes.len(),
    ensures
        forward_to(s, nodes, k).offsets == s.offsets,
        s.path.subset_of(forward_to(s, nodes, k).path),
    decreases k,
{
    if k > 0 {
        lemma_forward_to_extends(s, nodes, k - 1);
        law_forward_only_extends(forward_to(s, nodes, k - 1), nodes[k - 1]);
    }
}

proof fn lemma_no_root_yet(s: PathModel, nodes: Seq<NodeModel>, k: int)
    requires
        0 <= k <= nodes.len(),
        !s.root_emitted,
        s.path != Set::<Seq<char>>::empty(),
        forall|i: int|
            0 <= i < k && !has_parent(#[trigger] nodes[i]) ==> !s.offsets.contains(nodes[i].offset),
    ensures
        !forward_to(s, nodes, k).root_emitted,
        forward_to(s, nodes, k).path != Set::<Seq<char>>::empty(),
    decreases k,
{
    if k > 0 {
        lemma_no_root_yet(s, nodes, k - 1);
        lemma_forward_to_extends(s, nodes, k - 1);
        let before = forward_to(s, nodes, k - 1);
        let after = forward_to(s, nodes, k);
        if after.path == Set::<Seq<char>>::empty() {
            assert(before.path.subset_of(after.path));
            assert(before.path =~= Set::<Seq<char>>::empty());
        }
    }
}

/// After a backward pass over a transcript, the forward pass takes every message of the active
/// branch: those with a parent always, and the root where it is the first one on the branch.
pub proof fn law_branch_is_taken(nodes: Seq<NodeModel>, t: int, i: int)
    requires
        is_tip(nodes, t),
        distinct_ids(nodes),
        0 <= i < nodes.len(),
        on_branch(nodes, t, i),
        has_parent(nodes[i]) || forall|k: int|
            0 <= k < i && !has_parent(#[trigger] nodes[k]) ==> !backward_from(
                nodes,
                0,
            ).offsets.contains(nodes[k].offset),
    ensures
        forward_step(forward_to(backward_from(nodes, 0), nodes, i), nodes[i]).1
            == ForwardPathResult::Ingest,
{
    let s = backward_from(nodes, 0);
    lemma_backward_finds(nodes, t, 0);
    lemma_forward_to_extends(s, nodes, i);
    assert(s.offsets.contains(nodes[i].offset));
    if has_parent(nodes[i]) {
        let here = forward_to(s, nodes, i);
        assert(s.path.contains(nodes[i].parent->0));
        assert(leads_onto(here.results, here.path, nodes[i].parent->0, 0));
    } else {
        assert(s.path.contains(nodes[i].uuid));
        lemma_no_root_yet(s, nodes, i);
    }
}

/// A tool result whose parent is on the branch is taken, and left off the branch as long as nothing
/// follows it.
pub proof fn law_result_hangs(s: PathModel, node: NodeModel)
    requires
        has_parent(node),
        node.is_tool_result,
        s.path.contains(node.parent->0),
    ensures
        forward_step(s, node) == (
            PathModel { results: s.results.insert(node.uuid, node.parent->0), ..s },
            ForwardPathResult::Ingest,
        ),
{
    assert(leads_onto(s.results, s.path, node.parent->0, 0));
}

/// A live message whose parent cannot reach the tail, read behind the backward pass, asks for a
/// rewind and changes nothing.
pub proof fn law_live_fork_rewinds(s: PathModel, node: NodeModel)
    requires
        has_parent(node),
        !node.is_tool_result,
        !s.offsets.contains(node.offset),
        !reaches(s.results, node.parent->0, s.tail),
        s.initial_offset is None || node.offset >= s.initial_offset->0,
    ensures
        forward_step(s, node) == (s, ForwardPathResult::Rewind),
{
}

/// A message that follows the tail, or a tool result that follows it, extends the branch.
pub proof fn law_live_message_extends(s: PathModel, node: NodeModel)
    requires
        has_parent(node),
        !node.is_tool_result,
        reaches(s.results, node.parent->0, s.tail),
    ensures
        forward_step(s, node).1 == ForwardPathResult::Ingest,
        forward_step(s, node).0.tail == Some(node.uuid),
{
}

/// Following tool results from `start` comes to an end.
pub open spec fn stops(results: Map<Seq<char>, Seq<char>>, start: Seq<char>) -> bool {
    exists|k: nat| follow(results, start, k) is None
}

/// Following tool results comes to an end wherever it starts.
pub open spec fn following_ends(results: Map<Seq<char>, Seq<char>>) -> bool {
    forall|start: Seq<char>| #[trigger] stops(results, start)
}

proof fn lemma_follow_on(
    results: Map<Seq<char>, Seq<char>>,
    start: Seq<char>,
    k: nat,
    mid: Seq<char>,
    m: nat,
)
    requires
        follow(results, start, k) == Some(mid),
    ensures
        follow(results, start, k + m) == follow(results, mid, m),
    decreases m,
{
    if m > 0 {
        lemma_follow_on(results, start, k, mid, (m - 1) as nat);
        assert(k + m - 1 == k + (m - 1));
    }
}

/// As long as following does not come by `id`, what `id` follows does not matter.
proof fn lemma_follow_past(
    results: Map<Seq<char>, Seq<char>>,
    id: Seq<char>,
    parent: Seq<char>,
    start: Seq<char>,
    k: nat,
)
    requires
        forall|j: nat| j < k ==> #[trigger] follow(results, start, j) != Some(id),
    ensures
        follow(results.insert(id, parent), start, k) == follow(results, start, k),
    decreases k,
{
    if k > 0 {
        lemma_follow_past(results, id, parent, start, (k - 1) as nat);
        assert(follow(results, start, (k - 1) as nat) != Some(id));
    }
}

/// Following tool results comes to an end as long as no result follows itself by way of others: a
/// message that does not close such a ring keeps it so.
pub proof fn law_following_ends(s: PathModel, node: NodeModel)
    requires
        following_ends(s.results),
        has_parent(node) ==> !reaches(s.results, node.parent->0, Some(node.uuid)),
    ensures
        following_ends(fresh_path().results),
        following_ends(backward_step(s, node).results),
        following_ends(forward_step(s, node).0.results),
{
    assert forall|start: Seq<char>| #[trigger] stops(fresh_path().results, start) by {
        assert(follow(fresh_path().results, start, 0) == Some(start));
        assert(follow(fresh_path().results, start, 1) is None);
    }
    let after = forward_step(s, node).0.results;
    if after != s.results {
        let parent = node.parent->0;
        let id = node.uuid;
        assert(after == s.results.insert(id, parent));
        assert(stops(s.results, parent));
        let m = choose|m: nat| follow(s.results, parent, m) is None;
        assert forall|j: nat| j < m implies #[trigger] follow(s.results, parent, j) != Some(id) by {}
        lemma_follow_past(s.results, id, parent, parent, m);
        assert forall|start: Seq<char>| #[trigger] stops(after, start) by {
            assert(stops(s.results, start));
            let k = choose|k: nat| follow(s.results, start, k) is None;
            if exists|j: nat| j < k && #[trigger] follow(s.results, start, j) == Some(id) {
                let j = choose|j: nat| j < k && #[trigger] follow(s.results, start, j) == Some(id);
                let first = lemma_first_visit(s.results, start, id, j);
                lemma_follow_past(s.results, id, parent, start, first);
                assert(follow(after, start, first) == Some(id));
                assert(follow(after, start, first + 1) == Some(parent));
                lemma_follow_on(after, start, first + 1, parent, m);
                assert(follow(after, start, first + 1 + m) is None);
            } else {
                lemma_follow_past(s.results, id, parent, start, k);
                assert(follow(after, start, k) is None);
            }
        }
    }
}

proof fn lemma_first_visit(
    results: Map<Seq<char>, Seq<char>>,
    start: Seq<char>,
    id: Seq<char>,
    j: nat,
) -> (first: nat)
    requires
        follow(results, start, j) == Some(id),
    ensures
        follow(results, start, first) == Some(id),
        forall|i: nat| i < first ==> #[trigger] follow(results, start, i) != Some(id),
    decreases j,
{
    if exists|i: nat| i < j && #[trigger] follow(results, start, i) == Some(id) {
        let i = choose|i: nat| i < j && #[trigger] follow(results, start, i) == Some(id);
        lemma_first_visit(results, start, id, i)
    } else {
        j
    }
}

} // verus!
