//! Refreshing the list: sessions are read by several workers, and shown in order.
use crate::index::row::{entry_map, scanned_views, ScannedModel, ScannedPath};
use crate::paths::{plain_path, tidy_path};
use crate::order::{is_order, order_of};
use crate::providers::{EntryModel, Moment, TranscriptEntry};
use std::collections::HashMap;
use vstd::hash_map::StringHashMap;
use vstd::prelude::*;
use vstd::string::*;

verus! {

broadcast use {vstd::string::group_string_axioms, vstd::std_specs::hash::group_hash_axioms};

/// How many entries are shown at once, and how many paths are looked up at once.
pub const REFRESH_BATCH_SIZE: usize = 10;

/// The keys by which paths are ordered.
pub open spec fn priority_keys(paths: Seq<ScannedModel>) -> Seq<Moment> {
    paths.map_values(|p: ScannedModel| Moment { secs: p.priority, nanos: 0 })
}

/// The paths at the given places.
pub open spec fn at_places(paths: Seq<ScannedModel>, order: Seq<usize>) -> Seq<ScannedModel> {
    order.map_values(|i: usize| paths[i as int])
}

/// The paths by rising priority; paths of the same priority keep their order.
pub fn sort_paths(paths: &Vec<ScannedPath>) -> (r: Vec<ScannedPath>)
    ensures
        exists|order: Seq<usize>|
            is_order(priority_keys(scanned_views(paths@)), false, order) && scanned_views(r@)
                == #[trigger] at_places(scanned_views(paths@), order),
{
    let ghost all = scanned_views(paths@);
    let mut keys: Vec<Moment> = Vec::new();
    let mut i: usize = 0;
    while i < paths.len()
        invariant
            i <= paths@.len(),
            all == scanned_views(paths@),
            keys@ == priority_keys(all).take(i as int),
        decreases paths@.len() - i,
    {
        let ghost before = keys@;
        keys.push(Moment { secs: paths[i].priority, nanos: 0 });
        i = i + 1;
        assert(priority_keys(all).take(i as int) =~= before.push(
            Moment { secs: paths@[i - 1].priority, nanos: 0 },
        ));
    }
    assert(keys@ =~= priority_keys(all));
    let order = order_of(&keys, false);
    let mut r: Vec<ScannedPath> = Vec::new();
    let mut k: usize = 0;
    while k < order.len()
        invariant
            k <= order@.len(),
            all == scanned_views(paths@),
            keys@.len() == paths@.len(),
            is_order(keys@, false, order@),
            scanned_views(r@) == at_places(all, order@).take(k as int),
        decreases order@.len() - k,
    {
        let ghost before = r@;
        let p = paths[order[k]].clone();
        r.push(p);
        k = k + 1;
        assert(scanned_views(r@) =~= scanned_views(before).push(p@));
        assert(at_places(all, order@).take(k as int) =~= at_places(all, order@).take(k - 1).push(
            p@,
        ));
    }
    assert(at_places(all, order@).take(order@.len() as int) =~= at_places(all, order@));
    r
}

/// What to do about a path.
#[derive(Debug, PartialEq)]
pub enum ReadPlan {
    /// Show what is known.
    Cached(TranscriptEntry),
    /// Read the session, since nothing that still holds is known of it.
    Read,
    /// Read the session, since it is being written.
    ReRead,
}

/// What a `ReadPlan` holds.
pub enum PlanModel {
    Cached(EntryModel),
    Read,
    ReRead,
}

impl View for ReadPlan {
    type V = PlanModel;

    open spec fn view(&self) -> PlanModel {
        match *self {
            ReadPlan::Cached(e) => PlanModel::Cached(e@),
            ReadPlan::Read => PlanModel::Read,
            ReadPlan::ReRead => PlanModel::ReRead,
        }
    }
}

/// What to do about a path, by what is known of paths in their plainest text.
pub open spec fn plan_for(path: ScannedModel, known: Map<Seq<char>, EntryModel>) -> PlanModel {
    if path.priority == 0 {
        PlanModel::ReRead
    } else if known.contains_key(plain_path(path.path)) {
        PlanModel::Cached(known[plain_path(path.path)])
    } else {
        PlanModel::Read
    }
}

/// What to do about a path, by what is known.
pub fn plan_read(path: &ScannedPath, cached: &StringHashMap<TranscriptEntry>) -> (r: ReadPlan)
    ensures
        r@ == plan_for(path@, entry_map(cached@)),
{
    if path.priority == 0 {
        ReadPlan::ReRead
    } else {
        match cached.get(tidy_path(path.path.as_str()).as_str()) {
            Some(entry) => ReadPlan::Cached(entry.clone()),
            None => ReadPlan::Read,
        }
    }
}

impl ReadPlan {
    /// Whether what comes of the plan is to be stored: only what was read is.
    pub fn needs_upsert(&self) -> (r: bool)
        ensures
            r == !(self@ is Cached),
    {
        match self {
            ReadPlan::Cached(_) => false,
            ReadPlan::Read => true,
            ReadPlan::ReRead => true,
        }
    }
}

// ---------------------------------------------------------------------------
// Showing in order
// ---------------------------------------------------------------------------

/// What an entry that may be missing holds.
pub open spec fn entry_opt(e: Option<TranscriptEntry>) -> Option<EntryModel> {
    match e {
        Some(e) => Some(e@),
        None => None,
    }
}

/// What entries hold.
pub open spec fn entry_views(entries: Seq<TranscriptEntry>) -> Seq<EntryModel> {
    entries.map_values(|e: TranscriptEntry| e@)
}

/// What batches hold.
pub open spec fn batch_views(batches: Seq<Vec<TranscriptEntry>>) -> Seq<Seq<EntryModel>> {
    batches.map_values(|b: Vec<TranscriptEntry>| entry_views(b@))
}

/// Where the results in a row from `next` on end.
pub open spec fn ready_end(results: Map<usize, Option<EntryModel>>, next: int, total: int) -> int
    decreases total - next,
{
    if next < total && results.contains_key(next as usize) {
        ready_end(results, next + 1, total)
    } else {
        next
    }
}

/// The entries among the results from `from` up to `to`.
pub open spec fn present(results: Map<usize, Option<EntryModel>>, from: int, to: int) -> Seq<
    EntryModel,
>
    decreases to - from,
{
    if from >= to {
        Seq::empty()
    } else {
        let before = present(results, from, to - 1);
        match results[(to - 1) as usize] {
            Some(e) => before.push(e),
            None => before,
        }
    }
}

/// The batches that are full after more entries have come, and what is left.
pub open spec fn batched(batch: Seq<EntryModel>, entries: Seq<EntryModel>) -> (
    Seq<Seq<EntryModel>>,
    Seq<EntryModel>,
)
    decreases entries.len(),
{
    if entries.len() == 0 {
        (Seq::empty(), batch)
    } else {
        let (sent, left) = batched(batch, entries.drop_last());
        let more = left.push(entries.last());
        if more.len() >= REFRESH_BATCH_SIZE {
            (sent.push(more), Seq::empty())
        } else {
            (sent, more)
        }
    }
}

/// Results that came, of which those in a row from the first are shown.
pub struct Refresh {
    total: usize,
    buffer: HashMap<usize, Option<TranscriptEntry>>,
    next_emit: usize,
    batch: Vec<TranscriptEntry>,
}

/// What a `Refresh` holds.
#[verifier::ext_equal]
pub struct RefreshModel {
    /// How many results are to come.
    pub total: int,
    /// The results that wait for earlier ones.
    pub buffer: Map<usize, Option<EntryModel>>,
    /// The first result that has not come.
    pub next: int,
    /// The entries to show with the next batch.
    pub batch: Seq<EntryModel>,
}

impl View for Refresh {
    type V = RefreshModel;

    closed spec fn view(&self) -> RefreshModel {
        RefreshModel {
            total: self.total as int,
            buffer: self.buffer@.map_values(|e: Option<TranscriptEntry>| entry_opt(e)),
            next: self.next_emit as int,
            batch: entry_views(self.batch@),
        }
    }
}

impl RefreshModel {
    /// No result that could be shown waits, and the batch is not full.
    pub open spec fn wf(self) -> bool {
        &&& 0 <= self.next <= self.total <= usize::MAX
        &&& self.next < self.total ==> !self.buffer.contains_key(self.next as usize)
        &&& self.batch.len() < REFRESH_BATCH_SIZE
    }
}

/// The results without those from `from` up to `to`.
pub open spec fn without(results: Map<usize, Option<EntryModel>>, from: int, to: int) -> Map<
    usize,
    Option<EntryModel>,
> {
    results.remove_keys(Set::new(|k: usize| from <= k < to))
}

/// What a result changes, and which batches are full then.
pub open spec fn received(s: RefreshModel, idx: usize, entry: Option<EntryModel>) -> (
    RefreshModel,
    Seq<Seq<EntryModel>>,
) {
    let results = s.buffer.insert(idx, entry);
    let end = ready_end(results, s.next, s.total);
    let (sent, left) = batched(s.batch, present(results, s.next, end));
    (
        RefreshModel {
            total: s.total,
            buffer: without(results, s.next, end),
            next: end,
            batch: left,
        },
        sent,
    )
}

proof fn lemma_ready_end(results: Map<usize, Option<EntryModel>>, next: int, total: int)
    requires
        next <= total,
    ensures
        next <= ready_end(results, next, total) <= total,
        forall|k: int|
            next <= k < ready_end(results, next, total) ==> results.contains_key(
                #[trigger] (k as usize),
            ),
        ready_end(results, next, total) < total ==> !results.contains_key(
            ready_end(results, next, total) as usize,
        ),
    decreases total - next,
{
    if next < total && results.contains_key(next as usize) {
        lemma_ready_end(results, next + 1, total);
    }
}

proof fn lemma_batch_left(batch: Seq<EntryModel>, entries: Seq<EntryModel>)
    requires
        batch.len() < REFRESH_BATCH_SIZE,
    ensures
        batched(batch, entries).1.len() < REFRESH_BATCH_SIZE,
    decreases entries.len(),
{
    if entries.len() > 0 {
        lemma_batch_left(batch, entries.drop_last());
    }
}

impl Refresh {
    /// No result has come of `total`.
    pub fn new(total: usize) -> (r: Self)
        ensures
            r@ == (RefreshModel {
                total: total as int,
                buffer: Map::empty(),
                next: 0,
                batch: Seq::empty(),
            }),
            r@.wf(),
    {
        let r = Refresh { total, buffer: HashMap::new(), next_emit: 0, batch: Vec::new() };
        assert(r@.buffer =~= Map::empty());
        assert(r@.batch =~= Seq::empty());
        r
    }

    /// Takes the result of path `idx` in: the entry, or that there is none. Gives the batches that
    /// are full now, in order.
    pub fn receive(&mut self, idx: usize, entry: Option<TranscriptEntry>) -> (r: Vec<
        Vec<TranscriptEntry>,
    >)
        requires
            old(self)@.wf(),
            idx < old(self)@.total,
        ensures
            (final(self)@, batch_views(r@)) == received(old(self)@, idx, entry_opt(entry)),
            final(self)@.wf(),
    {
        let ghost s = self@;
        let ghost first = self.next_emit as int;
        let ghost results = s.buffer.insert(idx, entry_opt(entry));
        let ghost end = ready_end(results, first, s.total);
        self.buffer.insert(idx, entry);
        assert(self@.buffer =~= results);
        let mut sent: Vec<Vec<TranscriptEntry>> = Vec::new();
        proof {
            lemma_ready_end(results, first, s.total);
            assert(without(results, first, first) =~= results);
            assert(batch_views(sent@) =~= Seq::empty());
        }
        while self.next_emit < self.total && self.buffer.contains_key(&self.next_emit)
            invariant
                s.wf(),
                first == s.next,
                self.total == s.total,
                first <= self.next_emit <= end <= self.total,
                end == ready_end(results, first, s.total),
                end == ready_end(results, self.next_emit as int, s.total),
                self@.buffer == without(results, first, self.next_emit as int),
                (batch_views(sent@), self@.batch) == batched(
                    s.batch,
                    present(results, first, self.next_emit as int),
                ),
            decreases self.total - self.next_emit,
        {
            let ghost n = self.next_emit as int;
            let ghost waiting = self.buffer@;
            let ghost known = self@.buffer;
            let ghost got = present(results, first, n + 1);
            assert(self@.buffer.contains_key(n as usize));
            assert(results.contains_key(n as usize));
            let next = self.buffer.remove(&self.next_emit);
            self.next_emit = self.next_emit + 1;
            proof {
                lemma_ready_end(results, n + 1, s.total);
                assert(without(results, first, n).contains_key(n as usize));
                assert(entry_opt(waiting[n as usize]) == without(results, first, n)[n as usize]);
                assert(self.buffer@ == waiting.remove(n as usize));
                assert(self@.buffer =~= known.remove(n as usize));
                assert(known.remove(n as usize) =~= without(results, first, n + 1));
            }
            if let Some(Some(e)) = next {
                assert(results[n as usize] == Some(e@));
                assert(got.drop_last() =~= present(results, first, n));
                let ghost before = self.batch@;
                self.batch.push(e);
                assert(entry_views(self.batch@) =~= entry_views(before).push(e@));
                if self.batch.len() >= REFRESH_BATCH_SIZE {
                    let ghost full = self.batch@;
                    let ghost sent_before = sent@;
                    let mut batch: Vec<TranscriptEntry> = Vec::new();
                    std::mem::swap(&mut batch, &mut self.batch);
                    assert(entry_views(self.batch@) =~= Seq::empty());
                    sent.push(batch);
                    assert(batch_views(sent@) =~= batch_views(sent_before).push(
                        entry_views(full),
                    ));
                }
            } else {
                assert(results[n as usize] is None);
            }
        }
        proof {
            lemma_ready_end(results, self.next_emit as int, s.total);
            if self.next_emit < self.total {
                assert(!self@.buffer.contains_key(self.next_emit));
                assert(!results.contains_key(self.next_emit));
            }
            lemma_batch_left(s.batch, present(results, first, end));
        }
        sent
    }

    /// The last batch, once all results have come; there is none where all entries are shown.
    pub fn finish(self) -> (r: Option<Vec<TranscriptEntry>>)
        requires
            self@.wf(),
        ensures
            match r {
                Some(b) => entry_views(b@) == self@.batch && b@.len() > 0,
                None => self@.batch.len() == 0,
            },
    {
        if self.batch.len() > 0 {
            Some(self.batch)
        } else {
            None
        }
    }
}

} // verus!
