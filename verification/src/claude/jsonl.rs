//! The entries of a transcript, parents first.
use crate::claude::lines::{find_line_end, lemma_line_end, line_end, line_text, read_line};
use crate::claude::message::or_text;
use crate::claude::reader::{entry_views, parent_of, Entry, EntryModel, ReadError, ReadErrorModel};
use crate::json::{json_parsed, parse_json, str_field, Json, JsonModel};
use std::collections::VecDeque;
use vstd::hash_map::StringHashMap;
use vstd::hash_set::StringHashSet;
use vstd::prelude::*;

verus! {

broadcast use vstd::string::group_string_axioms;

/// Hands out the entries of a file so that a parent comes before the entries that follow it. An
/// entry whose parent is not yet known waits for it.
pub struct JsonlReader {
    /// How many bytes of the file have been read.
    pub byte_offset: usize,
    /// The ids of the entries that have been handed out.
    pub seen_uuids: StringHashSet,
    /// Entries whose parents are known, in the order of their arrival.
    pub queued: VecDeque<Entry>,
    /// Entries that wait, by the id of their parent.
    pub unresolved_messages: StringHashMap<Vec<Entry>>,
}

/// What a `JsonlReader` holds.
#[verifier::ext_equal]
pub struct JsonlModel {
    pub byte_offset: usize,
    pub seen: Set<Seq<char>>,
    pub queued: Seq<EntryModel>,
    pub waiting: Map<Seq<char>, Seq<EntryModel>>,
}

/// The contents of the values of a map.
pub open spec fn waiting_map(m: Map<Seq<char>, Vec<Entry>>) -> Map<Seq<char>, Seq<EntryModel>> {
    Map::new(|k: Seq<char>| m.contains_key(k), |k: Seq<char>| entry_views(m[k]@))
}

impl View for JsonlReader {
    type V = JsonlModel;

    open spec fn view(&self) -> JsonlModel {
        JsonlModel {
            byte_offset: self.byte_offset,
            seen: self.seen_uuids@,
            queued: entry_views(self.queued@),
            waiting: waiting_map(self.unresolved_messages@),
        }
    }
}

/// The parent that an entry has to wait for; an empty id names none.
pub open spec fn awaited(obj: JsonModel) -> Option<Seq<char>> {
    match parent_of(obj) {
        Some(p) => if p.len() == 0 {
            None
        } else {
            Some(p)
        },
        None => None,
    }
}

/// Whether the parent of an entry, if it has one, is among `seen`.
pub open spec fn parent_seen(seen: Set<Seq<char>>, obj: JsonModel) -> bool {
    match awaited(obj) {
        Some(p) => seen.contains(p),
        None => true,
    }
}

impl JsonlModel {
    /// The parents of queued entries are known, and entries wait under the id of their parent.
    pub open spec fn valid(self) -> bool {
        &&& forall|i: int|
            0 <= i < self.queued.len() ==> parent_seen(self.seen, (#[trigger] self.queued[i]).value)
        &&& forall|k: Seq<char>, i: int|
            self.waiting.contains_key(k) && 0 <= i < self.waiting[k].len() ==> awaited(
                (#[trigger] self.waiting[k][i]).value,
            ) == Some(k)
    }
}

/// The reader after it has handed out an entry: its id is known, and what waited for it is ready.
pub open spec fn emitted(r: JsonlModel, obj: JsonModel) -> JsonlModel {
    let uuid = or_text(str_field(obj, "uuid"@), ""@);
    if uuid.len() == 0 {
        r
    } else if r.waiting.contains_key(uuid) {
        JsonlModel {
            seen: r.seen.insert(uuid),
            queued: r.queued + r.waiting[uuid],
            waiting: r.waiting.remove(uuid),
            ..r
        }
    } else {
        JsonlModel { seen: r.seen.insert(uuid), ..r }
    }
}

/// The reader with one more entry that waits.
pub open spec fn parked(r: JsonlModel, parent: Seq<char>, e: EntryModel) -> JsonlModel {
    let there = if r.waiting.contains_key(parent) {
        r.waiting[parent]
    } else {
        Seq::empty()
    };
    JsonlModel { waiting: r.waiting.insert(parent, there.push(e)), ..r }
}

/// What the next complete lines give: the reader after them and the entry that it hands out.
/// `data` are the bytes behind `base`.
pub open spec fn next_entry(r: JsonlModel, base: usize, data: Seq<u8>, pos: int) -> (
    JsonlModel,
    Option<EntryModel>,
    bool,
)
    decreases data.len() - pos,
    via next_entry_decreases
{
    match line_end(data, pos) {
        Some(end) => match line_text(data, pos, end) {
            Some(text) => {
                let r1 = JsonlModel { byte_offset: (base + end) as usize, ..r };
                match json_parsed(text) {
                    Some(obj) => if text.len() == 0 {
                        next_entry(r1, base, data, end)
                    } else {
                        let e = EntryModel { offset: (base + pos) as usize, value: obj };
                        if parent_seen(r.seen, obj) {
                            (emitted(r1, obj), Some(e), false)
                        } else {
                            next_entry(parked(r1, awaited(obj)->0, e), base, data, end)
                        }
                    },
                    None => next_entry(r1, base, data, end),
                }
            },
            None => (r, None, true),
        },
        None => (r, None, false),
    }
}

#[via_fn]
proof fn next_entry_decreases(r: JsonlModel, base: usize, data: Seq<u8>, pos: int) {
    lemma_line_end(data, pos);
}

/// What the reader hands out next: an entry that is ready, else one from the lines that follow.
pub open spec fn received(r: JsonlModel, data: Seq<u8>) -> (JsonlModel, Option<EntryModel>, bool) {
    if r.queued.len() > 0 {
        let e = r.queued[0];
        (emitted(JsonlModel { queued: r.queued.skip(1), ..r }, e.value), Some(e), false)
    } else {
        next_entry(r, r.byte_offset, data, 0)
    }
}

impl JsonlReader {
    /// A reader at the start of a file.
    pub fn new() -> (r: Self)
        ensures
            r@ == (JsonlModel {
                byte_offset: 0,
                seen: Set::empty(),
                queued: Seq::empty(),
                waiting: Map::empty(),
            }),
            r@.valid(),
    {
        let r = JsonlReader {
            byte_offset: 0,
            seen_uuids: StringHashSet::new(),
            queued: VecDeque::new(),
            unresolved_messages: StringHashMap::new(),
        };
        assert(r@.queued =~= Seq::<EntryModel>::empty());
        assert(r@.waiting =~= Map::<Seq<char>, Seq<EntryModel>>::empty());
        r
    }

    fn park(&mut self, parent: &str, entry: Entry)
        requires
            old(self)@.valid(),
            awaited(entry.value@) == Some(parent@),
        ensures
            final(self)@ == parked(old(self)@, parent@, entry@),
            final(self)@.valid(),
    {
        let ghost goal = parked(self@, parent@, entry@);
        let ghost before = self.unresolved_messages@;
        let mut there = match self.unresolved_messages.get(parent) {
            Some(v) => copy_entries(v),
            None => Vec::new(),
        };
        let ghost old_there = there@;
        let ghost view = entry@;
        there.push(entry);
        proof {
            assert(entry_views(there@) =~= entry_views(old_there).push(view));
            if !before.contains_key(parent@) {
                assert(entry_views(old_there) =~= Seq::<EntryModel>::empty());
            }
        }
        let ghost final_there = entry_views(there@);
        self.unresolved_messages.insert(parent.to_owned(), there);
        assert(waiting_map(self.unresolved_messages@) =~= waiting_map(before).insert(
            parent@,
            final_there,
        ));
        assert(self@ =~= goal);
        proof {
            assert forall|k: Seq<char>, i: int|
                goal.waiting.contains_key(k) && 0 <= i < goal.waiting[k].len() implies awaited(
                (#[trigger] goal.waiting[k][i]).value,
            ) == Some(k) by {
                if k == parent@ {
                    if i < old_there.len() {
                        assert(old(self)@.waiting[k][i] == goal.waiting[k][i]);
                    }
                } else {
                    assert(old(self)@.waiting[k][i] == goal.waiting[k][i]);
                }
            }
        }
    }

    /// Notes that an entry is handed out; what waited for it is ready.
    fn on_emit(&mut self, value: &Json)
        requires
            old(self)@.valid(),
        ensures
            final(self)@ == emitted(old(self)@, value@),
            final(self)@.valid(),
    {
        let ghost goal = emitted(self@, value@);
        proof {
            lemma_emitted_valid(self@, value@);
            reveal_strlit("");
        }
        let uuid = match value.get_str("uuid") {
            Some(u) => u,
            None => {
                return;
            },
        };
        if uuid.is_empty() {
            return;
        }
        let _ = self.seen_uuids.insert(uuid.to_owned());
        let ready = match self.unresolved_messages.get(uuid) {
            Some(v) => Some(copy_entries(v)),
            None => None,
        };
        if let Some(entries) = ready {
            let ghost before = self.unresolved_messages@;
            self.unresolved_messages.remove(uuid);
            assert(waiting_map(self.unresolved_messages@) =~= waiting_map(before).remove(uuid@));
            let ghost start = entry_views(self.queued@);
            let ghost all = entries@;
            assert(start + entry_views(all.take(0)) =~= start);
            let ghost mid = *self;
            for e in it: entries
                invariant
                    it.seq() == all,
                    self.byte_offset == mid.byte_offset,
                    self.seen_uuids == mid.seen_uuids,
                    self.unresolved_messages == mid.unresolved_messages,
                    entry_views(self.queued@) == start + entry_views(all.take(it.index() as int)),
            {
                let ghost i = it.index() as int;
                let ghost here = self.queued@;
                let ghost view = e@;
                proof {
                    assert(e == all[i]);
                    assert(entry_views(all.take(i + 1)) =~= entry_views(all.take(i)).push(view));
                }
                self.queued.push_back(e);
                assert(entry_views(self.queued@) =~= entry_views(here).push(view));
                assert((start + entry_views(all.take(i))).push(view) =~= start + entry_views(
                    all.take(i),
                ).push(view));
            }
            assert(all.take(all.len() as int) =~= all);
            assert(self@ =~= goal);
        } else {
            assert(self@ =~= goal);
        }
    }

    /// The next entry, parents first. `data` are the bytes of the file behind `byte_offset`. An
    /// incomplete line is left for the next time.
    pub fn try_recv(&mut self, data: &[u8]) -> (r: Result<Option<Entry>, ReadError>)
        requires
            old(self)@.valid(),
            old(self)@.byte_offset + data@.len() <= usize::MAX,
        ensures
            ({
                let (after, entry, broken) = received(old(self)@, data@);
                &&& final(self)@ == after
                &&& match r {
                    Ok(Some(e)) => !broken && entry == Some(e@) && parent_seen(
                        old(self)@.seen,
                        e@.value,
                    ),
                    Ok(None) => !broken && entry is None,
                    Err(error) => broken && error@ == ReadErrorModel::NotText,
                }
            }),
            final(self)@.valid(),
    {
        let ghost r0 = self@;
        let ghost goal = received(self@, data@);
        assert(entry_views(self.queued@).len() == self.queued@.len());
        if self.queued.len() > 0 {
            let ghost q = self.queued@;
            let e = self.queued.pop_front().unwrap();
            proof {
                assert(q[0] == e);
                assert(entry_views(self.queued@) =~= entry_views(q).skip(1));
                assert(r0.queued[0] == e@);
                assert(self@ =~= (JsonlModel { queued: r0.queued.skip(1), ..r0 }));
                assert forall|i: int| 0 <= i < self@.queued.len() implies parent_seen(
                    self@.seen,
                    (#[trigger] self@.queued[i]).value,
                ) by {
                    assert(r0.queued[i + 1] == self@.queued[i]);
                }
            }
            self.on_emit(&e.value);
            return Ok(Some(e));
        }
        let base: usize = self.byte_offset;
        let mut pos: usize = 0;
        loop
            invariant
                pos <= data@.len(),
                base + data@.len() <= usize::MAX,
                r0 == old(self)@,
                goal == received(r0, data@),
                self@.valid(),
                self@.seen == r0.seen,
                goal == next_entry(self@, base, data@, pos as int),
            decreases data@.len() - pos,
        {
            let end: usize = match find_line_end(data, pos) {
                Some(end) => end,
                None => {
                    return Ok(None);
                },
            };
            let text = match read_line(data, pos, end) {
                Some(t) => t,
                None => {
                    return Err(ReadError::NotText);
                },
            };
            let ghost before = self@;
            self.byte_offset = base + end;
            assert(self@ =~= (JsonlModel { byte_offset: (base + end) as usize, ..before }));
            if !text.as_str().is_empty() {
                if let Some(value) = parse_json(text.as_str()) {
                    let parent = match value.get_str("parentUuid") {
                        Some(p) => Some(p.to_owned()),
                        None => match value.get_str("logicalParentUuid") {
                            Some(p) => Some(p.to_owned()),
                            None => None,
                        },
                    };
                    let offset: usize = base + pos;
                    match parent {
                        Some(p) if !p.as_str().is_empty() && !self.seen_uuids.contains(
                            p.as_str(),
                        ) => {
                            self.park(p.as_str(), Entry { offset, value });
                        },
                        _ => {
                            self.on_emit(&value);
                            return Ok(Some(Entry { offset, value }));
                        },
                    }
                }
            }
            pos = end;
        }
    }
}

fn copy_entries(v: &Vec<Entry>) -> (r: Vec<Entry>)
    ensures
        entry_views(r@) == entry_views(v@),
{
    let mut out: Vec<Entry> = Vec::new();
    let mut i: usize = 0;
    while i < v.len()
        invariant
            i <= v@.len(),
            out@.len() == i,
            forall|k: int| 0 <= k < i ==> out@[k]@ == v@[k]@,
        decreases v@.len() - i,
    {
        out.push(Entry { offset: v[i].offset, value: v[i].value.clone() });
        i = i + 1;
    }
    assert(entry_views(out@) =~= entry_views(v@));
    out
}

proof fn lemma_emitted_valid(r: JsonlModel, obj: JsonModel)
    requires
        r.valid(),
    ensures
        emitted(r, obj).valid(),
{
    let after = emitted(r, obj);
    let uuid = or_text(str_field(obj, "uuid"@), ""@);
    assert forall|i: int| 0 <= i < after.queued.len() implies parent_seen(
        after.seen,
        (#[trigger] after.queued[i]).value,
    ) by {
        if i < r.queued.len() {
            assert(after.queued[i] == r.queued[i]);
        } else {
            assert(after.queued[i] == r.waiting[uuid][i - r.queued.len()]);
        }
    }
    assert forall|k: Seq<char>, i: int|
        after.waiting.contains_key(k) && 0 <= i < after.waiting[k].len() implies awaited(
        (#[trigger] after.waiting[k][i]).value,
    ) == Some(k) by {
        assert(r.waiting[k][i] == after.waiting[k][i]);
    }
}

// ---------------------------------------------------------------------------
// Laws
// ---------------------------------------------------------------------------

/// The reader at the start of a file.
pub open spec fn fresh_reader() -> JsonlModel {
    JsonlModel { byte_offset: 0, seen: Set::empty(), queued: Seq::empty(), waiting: Map::empty() }
}

/// The reader after one call for each of `chunks`, the bytes that each call is given, and all
/// entries that it has handed out.
pub open spec fn run(chunks: Seq<Seq<u8>>) -> (JsonlModel, Seq<EntryModel>)
    decreases chunks.len(),
{
    if chunks.len() == 0 {
        (fresh_reader(), Seq::empty())
    } else {
        let (r, out) = run(chunks.drop_last());
        let (after, entry, _) = received(r, chunks.last());
        match entry {
            Some(e) => (after, out.push(e)),
            None => (after, out),
        }
    }
}

/// The id of an entry, or the empty text.
pub open spec fn id_of(e: EntryModel) -> Seq<char> {
    or_text(str_field(e.value, "uuid"@), ""@)
}

/// What one call keeps: an entry is handed out after its parent, and only its id becomes known.
spec fn step_holds(r: JsonlModel, after: JsonlModel, entry: Option<EntryModel>) -> bool {
    &&& after.valid()
    &&& match entry {
        Some(e) => parent_seen(r.seen, e.value) && forall|id: Seq<char>| #[trigger]
            after.seen.contains(id) ==> r.seen.contains(id) || id == id_of(e),
        None => after.seen == r.seen,
    }
}

proof fn lemma_parked_valid(r: JsonlModel, e: EntryModel)
    requires
        r.valid(),
        awaited(e.value) is Some,
    ensures
        parked(r, awaited(e.value)->0, e).valid(),
{
    let parent = awaited(e.value)->0;
    let after = parked(r, parent, e);
    assert forall|k: Seq<char>, i: int|
        after.waiting.contains_key(k) && 0 <= i < after.waiting[k].len() implies awaited(
        (#[trigger] after.waiting[k][i]).value,
    ) == Some(k) by {
        if k == parent {
            if i < after.waiting[k].len() - 1 {
                assert(r.waiting[k][i] == after.waiting[k][i]);
            }
        } else {
            assert(r.waiting[k][i] == after.waiting[k][i]);
        }
    }
}

proof fn lemma_next_entry(r: JsonlModel, base: usize, data: Seq<u8>, pos: int)
    requires
        r.valid(),
    ensures
        step_holds(
            r,
            next_entry(r, base, data, pos).0,
            next_entry(r, base, data, pos).1,
        ),
    decreases data.len() - pos,
{
    lemma_line_end(data, pos);
    if let Some(end) = line_end(data, pos) {
        if let Some(text) = line_text(data, pos, end) {
            let r1 = JsonlModel { byte_offset: (base + end) as usize, ..r };
            assert(r1.valid());
            match json_parsed(text) {
                Some(obj) => {
                    let e = EntryModel { offset: (base + pos) as usize, value: obj };
                    if text.len() == 0 {
                        lemma_next_entry(r1, base, data, end);
                    } else if parent_seen(r.seen, obj) {
                        lemma_emitted_valid(r1, obj);
                    } else {
                        lemma_parked_valid(r1, e);
                        lemma_next_entry(parked(r1, awaited(obj)->0, e), base, data, end);
                    }
                },
                None => lemma_next_entry(r1, base, data, end),
            }
        }
    }
}

proof fn lemma_received(r: JsonlModel, data: Seq<u8>)
    requires
        r.valid(),
    ensures
        step_holds(r, received(r, data).0, received(r, data).1),
{
    if r.queued.len() > 0 {
        let rest = JsonlModel { queued: r.queued.skip(1), ..r };
        assert forall|i: int| 0 <= i < rest.queued.len() implies parent_seen(
            rest.seen,
            (#[trigger] rest.queued[i]).value,
        ) by {
            assert(r.queued[i + 1] == rest.queued[i]);
        }
        assert(rest.valid());
        lemma_emitted_valid(rest, r.queued[0].value);
        assert(parent_seen(r.seen, r.queued[0].value));
    } else {
        lemma_next_entry(r, r.byte_offset, data, 0);
    }
}

proof fn lemma_run(chunks: Seq<Seq<u8>>)
    ensures
        run(chunks).0.valid(),
        forall|id: Seq<char>| #[trigger]
            run(chunks).0.seen.contains(id) ==> exists|j: int|
                0 <= j < run(chunks).1.len() && id_of(#[trigger] run(chunks).1[j]) == id,
    decreases chunks.len(),
{
    if chunks.len() > 0 {
        let front = chunks.drop_last();
        lemma_run(front);
        let (r, out) = run(front);
        lemma_received(r, chunks.last());
        let (after, all) = run(chunks);
        assert forall|id: Seq<char>| #[trigger] after.seen.contains(id) implies exists|j: int|
            0 <= j < all.len() && id_of(#[trigger] all[j]) == id by {
            if r.seen.contains(id) {
                let j = choose|j: int| 0 <= j < out.len() && id_of(#[trigger] out[j]) == id;
                assert(all[j] == out[j]);
            } else {
                assert(id_of(all.last()) == id);
            }
        }
    }
}

/// Parents come first: whatever the calls are given, an entry that follows another is handed out
/// after it.
pub proof fn law_parents_first(chunks: Seq<Seq<u8>>, i: int)
    requires
        0 <= i < run(chunks).1.len(),
        awaited(run(chunks).1[i].value) is Some,
    ensures
        exists|j: int|
            0 <= j < i && id_of(#[trigger] run(chunks).1[j]) == awaited(run(chunks).1[i].value)->0,
    decreases chunks.len(),
{
    let front = chunks.drop_last();
    let (r, out) = run(front);
    let (after, all) = run(chunks);
    lemma_run(front);
    lemma_received(r, chunks.last());
    if i < out.len() {
        assert(all[i] == out[i]);
        law_parents_first(front, i);
        let j = choose|j: int|
            0 <= j < i && id_of(#[trigger] run(front).1[j]) == awaited(run(front).1[i].value)->0;
        assert(all[j] == out[j]);
    } else {
        let p = awaited(all[i].value)->0;
        assert(r.seen.contains(p));
        let j = choose|j: int| 0 <= j < out.len() && id_of(#[trigger] out[j]) == p;
        assert(all[j] == out[j]);
    }
}

} // verus!
