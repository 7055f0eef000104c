//! What holds of the order in which entries are handed out.
use crate::claude::jsonl::{
    awaited, emitted, fresh_reader, id_of, next_entry, parent_seen, parked, received, JsonlModel,
};
use crate::claude::lines::{lemma_line_end, lemma_next_feed, line_end, line_text, next_feed};
use crate::claude::reader::EntryModel;
use crate::json::json_parsed;
use vstd::prelude::*;

verus! {

/// The entries of the complete lines of a file from `pos` on, up to a line that is no text.
pub open spec fn entries_from(file: Seq<u8>, pos: int) -> Seq<EntryModel>
    decreases file.len() - pos,
    via entries_from_decreases
{
    match line_end(file, pos) {
        Some(end) => match line_text(file, pos, end) {
            Some(text) => {
                let rest = entries_from(file, end);
                match json_parsed(text) {
                    Some(obj) => if text.len() == 0 {
                        rest
                    } else {
                        seq![EntryModel { offset: pos as usize, value: obj }] + rest
                    },
                    None => rest,
                }
            },
            None => Seq::empty(),
        },
        None => Seq::empty(),
    }
}

#[via_fn]
proof fn entries_from_decreases(file: Seq<u8>, pos: int) {
    lemma_line_end(file, pos);
}

/// The reader after `n` calls on a file, and all entries that it has handed out. Each call is given
/// what the file holds behind the bytes that have been read.
pub open spec fn calls(file: Seq<u8>, n: nat) -> (JsonlModel, Seq<EntryModel>)
    decreases n,
{
    if n == 0 {
        (fresh_reader(), Seq::empty())
    } else {
        let (r, out) = calls(file, (n - 1) as nat);
        let (after, entry, _) = received(r, file.skip(r.byte_offset as int));
        match entry {
            Some(e) => (after, out.push(e)),
            None => (after, out),
        }
    }
}

/// Whether the call after the first `n` finds nothing more to hand out.
pub open spec fn is_drained(file: Seq<u8>, n: nat) -> bool {
    let r = calls(file, n).0;
    let (_, entry, broken) = received(r, file.skip(r.byte_offset as int));
    entry is None && !broken
}

/// Whether an entry waits for its parent.
spec fn waits(r: JsonlModel, e: EntryModel) -> bool {
    &&& awaited(e.value) is Some
    &&& r.waiting.contains_key(awaited(e.value)->0)
    &&& r.waiting[awaited(e.value)->0].contains(e)
}

/// Whether the id is that of one of the entries.
spec fn is_id(out: Seq<EntryModel>, id: Seq<char>) -> bool {
    exists|j: int| 0 <= j < out.len() && id_of(#[trigger] out[j]) == id
}

/// Whether the entries stand in the order of the file.
spec fn in_file_order(p: Seq<EntryModel>) -> bool {
    forall|i: int, j: int|
        0 <= i < j < p.len() ==> (#[trigger] p[i]).offset < (#[trigger] p[j]).offset
}

/// What the reader keeps: `p` are the entries that were read, `out` those handed out, and `known`
/// those whose ids are known.
spec fn kept(
    p: Seq<EntryModel>,
    r: JsonlModel,
    out: Seq<EntryModel>,
    known: Seq<EntryModel>,
) -> bool {
    let q = out + r.queued;
    &&& r.valid()
    &&& in_file_order(p)
    &&& forall|i: int| 0 <= i < p.len() ==> (#[trigger] p[i]).offset < r.byte_offset
    &&& forall|i: int| 0 <= i < q.len() ==> p.contains(#[trigger] q[i])
    &&& forall|i: int, j: int| 0 <= i < j < q.len() ==> #[trigger] q[i] != #[trigger] q[j]
    &&& forall|k: Seq<char>, i: int|
        r.waiting.contains_key(k) && 0 <= i < r.waiting[k].len() ==> p.contains(
            #[trigger] r.waiting[k][i],
        ) && !q.contains(r.waiting[k][i])
    &&& forall|k: Seq<char>| #[trigger]
        r.waiting.contains_key(k) ==> !r.seen.contains(k) && in_file_order(r.waiting[k])
    &&& forall|i: int| 0 <= i < p.len() ==> q.contains(#[trigger] p[i]) || waits(r, p[i])
    &&& forall|i: int| 0 <= i < q.len() ==> parent_seen(r.seen, (#[trigger] q[i]).value)
    &&& forall|id: Seq<char>| #[trigger]
        r.seen.contains(id) <==> id.len() > 0 && is_id(known, id)
    &&& forall|i: int, j: int|
        0 <= i < j < q.len() && awaited((#[trigger] q[i]).value) == awaited(
            (#[trigger] q[j]).value,
        ) ==> q[i].offset < q[j].offset
}

proof fn lemma_known_push(out: Seq<EntryModel>, e: EntryModel, id: Seq<char>)
    ensures
        is_id(out.push(e), id) <==> is_id(out, id) || id_of(e) == id,
{
    let more = out.push(e);
    if is_id(out, id) {
        let j = choose|j: int| 0 <= j < out.len() && id_of(#[trigger] out[j]) == id;
        assert(id_of(more[j]) == id);
    }
    if id_of(e) == id {
        assert(id_of(more[out.len() as int]) == id);
    }
    if is_id(more, id) {
        let j = choose|j: int| 0 <= j < more.len() && id_of(#[trigger] more[j]) == id;
        if j < out.len() {
            assert(id_of(out[j]) == id);
        }
    }
}

/// Noting an entry that has been handed out keeps all.
proof fn lemma_emit(p: Seq<EntryModel>, r: JsonlModel, out: Seq<EntryModel>, e: EntryModel)
    requires
        kept(p, r, out.push(e), out),
    ensures
        kept(p, emitted(r, e.value), out.push(e), out.push(e)),
{
    let out1 = out.push(e);
    let after = emitted(r, e.value);
    let id = id_of(e);
    let q = out1 + r.queued;
    let q1 = out1 + after.queued;
    let block = if id.len() > 0 && r.waiting.contains_key(id) {
        r.waiting[id]
    } else {
        Seq::empty()
    };
    assert(q1 =~= q + block);
    assert forall|x: Seq<char>| #[trigger] after.seen.contains(x) <==> x.len() > 0 && is_id(
        out1,
        x,
    ) by {
        lemma_known_push(out, e, x);
        assert(r.seen.contains(x) <==> x.len() > 0 && is_id(out, x));
    }
    assert forall|i: int| 0 <= i < block.len() implies awaited((#[trigger] block[i]).value) == Some(
        id,
    ) && p.contains(block[i]) && !q.contains(block[i]) by {
        assert(r.waiting[id][i] == block[i]);
    }
    assert forall|i: int| 0 <= i < q1.len() implies p.contains(#[trigger] q1[i]) && parent_seen(
        after.seen,
        q1[i].value,
    ) by {
        if i < q.len() {
            assert(q1[i] == q[i]);
            assert(parent_seen(r.seen, q[i].value));
        } else {
            assert(q1[i] == block[i - q.len()]);
        }
    }
    assert forall|i: int, j: int| 0 <= i < j < q1.len() implies #[trigger] q1[i]
        != #[trigger] q1[j] && (awaited(q1[i].value) == awaited(q1[j].value) ==> q1[i].offset
        < q1[j].offset) by {
        if j < q.len() {
            assert(q1[i] == q[i] && q1[j] == q[j]);
        } else {
            let b = j - q.len();
            assert(q1[j] == block[b]);
            assert(in_file_order(block));
            if i < q.len() {
                assert(q1[i] == q[i]);
                assert(q.contains(q[i]));
                assert(parent_seen(r.seen, q[i].value));
            } else {
                assert(q1[i] == block[i - q.len()]);
                assert(block[i - q.len()].offset < block[b].offset);
            }
        }
    }
    assert forall|k: Seq<char>, i: int|
        after.waiting.contains_key(k) && 0 <= i < after.waiting[k].len() implies p.contains(
        #[trigger] after.waiting[k][i],
    ) && !q1.contains(after.waiting[k][i]) && awaited(after.waiting[k][i].value) == Some(k) by {
        let x = after.waiting[k][i];
        assert(r.waiting[k][i] == x);
        assert(!q.contains(x));
        if q1.contains(x) {
            let j = choose|j: int| 0 <= j < q1.len() && q1[j] == x;
            if j < q.len() {
                assert(q[j] == x);
            } else {
                assert(block[j - q.len()] == x);
            }
        }
    }
    assert forall|k: Seq<char>| #[trigger] after.waiting.contains_key(k) implies !after.seen.contains(
        k,
    ) && in_file_order(after.waiting[k]) by {
        assert(r.waiting.contains_key(k));
    }
    assert forall|i: int| 0 <= i < p.len() implies q1.contains(#[trigger] p[i]) || waits(
        after,
        p[i],
    ) by {
        if q.contains(p[i]) {
            let j = choose|j: int| 0 <= j < q.len() && q[j] == p[i];
            assert(q1[j] == p[i]);
        } else {
            assert(waits(r, p[i]));
            if awaited(p[i].value)->0 == id && id.len() > 0 {
                let j = choose|j: int| 0 <= j < block.len() && block[j] == p[i];
                assert(q1[q.len() + j] == p[i]);
            }
        }
    }
    assert forall|i: int| 0 <= i < after.queued.len() implies parent_seen(
        after.seen,
        (#[trigger] after.queued[i]).value,
    ) by {
        assert(q1[out1.len() + i] == after.queued[i]);
    }
}

/// Reading on, with nothing that is ready, keeps all.
proof fn lemma_moved(
    p: Seq<EntryModel>,
    r: JsonlModel,
    out: Seq<EntryModel>,
    byte_offset: usize,
)
    requires
        kept(p, r, out, out),
        r.byte_offset <= byte_offset,
    ensures
        kept(p, JsonlModel { byte_offset, ..r }, out, out),
{
    let r1 = JsonlModel { byte_offset, ..r };
    assert forall|i: int| 0 <= i < p.len() implies (out + r1.queued).contains(#[trigger] p[i])
        || waits(r1, p[i]) by {
        assert((out + r.queued).contains(p[i]) || waits(r, p[i]));
    }
    assert forall|i: int| 0 <= i < r1.queued.len() implies parent_seen(
        r1.seen,
        (#[trigger] r1.queued[i]).value,
    ) by {
        assert(r.queued[i] == r1.queued[i]);
    }
    assert forall|k: Seq<char>, i: int|
        r1.waiting.contains_key(k) && 0 <= i < r1.waiting[k].len() implies awaited(
        (#[trigger] r1.waiting[k][i]).value,
    ) == Some(k) by {
        assert(r.waiting[k][i] == r1.waiting[k][i]);
    }
}

/// An entry that has to wait is kept.
proof fn lemma_park(p: Seq<EntryModel>, r: JsonlModel, out: Seq<EntryModel>, e: EntryModel)
    requires
        kept(p, r, out, out),
        !parent_seen(r.seen, e.value),
        e.offset < r.byte_offset,
        forall|i: int| 0 <= i < p.len() ==> (#[trigger] p[i]).offset < e.offset,
    ensures
        kept(p.push(e), parked(r, awaited(e.value)->0, e), out, out),
{
    let parent = awaited(e.value)->0;
    let after = parked(r, parent, e);
    let p1 = p.push(e);
    let q = out + r.queued;
    assert(out + after.queued =~= q);
    assert(!p.contains(e));
    assert(!q.contains(e)) by {
        if q.contains(e) {
            let j = choose|j: int| 0 <= j < q.len() && q[j] == e;
            assert(p.contains(q[j]));
        }
    }
    assert forall|x: EntryModel| p.contains(x) implies #[trigger] p1.contains(x) by {
        let j = choose|j: int| 0 <= j < p.len() && p[j] == x;
        assert(p1[j] == x);
    }
    assert(p1[p.len() as int] == e);
    assert forall|i: int| 0 <= i < q.len() implies p1.contains(#[trigger] q[i]) by {
        assert(p.contains(q[i]));
    }
    assert forall|k: Seq<char>, i: int|
        after.waiting.contains_key(k) && 0 <= i < after.waiting[k].len() implies p1.contains(
        #[trigger] after.waiting[k][i],
    ) && !q.contains(after.waiting[k][i]) && awaited(after.waiting[k][i].value) == Some(k) by {
        let x = after.waiting[k][i];
        if k != parent || i < after.waiting[k].len() - 1 {
            assert(r.waiting[k][i] == x);
            assert(p.contains(x));
        } else {
            assert(x == e);
        }
    }
    assert forall|k: Seq<char>| #[trigger] after.waiting.contains_key(k) implies !after.seen.contains(
        k,
    ) && in_file_order(after.waiting[k]) by {
        if r.waiting.contains_key(k) {
            assert(in_file_order(r.waiting[k]));
            let w = after.waiting[k];
            assert forall|i: int, j: int| 0 <= i < j < w.len() implies (#[trigger] w[i]).offset < (
            #[trigger] w[j]).offset by {
                if k == parent && j == w.len() - 1 {
                    assert(r.waiting[k][i] == w[i]);
                    assert(p.contains(w[i]));
                } else {
                    assert(r.waiting[k][i] == w[i] && r.waiting[k][j] == w[j]);
                }
            }
        }
    }
    assert forall|i: int| 0 <= i < p1.len() implies q.contains(#[trigger] p1[i]) || waits(
        after,
        p1[i],
    ) by {
        let x = p1[i];
        let w = after.waiting[parent];
        if i < p.len() {
            assert(p[i] == x);
            if !q.contains(x) {
                assert(waits(r, x));
                let k = awaited(x.value)->0;
                let j = choose|j: int| 0 <= j < r.waiting[k].len() && r.waiting[k][j] == x;
                assert(after.waiting[k][j] == x);
            }
        } else {
            assert(w[w.len() - 1] == e);
        }
    }
    assert forall|i: int| 0 <= i < after.queued.len() implies parent_seen(
        after.seen,
        (#[trigger] after.queued[i]).value,
    ) by {
        assert(r.queued[i] == after.queued[i]);
    }
}

/// An entry that is handed out as soon as it is read is kept.
proof fn lemma_pass(p: Seq<EntryModel>, r: JsonlModel, out: Seq<EntryModel>, e: EntryModel)
    requires
        kept(p, r, out, out),
        r.queued.len() == 0,
        parent_seen(r.seen, e.value),
        e.offset < r.byte_offset,
        forall|i: int| 0 <= i < p.len() ==> (#[trigger] p[i]).offset < e.offset,
    ensures
        kept(p.push(e), emitted(r, e.value), out.push(e), out.push(e)),
{
    let p1 = p.push(e);
    let q = out + r.queued;
    let q1 = out.push(e) + r.queued;
    assert(q =~= out);
    assert(q1 =~= out.push(e));
    assert(p1[p.len() as int] == e);
    assert forall|x: EntryModel| p.contains(x) implies #[trigger] p1.contains(x) && x.offset
        < e.offset by {
        let j = choose|j: int| 0 <= j < p.len() && p[j] == x;
        assert(p1[j] == x);
    }
    assert forall|i: int| 0 <= i < q1.len() implies p1.contains(#[trigger] q1[i]) && parent_seen(
        r.seen,
        q1[i].value,
    ) by {
        if i < out.len() {
            assert(q[i] == q1[i]);
            assert(p.contains(q[i]));
        }
    }
    assert forall|i: int, j: int| 0 <= i < j < q1.len() implies #[trigger] q1[i]
        != #[trigger] q1[j] && (awaited(q1[i].value) == awaited(q1[j].value) ==> q1[i].offset
        < q1[j].offset) by {
        assert(q[i] == q1[i]);
        assert(p.contains(q[i]));
        if j < out.len() {
            assert(q[j] == q1[j]);
        }
    }
    assert forall|k: Seq<char>, i: int|
        r.waiting.contains_key(k) && 0 <= i < r.waiting[k].len() implies p1.contains(
        #[trigger] r.waiting[k][i],
    ) && !q1.contains(r.waiting[k][i]) by {
        let x = r.waiting[k][i];
        assert(p.contains(x));
        if q1.contains(x) {
            let j = choose|j: int| 0 <= j < q1.len() && q1[j] == x;
            if j < out.len() {
                assert(q[j] == x);
            }
        }
    }
    assert forall|i: int| 0 <= i < p1.len() implies q1.contains(#[trigger] p1[i]) || waits(
        r,
        p1[i],
    ) by {
        if i < p.len() {
            assert(p[i] == p1[i]);
            if q.contains(p[i]) {
                let j = choose|j: int| 0 <= j < q.len() && q[j] == p[i];
                assert(q1[j] == p[i]);
            }
        } else {
            assert(q1[out.len() as int] == e);
        }
    }
    lemma_emit(p1, r, out, e);
}

proof fn lemma_feed_shift(file: Seq<u8>, base: int, pos: int)
    requires
        0 <= base <= file.len(),
        0 <= pos <= file.len() - base,
    ensures
        next_feed(file, base + pos) == base + next_feed(file.skip(base), pos),
    decreases file.len() - base - pos,
{
    if pos < file.len() - base && file[base + pos] != 10 {
        lemma_feed_shift(file, base, pos + 1);
    }
}

/// The lines of the rest of a file are those of the file.
proof fn lemma_line_shift(file: Seq<u8>, base: int, pos: int)
    requires
        0 <= base <= file.len(),
        0 <= pos <= file.len() - base,
    ensures
        match line_end(file.skip(base), pos) {
            Some(end) => line_end(file, base + pos) == Some(base + end) && pos < end <= file.len()
                - base && line_text(file.skip(base), pos, end) == line_text(
                file,
                base + pos,
                base + end,
            ),
            None => line_end(file, base + pos) is None,
        },
{
    let data = file.skip(base);
    lemma_feed_shift(file, base, pos);
    lemma_line_end(data, pos);
    if pos < data.len() {
        assert(data.last() == file.last());
    }
    if let Some(end) = line_end(data, pos) {
        assert(data.subrange(pos, end) =~= file.subrange(base + pos, base + end));
    }
}

/// Whether each entry that follows another stands behind it.
pub open spec fn parents_first(all: Seq<EntryModel>) -> bool {
    forall|i: int|
        0 <= i < all.len() && awaited((#[trigger] all[i]).value) is Some ==> exists|j: int|
            0 <= j < i && id_of(#[trigger] all[j]) == awaited(all[i].value)->0
}

/// Whether the reader holds nothing back.
spec fn idle(p: Seq<EntryModel>, r: JsonlModel, out: Seq<EntryModel>) -> bool {
    &&& out == p
    &&& r.queued.len() == 0
    &&& r.waiting == Map::<Seq<char>, Seq<EntryModel>>::empty()
}

/// What the reader and the file have in common after some calls.
spec fn agrees(file: Seq<u8>, p: Seq<EntryModel>, r: JsonlModel, out: Seq<EntryModel>) -> bool {
    &&& kept(p, r, out, out)
    &&& r.byte_offset <= file.len()
    &&& entries_from(file, 0) == p + entries_from(file, r.byte_offset as int)
    &&& parents_first(entries_from(file, 0)) ==> idle(p, r, out)
}

spec fn out_after(out: Seq<EntryModel>, entry: Option<EntryModel>) -> Seq<EntryModel> {
    match entry {
        Some(e) => out.push(e),
        None => out,
    }
}

proof fn lemma_next(
    file: Seq<u8>,
    base: usize,
    pos: int,
    p: Seq<EntryModel>,
    r: JsonlModel,
    out: Seq<EntryModel>,
) -> (p1: Seq<EntryModel>)
    requires
        file.len() <= usize::MAX,
        agrees(file, p, r, out),
        r.queued.len() == 0,
        0 <= pos,
        base + pos == r.byte_offset,
    ensures
        ({
            let (after, entry, broken) = next_entry(r, base, file.skip(base as int), pos);
            &&& agrees(file, p1, after, out_after(out, entry))
            &&& entry is None && !broken ==> entries_from(file, after.byte_offset as int).len() == 0
                && after.queued.len() == 0
        }),
    decreases file.len() - base - pos,
{
    let data = file.skip(base as int);
    let all = entries_from(file, 0);
    lemma_line_shift(file, base as int, pos);
    match line_end(data, pos) {
        Some(end) => match line_text(data, pos, end) {
            Some(text) => {
                let r1 = JsonlModel { byte_offset: (base + end) as usize, ..r };
                let rest = entries_from(file, base + end);
                lemma_moved(p, r, out, (base + end) as usize);
                match json_parsed(text) {
                    Some(obj) => {
                        if text.len() == 0 {
                            lemma_next(file, base, end, p, r1, out)
                        } else {
                            let e = EntryModel { offset: (base + pos) as usize, value: obj };
                            let p1 = p.push(e);
                            assert(p + (seq![e] + rest) =~= p1 + rest);
                            assert(all == p1 + rest);
                            assert(parents_first(all) ==> parent_seen(r.seen, obj)) by {
                                if parents_first(all) && awaited(obj) is Some {
                                    let at = p.len() as int;
                                    assert(all[at] == e);
                                    let j = choose|j: int|
                                        0 <= j < at && id_of(#[trigger] all[j]) == awaited(
                                            all[at].value,
                                        )->0;
                                    assert(all[j] == out[j]);
                                    assert(is_id(out, awaited(obj)->0));
                                    assert(r.seen.contains(awaited(obj)->0));
                                }
                            }
                            if parent_seen(r.seen, obj) {
                                lemma_pass(p, r1, out, e);
                                p1
                            } else {
                                lemma_park(p, r1, out, e);
                                lemma_next(
                                    file,
                                    base,
                                    end,
                                    p1,
                                    parked(r1, awaited(obj)->0, e),
                                    out,
                                )
                            }
                        }
                    },
                    None => lemma_next(file, base, end, p, r1, out),
                }
            },
            None => p,
        },
        None => p,
    }
}

proof fn lemma_call(file: Seq<u8>, p: Seq<EntryModel>, r: JsonlModel, out: Seq<EntryModel>) -> (p1:
    Seq<EntryModel>)
    requires
        file.len() <= usize::MAX,
        agrees(file, p, r, out),
    ensures
        ({
            let (after, entry, broken) = received(r, file.skip(r.byte_offset as int));
            &&& agrees(file, p1, after, out_after(out, entry))
            &&& entry is None && !broken ==> entries_from(file, after.byte_offset as int).len() == 0
                && after.queued.len() == 0
        }),
{
    if r.queued.len() > 0 {
        let e = r.queued[0];
        let rest = JsonlModel { queued: r.queued.skip(1), ..r };
        let q = out + r.queued;
        let q1 = out.push(e) + rest.queued;
        assert(q1 =~= q);
        assert forall|i: int| 0 <= i < rest.queued.len() implies parent_seen(
            rest.seen,
            (#[trigger] rest.queued[i]).value,
        ) by {
            assert(r.queued[i + 1] == rest.queued[i]);
        }
        assert forall|k: Seq<char>, i: int|
            rest.waiting.contains_key(k) && 0 <= i < rest.waiting[k].len() implies awaited(
            (#[trigger] rest.waiting[k][i]).value,
        ) == Some(k) by {
            assert(r.waiting[k][i] == rest.waiting[k][i]);
        }
        assert forall|i: int| 0 <= i < p.len() implies q1.contains(#[trigger] p[i]) || waits(
            rest,
            p[i],
        ) by {
            assert(q.contains(p[i]) || waits(r, p[i]));
        }
        lemma_emit(p, rest, out, e);
        p
    } else {
        lemma_next(file, r.byte_offset, 0, p, r, out)
    }
}

proof fn lemma_calls(file: Seq<u8>, n: nat) -> (p: Seq<EntryModel>)
    requires
        file.len() <= usize::MAX,
    ensures
        agrees(file, p, calls(file, n).0, calls(file, n).1),
    decreases n,
{
    if n == 0 {
        let p = Seq::<EntryModel>::empty();
        let r = fresh_reader();
        assert(p + entries_from(file, 0) =~= entries_from(file, 0));
        assert forall|id: Seq<char>| #[trigger] r.seen.contains(id) <==> id.len() > 0 && is_id(
            p,
            id,
        ) by {}
        p
    } else {
        let p = lemma_calls(file, (n - 1) as nat);
        let (r, out) = calls(file, (n - 1) as nat);
        lemma_call(file, p, r, out)
    }
}

/// No line comes twice, and all that comes is a line of the file, with the place where it starts.
pub proof fn law_no_line_twice(file: Seq<u8>, n: nat)
    requires
        file.len() <= usize::MAX,
    ensures
        forall|i: int|
            0 <= i < calls(file, n).1.len() ==> entries_from(file, 0).contains(
                #[trigger] calls(file, n).1[i],
            ),
        forall|i: int, j: int|
            0 <= i < j < calls(file, n).1.len() ==> (#[trigger] calls(file, n).1[i]).offset != (
            #[trigger] calls(file, n).1[j]).offset,
{
    let p = lemma_calls(file, n);
    let (r, out) = calls(file, n);
    let q = out + r.queued;
    let all = entries_from(file, 0);
    assert forall|i: int| 0 <= i < out.len() implies all.contains(#[trigger] out[i]) by {
        assert(q[i] == out[i]);
        let k = choose|k: int| 0 <= k < p.len() && p[k] == q[i];
        assert(all[k] == out[i]);
    }
    assert forall|i: int, j: int| 0 <= i < j < out.len() implies (#[trigger] out[i]).offset != (
    #[trigger] out[j]).offset by {
        assert(q[i] == out[i] && q[j] == out[j]);
        let a = choose|k: int| 0 <= k < p.len() && p[k] == q[i];
        let b = choose|k: int| 0 <= k < p.len() && p[k] == q[j];
        assert(p.contains(q[i]) && p.contains(q[j]));
        assert(a != b);
        if a < b {
            assert(p[a].offset < p[b].offset);
        } else {
            assert(p[b].offset < p[a].offset);
        }
    }
}

/// Entries that follow the same one, and those that follow none, come in the order of the file.
pub proof fn law_siblings_in_order(file: Seq<u8>, n: nat, i: int, j: int)
    requires
        file.len() <= usize::MAX,
        0 <= i < j < calls(file, n).1.len(),
        awaited(calls(file, n).1[i].value) == awaited(calls(file, n).1[j].value),
    ensures
        calls(file, n).1[i].offset < calls(file, n).1[j].offset,
{
    let p = lemma_calls(file, n);
    let (r, out) = calls(file, n);
    let q = out + r.queued;
    assert(q[i] == out[i] && q[j] == out[j]);
}

/// Once the reader finds nothing more, an entry of the file has come if and only if it follows none
/// or the one that it follows has come.
pub proof fn law_comes_with_parent(file: Seq<u8>, n: nat, e: EntryModel)
    requires
        file.len() <= usize::MAX,
        is_drained(file, n),
        entries_from(file, 0).contains(e),
    ensures
        calls(file, n).1.contains(e) <==> awaited(e.value) is None || exists|j: int|
            0 <= j < calls(file, n).1.len() && id_of(#[trigger] calls(file, n).1[j]) == awaited(
                e.value,
            )->0,
{
    let p = lemma_calls(file, n);
    let (r, out) = calls(file, n);
    let p1 = lemma_call(file, p, r, out);
    let after = received(r, file.skip(r.byte_offset as int)).0;
    let q = out + after.queued;
    assert(q =~= out);
    assert(p1 + entries_from(file, after.byte_offset as int) =~= p1);
    let k = choose|k: int| 0 <= k < p1.len() && p1[k] == e;
    assert(q.contains(p1[k]) || waits(after, p1[k]));
    if out.contains(e) {
        let i = choose|i: int| 0 <= i < out.len() && out[i] == e;
        assert(q[i] == e);
        assert(parent_seen(after.seen, q[i].value));
        if awaited(e.value) is Some {
            assert(after.seen.contains(awaited(e.value)->0));
            assert(is_id(out, awaited(e.value)->0));
        }
    } else {
        let parent = awaited(e.value)->0;
        assert(after.waiting.contains_key(parent));
        assert(!after.seen.contains(parent));
        assert(parent.len() > 0);
        assert(!is_id(out, parent));
    }
}

/// A file in which each entry stands behind the one that it follows comes out as it is.
pub proof fn law_file_order(file: Seq<u8>, n: nat)
    requires
        file.len() <= usize::MAX,
        is_drained(file, n),
        parents_first(entries_from(file, 0)),
    ensures
        calls(file, n).1 == entries_from(file, 0),
{
    let p = lemma_calls(file, n);
    let (r, out) = calls(file, n);
    let p1 = lemma_call(file, p, r, out);
    let after = received(r, file.skip(r.byte_offset as int)).0;
    assert(p1 + entries_from(file, after.byte_offset as int) =~= p1);
}

/// A line that is not complete is left where it is; once its line feed is there, it comes as a
/// whole, with the place where it starts.
pub proof fn law_incomplete_line_waits(r: JsonlModel, part: Seq<u8>)
    requires
        r.queued.len() == 0,
        part.len() > 0,
        part.last() != 13,
        next_feed(part, 0) >= part.len(),
    ensures
        received(r, part) == (r, None::<EntryModel>, false),
        ({
            let line = part.push(10u8);
            match line_text(line, 0, line.len() as int) {
                Some(text) => match json_parsed(text) {
                    Some(obj) => text.len() > 0 && parent_seen(r.seen, obj) ==> received(r, line)
                        == (
                        emitted(
                            JsonlModel {
                                byte_offset: (r.byte_offset + line.len()) as usize,
                                ..r
                            },
                            obj,
                        ),
                        Some(EntryModel { offset: r.byte_offset, value: obj }),
                        false,
                    ),
                    None => true,
                },
                None => true,
            }
        }),
{
    let line = part.push(10u8);
    lemma_next_feed(part, 0);
    lemma_feed_pushed(part, 0);
    assert(line_end(line, 0) == Some(line.len() as int));
}

proof fn lemma_feed_pushed(part: Seq<u8>, pos: int)
    requires
        0 <= pos <= part.len(),
        next_feed(part, pos) >= part.len(),
    ensures
        next_feed(part.push(10u8), pos) == part.len(),
    decreases part.len() - pos,
{
    if pos < part.len() {
        lemma_feed_pushed(part, pos + 1);
    }
}

} // verus!
