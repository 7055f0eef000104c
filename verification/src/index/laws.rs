//! What holds of refreshing the list.
use crate::index::refresh::{
    batched, plan_for, present, ready_end, received, without, PlanModel, RefreshModel,
    REFRESH_BATCH_SIZE,
};
use crate::index::row::{
    key_of, known_entries, row_entry, row_hits, row_of, time_parts, ScannedModel,
};
use crate::providers::{EntryModel, Moment, ProviderNames, TranscriptCacheKey};
use vstd::prelude::*;

verus! {

/// What was stored of a session holds as long as its file stays as it was.
pub proof fn law_unchanged_hits(e: EntryModel, key: TranscriptCacheKey, names: ProviderNames)
    ensures
        row_hits(row_of(e, key, names), key),
{
}

/// What was stored of a session no longer holds when its file's time, or its size, is another.
/// Times before the epoch are not told apart: all are stored as the epoch.
pub proof fn law_changed_misses(
    e: EntryModel,
    key: TranscriptCacheKey,
    later: TranscriptCacheKey,
    names: ProviderNames,
)
    requires
        key != later,
        key is Mtime == later is Mtime,
        key is Mtime ==> time_parts(key->Mtime_0) != time_parts(later->Mtime_0),
    ensures
        !row_hits(row_of(e, key, names), later),
{
    match (key, later) {
        (TranscriptCacheKey::Size(a), TranscriptCacheKey::Size(b)) => {
            assert(a != b ==> a as i64 != b as i64) by (bit_vector);
        },
        (TranscriptCacheKey::Mtime(a), TranscriptCacheKey::Mtime(b)) => {
            assert(time_parts(a).0 as i64 == time_parts(a).0);
            assert(time_parts(b).0 as i64 == time_parts(b).0);
        },
        _ => {},
    }
}

/// A second refresh shows what the first one stored, without reading the session again, while its
/// file stays as it was and is not being written.
pub proof fn law_second_refresh_uses_cache(
    path: ScannedModel,
    e: EntryModel,
    names: ProviderNames,
)
    requires
        path.path == e.path,
        path.priority != 0,
    ensures
        plan_for(path, known_entries(seq![path], seq![row_of(e, path.key, names)], names))
            == PlanModel::Cached(row_entry(row_of(e, path.key, names), names)),
{
    let paths = seq![path];
    let rows = seq![row_of(e, path.key, names)];
    assert(paths.last() == path);
    assert(rows.last() == row_of(e, path.key, names));
    assert(key_of(paths, e.path) == Some(path.key));
    assert(rows.drop_last() =~= Seq::empty());
    reveal_with_fuel(known_entries, 2);
}

/// A session whose file changed is read again.
pub proof fn law_changed_file_is_read(
    path: ScannedModel,
    e: EntryModel,
    key: TranscriptCacheKey,
    names: ProviderNames,
)
    requires
        path.path == e.path,
        path.priority != 0,
        path.key != key,
        path.key is Mtime == key is Mtime,
        key is Mtime ==> time_parts(key->Mtime_0) != time_parts(path.key->Mtime_0),
    ensures
        plan_for(path, known_entries(seq![path], seq![row_of(e, key, names)], names))
            == PlanModel::Read,
{
    law_changed_misses(e, key, path.key, names);
    let paths = seq![path];
    let rows = seq![row_of(e, key, names)];
    assert(paths.last() == path);
    assert(rows.last() == row_of(e, key, names));
    assert(key_of(paths, e.path) == Some(path.key));
    assert(rows.drop_last() =~= Seq::empty());
    reveal_with_fuel(known_entries, 2);
}

/// A session that is being written is read again, whatever is known of it.
pub proof fn law_written_session_is_read(path: ScannedModel, known: Map<Seq<char>, EntryModel>)
    requires
        path.priority == 0,
    ensures
        plan_for(path, known) == PlanModel::ReRead,
{
}

/// What is read back from the index is what was stored: the numbers within what a row can hold,
/// times to the millisecond, and the scanned time in place of the entry's own.
pub proof fn law_stored_is_read_back(e: EntryModel, key: TranscriptCacheKey, names: ProviderNames)
    requires
        names.claude@ != "cursor"@,
        e.message_count <= i64::MAX,
        key is Mtime && key->Mtime_0.secs >= 0 && key->Mtime_0.nanos < 1_000_000_000,
        e.size is Some ==> e.size->0 <= i64::MAX,
        e.updated_at is Some ==> e.updated_at->0.valid(),
    ensures
        ({
            let back = row_entry(row_of(e, key, names), names);
            &&& back.path == e.path
            &&& back.id == e.id
            &&& back.title == e.title
            &&& back.mtime == key->Mtime_0
            &&& back.updated_at == (match e.updated_at {
                Some(t) => Some(
                    Moment { nanos: (t.nanos as int / 1_000_000 * 1_000_000) as u32, ..t },
                ),
                None => None,
            })
            &&& back.size == e.size
            &&& back.last_user_message == e.last_user_message
            &&& back.message_count == e.message_count
            &&& back.workspace_path == e.workspace_path
            &&& back.provider == e.provider
        }),
{
    let t = key->Mtime_0;
    assert(t.nanos as i64 as u32 == t.nanos);
    assert(e.message_count as i64 as usize == e.message_count);
    if let Some(u) = e.updated_at {
        let ms = u.nanos as int / 1_000_000;
        assert(u.millis() == u.secs * 1000 + ms);
        assert(u.millis() as i64 == u.millis());
        assert(u.millis() / 1000 == u.secs);
        assert(u.millis() % 1000 == ms);
    }
}

// ---------------------------------------------------------------------------
// Order
// ---------------------------------------------------------------------------

/// The results that have come.
pub open spec fn results_of(history: Seq<(usize, Option<EntryModel>)>) -> Map<
    usize,
    Option<EntryModel>,
>
    decreases history.len(),
{
    if history.len() == 0 {
        Map::empty()
    } else {
        results_of(history.drop_last()).insert(history.last().0, history.last().1)
    }
}

/// Where the refreshing of `total` paths stands after results have come, and the entries that were
/// shown, in order.
pub open spec fn shown_after(total: int, history: Seq<(usize, Option<EntryModel>)>) -> (
    RefreshModel,
    Seq<EntryModel>,
)
    decreases history.len(),
{
    if history.len() == 0 {
        (
            RefreshModel { total, buffer: Map::empty(), next: 0, batch: Seq::empty() },
            Seq::empty(),
        )
    } else {
        let (s, shown) = shown_after(total, history.drop_last());
        let (s2, sent) = received(s, history.last().0, history.last().1);
        (s2, shown + sent.flatten())
    }
}

/// Whether each result is one of the paths', and comes once.
pub open spec fn comes_once(total: int, history: Seq<(usize, Option<EntryModel>)>) -> bool {
    &&& forall|i: int| 0 <= i < history.len() ==> (#[trigger] history[i]).0 < total
    &&& forall|i: int, j: int|
        0 <= i < j < history.len() ==> (#[trigger] history[i]).0 != (#[trigger] history[j]).0
}

proof fn lemma_flatten_push(sent: Seq<Seq<EntryModel>>, b: Seq<EntryModel>)
    ensures
        sent.push(b).flatten() == sent.flatten() + b,
{
    sent.push(b).lemma_flatten_and_flatten_alt_are_equivalent();
    sent.lemma_flatten_and_flatten_alt_are_equivalent();
    assert(sent.push(b).drop_last() =~= sent);
    assert(sent.push(b).last() == b);
}

/// Nothing is lost or turned round in batches.
proof fn lemma_batched_flat(batch: Seq<EntryModel>, entries: Seq<EntryModel>)
    ensures
        batched(batch, entries).0.flatten() + batched(batch, entries).1 == batch + entries,
    decreases entries.len(),
{
    if entries.len() == 0 {
        Seq::<Seq<EntryModel>>::empty().lemma_flatten_and_flatten_alt_are_equivalent();
        assert(Seq::<Seq<EntryModel>>::empty().flatten() =~= Seq::<EntryModel>::empty());
        assert(batch + entries =~= batch);
        assert(Seq::<EntryModel>::empty() + batch =~= batch);
    } else {
        lemma_batched_flat(batch, entries.drop_last());
        let (sent, left) = batched(batch, entries.drop_last());
        let more = left.push(entries.last());
        assert(batch + entries =~= (batch + entries.drop_last()).push(entries.last()));
        assert(sent.flatten() + more =~= (sent.flatten() + left).push(entries.last()));
        if more.len() >= REFRESH_BATCH_SIZE {
            lemma_flatten_push(sent, more);
            assert(sent.push(more).flatten() + Seq::<EntryModel>::empty() =~= sent.flatten()
                + more);
        }
    }
}

proof fn lemma_present_split(results: Map<usize, Option<EntryModel>>, from: int, mid: int, to: int)
    requires
        from <= mid <= to,
    ensures
        present(results, from, to) == present(results, from, mid) + present(results, mid, to),
    decreases to - mid,
{
    if mid < to {
        lemma_present_split(results, from, mid, to - 1);
        assert(present(results, from, to) =~= present(results, from, mid) + present(
            results,
            mid,
            to,
        ));
    } else {
        assert(present(results, from, mid) + present(results, mid, to) =~= present(
            results,
            from,
            to,
        ));
    }
}

proof fn lemma_present_same(
    a: Map<usize, Option<EntryModel>>,
    b: Map<usize, Option<EntryModel>>,
    from: int,
    to: int,
)
    requires
        forall|k: int| from <= k < to ==> a[#[trigger] (k as usize)] == b[k as usize],
    ensures
        present(a, from, to) == present(b, from, to),
    decreases to - from,
{
    if from < to {
        lemma_present_same(a, b, from, to - 1);
        let k = to - 1;
        assert(a[k as usize] == b[k as usize]);
    }
}

proof fn lemma_end_same(
    a: Map<usize, Option<EntryModel>>,
    b: Map<usize, Option<EntryModel>>,
    next: int,
    total: int,
)
    requires
        forall|k: int|
            next <= k < total ==> a.contains_key(#[trigger] (k as usize)) == b.contains_key(
                k as usize,
            ),
    ensures
        ready_end(a, next, total) == ready_end(b, next, total),
    decreases total - next,
{
    if next < total {
        assert(a.contains_key(next as usize) == b.contains_key(next as usize));
        lemma_end_same(a, b, next + 1, total);
    }
}

proof fn lemma_end_from(
    results: Map<usize, Option<EntryModel>>,
    from: int,
    next: int,
    total: int,
)
    requires
        from <= next <= total,
        forall|k: int| from <= k < next ==> results.contains_key(#[trigger] (k as usize)),
    ensures
        ready_end(results, from, total) == ready_end(results, next, total),
    decreases next - from,
{
    if from < next {
        assert(results.contains_key(from as usize));
        lemma_end_from(results, from + 1, next, total);
    }
}

proof fn lemma_end_bounds(results: Map<usize, Option<EntryModel>>, next: int, total: int)
    requires
        next <= total,
    ensures
        next <= ready_end(results, next, total) <= total,
        forall|k: int|
            next <= k < ready_end(results, next, total) ==> results.contains_key(
                #[trigger] (k as usize),
            ),
    decreases total - next,
{
    if next < total && results.contains_key(next as usize) {
        lemma_end_bounds(results, next + 1, total);
    }
}

proof fn lemma_known_results(history: Seq<(usize, Option<EntryModel>)>, idx: usize)
    ensures
        results_of(history).contains_key(idx) <==> exists|i: int|
            0 <= i < history.len() && (#[trigger] history[i]).0 == idx,
    decreases history.len(),
{
    if history.len() > 0 {
        lemma_known_results(history.drop_last(), idx);
        let before = history.drop_last();
        if results_of(history).contains_key(idx) {
            if history.last().0 == idx {
                assert(history[history.len() - 1].0 == idx);
            } else {
                let i = choose|i: int| 0 <= i < before.len() && (#[trigger] before[i]).0 == idx;
                assert(history[i].0 == idx);
            }
        }
        if exists|i: int| 0 <= i < history.len() && (#[trigger] history[i]).0 == idx {
            let i = choose|i: int| 0 <= i < history.len() && (#[trigger] history[i]).0 == idx;
            if i < before.len() {
                assert(before[i].0 == idx);
            }
        }
    }
}

/// In whatever order the results come, the entries are shown in the order of their paths: what was
/// shown, with what waits in the batch, is what the results in a row from the first hold. The list
/// never changes its order.
pub proof fn law_shown_in_order(total: int, history: Seq<(usize, Option<EntryModel>)>)
    requires
        0 <= total <= usize::MAX,
        comes_once(total, history),
    ensures
        ({
            let (s, shown) = shown_after(total, history);
            let results = results_of(history);
            let end = ready_end(results, 0, total);
            &&& s.total == total
            &&& s.next == end
            &&& s.buffer == without(results, 0, end)
            &&& shown + s.batch == present(results, 0, end)
        }),
    decreases history.len(),
{
    let (s, shown) = shown_after(total, history);
    let results = results_of(history);
    if history.len() == 0 {
        assert(without(results, 0, 0) =~= Map::empty());
        assert(shown + s.batch =~= Seq::empty());
    } else {
        let before = history.drop_last();
        assert forall|i: int| 0 <= i < before.len() implies (#[trigger] before[i]).0 < total by {
            assert(before[i] == history[i]);
        }
        assert forall|i: int, j: int| 0 <= i < j < before.len() implies (#[trigger] before[i]).0
            != (#[trigger] before[j]).0 by {
            assert(before[i] == history[i]);
            assert(before[j] == history[j]);
        }
        law_shown_in_order(total, before);
        let (s0, shown0) = shown_after(total, before);
        let r0 = results_of(before);
        let (idx, entry) = history.last();
        let mid = ready_end(r0, 0, total);
        lemma_end_bounds(r0, 0, total);
        let buffer = s0.buffer.insert(idx, entry);
        assert(idx < total) by {
            assert(history[history.len() - 1].0 < total);
        }
        assert(!r0.contains_key(idx)) by {
            lemma_known_results(before, idx);
            if r0.contains_key(idx) {
                let i = choose|i: int| 0 <= i < before.len() && (#[trigger] before[i]).0 == idx;
                assert(history[i].0 != history[history.len() - 1].0);
            }
        }
        assert(idx >= mid) by {
            if idx < mid {
                assert(r0.contains_key((idx as int) as usize));
            }
        }
        // From `mid` on the buffer holds what the results do.
        assert forall|k: int| mid <= k < total implies buffer.contains_key(#[trigger] (k as usize))
            == results.contains_key(k as usize) && (results.contains_key(k as usize)
            ==> buffer[k as usize] == results[k as usize]) by {
            assert(s0.buffer.contains_key(k as usize) == r0.contains_key(k as usize));
            if r0.contains_key(k as usize) {
                assert(s0.buffer[k as usize] == r0[k as usize]);
            }
        }
        lemma_end_same(buffer, results, mid, total);
        assert forall|k: int| 0 <= k < mid implies results.contains_key(#[trigger] (k as usize)) by {
            assert(r0.contains_key(k as usize));
        }
        lemma_end_from(results, 0, mid, total);
        let end = ready_end(results, 0, total);
        lemma_end_bounds(buffer, mid, total);
        assert forall|k: int| mid <= k < end implies buffer[#[trigger] (k as usize)]
            == results[k as usize] by {
            assert(buffer.contains_key(k as usize));
        }
        lemma_present_same(buffer, results, mid, end);
        assert forall|k: int| 0 <= k < mid implies r0[#[trigger] (k as usize)]
            == results[k as usize] by {
            assert(k as usize != idx);
        }
        lemma_present_same(r0, results, 0, mid);
        lemma_present_split(results, 0, mid, end);
        let more = present(buffer, mid, end);
        lemma_batched_flat(s0.batch, more);
        let (sent, left) = batched(s0.batch, more);
        assert(shown + s.batch =~= shown0 + (sent.flatten() + left));
        assert(shown0 + (s0.batch + more) =~= (shown0 + s0.batch) + more);
        assert(s.buffer =~= without(results, 0, end)) by {
            assert forall|k: usize| s.buffer.contains_key(k) == without(
                results,
                0,
                end,
            ).contains_key(k) by {}
        }
    }
}

proof fn lemma_all_ready(results: Map<usize, Option<EntryModel>>, next: int, total: int)
    requires
        next <= total,
        forall|k: int| next <= k < total ==> results.contains_key(#[trigger] (k as usize)),
    ensures
        ready_end(results, next, total) == total,
    decreases total - next,
{
    if next < total {
        assert(results.contains_key(next as usize));
        lemma_all_ready(results, next + 1, total);
    }
}

/// Once all results have come, all entries are shown, or stand in the last batch.
pub proof fn law_all_shown(total: int, history: Seq<(usize, Option<EntryModel>)>)
    requires
        0 <= total <= usize::MAX,
        comes_once(total, history),
        forall|k: int|
            0 <= k < total ==> results_of(history).contains_key(#[trigger] (k as usize)),
    ensures
        ({
            let (s, shown) = shown_after(total, history);
            shown + s.batch == present(results_of(history), 0, total)
        }),
{
    law_shown_in_order(total, history);
    lemma_all_ready(results_of(history), 0, total);
}

/// Every batch but the last is full.
pub proof fn law_full_batches(batch: Seq<EntryModel>, entries: Seq<EntryModel>)
    requires
        batch.len() < REFRESH_BATCH_SIZE,
    ensures
        forall|i: int|
            0 <= i < batched(batch, entries).0.len() ==> (#[trigger] batched(
                batch,
                entries,
            ).0[i]).len() == REFRESH_BATCH_SIZE,
        batched(batch, entries).1.len() < REFRESH_BATCH_SIZE,
    decreases entries.len(),
{
    if entries.len() > 0 {
        law_full_batches(batch, entries.drop_last());
    }
}

} // verus!
