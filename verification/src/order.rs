//! Putting things in order.
use crate::providers::Moment;
use vstd::prelude::*;

verus! {

/// Whether one key comes before another.
pub open spec fn key_before(a: Moment, b: Moment) -> bool {
    a.secs < b.secs || (a.secs == b.secs && a.nanos < b.nanos)
}

/// Whether item `i` stands before item `j`: by their keys, which rise, or fall where `falling`
/// holds; of two items with the same key the first one comes first.
pub open spec fn stands_before(keys: Seq<Moment>, falling: bool, i: int, j: int) -> bool {
    if falling {
        key_before(keys[j], keys[i]) || (keys[i] == keys[j] && i < j)
    } else {
        key_before(keys[i], keys[j]) || (keys[i] == keys[j] && i < j)
    }
}

/// Whether `order` lists the items from `lo` to `hi` in order, each once.
pub open spec fn lists_range(
    keys: Seq<Moment>,
    falling: bool,
    order: Seq<usize>,
    lo: int,
    hi: int,
) -> bool {
    &&& order.len() == hi - lo
    &&& forall|a: int| 0 <= a < order.len() ==> lo <= #[trigger] order[a] < hi
    &&& forall|a: int, b: int|
        0 <= a < b < order.len() ==> stands_before(
            keys,
            falling,
            #[trigger] order[a] as int,
            #[trigger] order[b] as int,
        )
    &&& forall|k: int| lo <= k < hi ==> order.contains(#[trigger] (k as usize))
}

/// Whether `order` lists all the items in order, each once.
pub open spec fn is_order(keys: Seq<Moment>, falling: bool, order: Seq<usize>) -> bool {
    lists_range(keys, falling, order, 0, keys.len() as int)
}

/// There is one order of given keys.
pub proof fn law_one_order(keys: Seq<Moment>, falling: bool, a: Seq<usize>, b: Seq<usize>)
    requires
        keys.len() <= usize::MAX,
        is_order(keys, falling, a),
        is_order(keys, falling, b),
    ensures
        a == b,
{
    assert forall|n: nat| n <= a.len() implies a.take(n as int) == b.take(n as int) by {
        lemma_same_start(keys, falling, a, b, n);
    }
    assert(a.take(a.len() as int) =~= a);
    assert(b.take(b.len() as int) =~= b);
    assert(a.take(a.len() as int) == b.take(a.len() as int));
}

proof fn lemma_same_start(keys: Seq<Moment>, falling: bool, a: Seq<usize>, b: Seq<usize>, n: nat)
    requires
        keys.len() <= usize::MAX,
        is_order(keys, falling, a),
        is_order(keys, falling, b),
        n <= a.len(),
    ensures
        a.take(n as int) == b.take(n as int),
    decreases n,
{
    if n > 0 {
        let i = n - 1;
        lemma_same_start(keys, falling, a, b, i as nat);
        assert forall|k: int| 0 <= k < i implies a[k] == b[k] by {
            assert(a.take(i)[k] == b.take(i)[k]);
        }
        if a[i] != b[i] {
            let x = a[i];
            let y = b[i];
            assert(b.contains((x as int) as usize));
            assert(a.contains((y as int) as usize));
            let p = choose|p: int| 0 <= p < b.len() && b[p] == x;
            let q = choose|q: int| 0 <= q < a.len() && a[q] == y;
            if p < i {
                assert(stands_before(keys, falling, a[p] as int, a[i] as int));
            } else if q < i {
                assert(stands_before(keys, falling, b[q] as int, b[i] as int));
            } else {
                assert(stands_before(keys, falling, b[i] as int, b[p] as int));
                assert(stands_before(keys, falling, a[i] as int, a[q] as int));
            }
            assert(false);
        }
        assert(a.take(n as int) =~= b.take(n as int));
    }
}

/// The first place from `from` on whose item does not stand before `x`.
spec fn place_for(keys: Seq<Moment>, falling: bool, order: Seq<usize>, x: int, from: int) -> int
    decreases order.len() - from,
{
    if from >= order.len() || !stands_before(keys, falling, order[from] as int, x) {
        from
    } else {
        place_for(keys, falling, order, x, from + 1)
    }
}

proof fn lemma_place_for(keys: Seq<Moment>, falling: bool, order: Seq<usize>, x: int, from: int)
    requires
        0 <= from <= order.len(),
        forall|a: int|
            0 <= a < from ==> stands_before(keys, falling, #[trigger] order[a] as int, x),
    ensures
        from <= place_for(keys, falling, order, x, from) <= order.len(),
        forall|a: int|
            0 <= a < place_for(keys, falling, order, x, from) ==> stands_before(
                keys,
                falling,
                #[trigger] order[a] as int,
                x,
            ),
        place_for(keys, falling, order, x, from) < order.len() ==> !stands_before(
            keys,
            falling,
            order[place_for(keys, falling, order, x, from)] as int,
            x,
        ),
    decreases order.len() - from,
{
    if from < order.len() && stands_before(keys, falling, order[from] as int, x) {
        lemma_place_for(keys, falling, order, x, from + 1);
    }
}

/// There is an order of any keys.
pub proof fn law_order_exists(keys: Seq<Moment>, falling: bool) -> (order: Seq<usize>)
    requires
        keys.len() <= usize::MAX,
    ensures
        is_order(keys, falling, order),
    decreases keys.len(),
{
    if keys.len() == 0 {
        Seq::empty()
    } else {
        let front = keys.drop_last();
        let before = law_order_exists(front, falling);
        let x = keys.len() - 1;
        lemma_place_for(keys, falling, before, x, 0);
        let p = place_for(keys, falling, before, x, 0);
        let order = before.insert(p, x as usize);
        assert forall|a: int, b: int| 0 <= a < b < before.len() implies stands_before(
            keys,
            falling,
            #[trigger] before[a] as int,
            #[trigger] before[b] as int,
        ) by {
            assert(stands_before(front, falling, before[a] as int, before[b] as int));
        }
        assert forall|b: int| p <= b < before.len() implies stands_before(
            keys,
            falling,
            x,
            #[trigger] before[b] as int,
        ) by {
            assert(stands_before(keys, falling, x, before[p] as int));
            if b > p {
                assert(stands_before(keys, falling, before[p] as int, before[b] as int));
            }
        }
        assert forall|a: int, b: int| 0 <= a < b < order.len() implies stands_before(
            keys,
            falling,
            #[trigger] order[a] as int,
            #[trigger] order[b] as int,
        ) by {
            let i = if a < p {
                a
            } else {
                a - 1
            };
            let j = if b < p {
                b
            } else {
                b - 1
            };
            if a != p {
                assert(order[a] == before[i]);
            }
            if b != p {
                assert(order[b] == before[j]);
            }
            if a != p && b != p {
                assert(stands_before(keys, falling, before[i] as int, before[j] as int));
            }
        }
        assert forall|k: int| 0 <= k < keys.len() implies order.contains(
            #[trigger] (k as usize),
        ) by {
            if k == x {
                assert(order[p] == k as usize);
            } else {
                assert(before.contains(k as usize));
                let i = choose|i: int| 0 <= i < before.len() && before[i] == k as usize;
                assert(order[if i < p {
                    i
                } else {
                    i + 1
                }] == k as usize);
            }
        }
        order
    }
}

fn comes_before(keys: &Vec<Moment>, falling: bool, i: usize, j: usize) -> (r: bool)
    requires
        i < keys@.len(),
        j < keys@.len(),
    ensures
        r == stands_before(keys@, falling, i as int, j as int),
{
    let a = keys[i];
    let b = keys[j];
    let less = a.secs < b.secs || (a.secs == b.secs && a.nanos < b.nanos);
    let same = a.secs == b.secs && a.nanos == b.nanos;
    if same {
        i < j
    } else if falling {
        !less
    } else {
        less
    }
}

/// Brings two listed ranges that follow each other together.
fn merge(keys: &Vec<Moment>, falling: bool, a: Vec<usize>, b: Vec<usize>, Ghost(lo): Ghost<int>, Ghost(
    mid,
): Ghost<int>, Ghost(hi): Ghost<int>) -> (r: Vec<usize>)
    requires
        0 <= lo <= mid <= hi <= keys@.len(),
        lists_range(keys@, falling, a@, lo, mid),
        lists_range(keys@, falling, b@, mid, hi),
    ensures
        lists_range(keys@, falling, r@, lo, hi),
{
    let mut out: Vec<usize> = Vec::new();
    let mut i: usize = 0;
    let mut j: usize = 0;
    while i < a.len() || j < b.len()
        invariant
            0 <= lo <= mid <= hi <= keys@.len(),
            lists_range(keys@, falling, a@, lo, mid),
            lists_range(keys@, falling, b@, mid, hi),
            i <= a@.len(),
            j <= b@.len(),
            out@.len() == i + j,
            forall|k: int| 0 <= k < out@.len() ==> lo <= #[trigger] out@[k] < hi,
            forall|p: int, q: int|
                0 <= p < q < out@.len() ==> stands_before(
                    keys@,
                    falling,
                    #[trigger] out@[p] as int,
                    #[trigger] out@[q] as int,
                ),
            forall|p: int, q: int|
                0 <= p < out@.len() && i <= q < a@.len() ==> stands_before(
                    keys@,
                    falling,
                    #[trigger] out@[p] as int,
                    #[trigger] a@[q] as int,
                ),
            forall|p: int, q: int|
                0 <= p < out@.len() && j <= q < b@.len() ==> stands_before(
                    keys@,
                    falling,
                    #[trigger] out@[p] as int,
                    #[trigger] b@[q] as int,
                ),
            forall|k: int| 0 <= k < i ==> out@.contains(#[trigger] a@[k]),
            forall|k: int| 0 <= k < j ==> out@.contains(#[trigger] b@[k]),
        decreases a@.len() + b@.len() - i - j,
    {
        let left = if j >= b.len() {
            true
        } else if i >= a.len() {
            false
        } else {
            comes_before(keys, falling, a[i], b[j])
        };
        let ghost before = out@;
        if left {
            out.push(a[i]);
            proof {
                assert forall|q: int| j <= q < b@.len() implies stands_before(
                    keys@,
                    falling,
                    a@[i as int] as int,
                    #[trigger] b@[q] as int,
                ) by {
                    if q > j {
                        assert(stands_before(keys@, falling, b@[j as int] as int, b@[q] as int));
                    }
                }
                assert(out@[out@.len() - 1] == a@[i as int]);
                assert forall|x: usize| before.contains(x) implies out@.contains(x) by {
                    let p = choose|p: int| 0 <= p < before.len() && before[p] == x;
                    assert(out@[p] == x);
                }
            }
            i = i + 1;
        } else {
            out.push(b[j]);
            proof {
                assert forall|q: int| i <= q < a@.len() implies stands_before(
                    keys@,
                    falling,
                    b@[j as int] as int,
                    #[trigger] a@[q] as int,
                ) by {
                    assert(a@[i as int] < mid <= b@[j as int]);
                    if q > i {
                        assert(stands_before(keys@, falling, a@[i as int] as int, a@[q] as int));
                    }
                }
                assert(out@[out@.len() - 1] == b@[j as int]);
                assert forall|x: usize| before.contains(x) implies out@.contains(x) by {
                    let p = choose|p: int| 0 <= p < before.len() && before[p] == x;
                    assert(out@[p] == x);
                }
            }
            j = j + 1;
        }
    }
    proof {
        assert forall|k: int| lo <= k < hi implies out@.contains(#[trigger] (k as usize)) by {
            if k < mid {
                assert(a@.contains(k as usize));
                let p = choose|p: int| 0 <= p < a@.len() && a@[p] == k as usize;
                assert(out@.contains(a@[p]));
            } else {
                assert(b@.contains(k as usize));
                let p = choose|p: int| 0 <= p < b@.len() && b@[p] == k as usize;
                assert(out@.contains(b@[p]));
            }
        }
    }
    out
}

fn order_range(keys: &Vec<Moment>, falling: bool, lo: usize, hi: usize) -> (r: Vec<usize>)
    requires
        lo <= hi <= keys@.len(),
    ensures
        lists_range(keys@, falling, r@, lo as int, hi as int),
    decreases hi - lo,
{
    if hi - lo == 0 {
        Vec::new()
    } else if hi - lo == 1 {
        let mut r: Vec<usize> = Vec::new();
        r.push(lo);
        assert(r@[0] == lo);
        r
    } else {
        let mid: usize = lo + (hi - lo) / 2;
        let a = order_range(keys, falling, lo, mid);
        let b = order_range(keys, falling, mid, hi);
        merge(keys, falling, a, b, Ghost(lo as int), Ghost(mid as int), Ghost(hi as int))
    }
}

/// The places of all items in the order of their keys; where `falling` holds the greatest key
/// comes first. Items with the same key keep their order.
pub fn order_of(keys: &Vec<Moment>, falling: bool) -> (r: Vec<usize>)
    ensures
        is_order(keys@, falling, r@),
{
    order_range(keys, falling, 0, keys.len())
}

} // verus!
