//! What holds of the form in which values are written.
use crate::json::{canonical, canonical_members, key_less, put, put_all, JsonModel};
use vstd::prelude::*;

verus! {

/// Whether members stand by rising key, no key twice.
pub open spec fn by_key(members: Seq<(Seq<char>, JsonModel)>) -> bool {
    forall|i: int, j: int|
        0 <= i < j < members.len() ==> key_less((#[trigger] members[i]).0, (#[trigger] members[j]).0)
}

/// Keys are ordered by the first place where they differ, and a key comes before those it begins.
pub proof fn law_order_of_keys(
    p: Seq<char>,
    c: char,
    d: char,
    a: Seq<char>,
    b: Seq<char>,
)
    ensures
        c < d ==> key_less(p + seq![c] + a, p + seq![d] + b),
        c < d ==> !key_less(p + seq![d] + b, p + seq![c] + a),
        key_less(p, p + seq![c] + a),
        !key_less(p + seq![c] + a, p),
        !key_less(p, p),
    decreases p.len(),
{
    let x = p + seq![c] + a;
    let y = p + seq![d] + b;
    if p.len() > 0 {
        let q = p.skip(1);
        law_order_of_keys(q, c, d, a, b);
        assert(x.skip(1) =~= q + seq![c] + a);
        assert(y.skip(1) =~= q + seq![d] + b);
        assert(x[0] == p[0] && y[0] == p[0]);
    } else {
        assert(x[0] == c && y[0] == d);
    }
}

proof fn lemma_keys_differ(a: Seq<char>, b: Seq<char>)
    ensures
        key_less(a, b) ==> a != b && !key_less(b, a),
        a != b ==> key_less(a, b) || key_less(b, a),
    decreases a.len(),
{
    if a.len() == 0 || b.len() == 0 {
        if a.len() == 0 && b.len() == 0 {
            assert(a =~= b);
        }
    } else {
        lemma_keys_differ(a.skip(1), b.skip(1));
        if a[0] == b[0] && a.skip(1) == b.skip(1) {
            assert(a =~= seq![a[0]] + a.skip(1));
            assert(b =~= seq![b[0]] + b.skip(1));
        }
    }
}

proof fn lemma_keys_in_a_row(a: Seq<char>, b: Seq<char>, c: Seq<char>)
    requires
        key_less(a, b),
        key_less(b, c),
    ensures
        key_less(a, c),
    decreases a.len(),
{
    if a.len() > 0 && a[0] == b[0] && b[0] == c[0] {
        lemma_keys_in_a_row(a.skip(1), b.skip(1), c.skip(1));
    }
}

/// A member is put in its place among members ordered by key, in place of the one of its key; the
/// others stay.
pub proof fn law_put(members: Seq<(Seq<char>, JsonModel)>, key: Seq<char>, value: JsonModel)
    requires
        by_key(members),
    ensures
        by_key(put(members, key, value)),
        forall|m: (Seq<char>, JsonModel)| #[trigger]
            put(members, key, value).contains(m) <==> m == (key, value) || (m.0 != key
                && members.contains(m)),
    decreases members.len(),
{
    let out = put(members, key, value);
    let rest = members.skip(1);
    assert forall|i: int| 0 <= i < members.len() implies members[i].0 != key || !key_less(
        key,
        (#[trigger] members[i]).0,
    ) by {
        lemma_keys_differ(key, members[i].0);
    }
    if members.len() == 0 {
        assert(out[0] == (key, value));
        assert(out.contains(out[0]));
    } else if members[0].0 == key {
        assert(out.len() == members.len());
        assert(forall|i: int| 1 <= i < out.len() ==> out[i] == members[i]);
        assert(out[0] == (key, value));
        assert forall|i: int| 1 <= i < members.len() implies (#[trigger] members[i]).0 != key by {
            lemma_keys_differ(members[0].0, members[i].0);
        }
        assert forall|m: (Seq<char>, JsonModel)| #[trigger]
            out.contains(m) <==> m == (key, value) || (m.0 != key && members.contains(m)) by {
            assert(out.contains(out[0]));
            if m.0 != key && members.contains(m) {
                let i = choose|i: int| 0 <= i < members.len() && members[i] == m;
                assert(out[i] == m);
            }
            if out.contains(m) && m != (key, value) {
                let i = choose|i: int| 0 <= i < out.len() && out[i] == m;
                assert(members[i] == m);
            }
        }
    } else if key_less(key, members[0].0) {
        assert(forall|i: int| 1 <= i < out.len() ==> out[i] == members[i - 1]);
        assert(out[0] == (key, value));
        assert forall|i: int| 0 <= i < members.len() implies key_less(
            key,
            (#[trigger] members[i]).0,
        ) by {
            if i > 0 {
                lemma_keys_in_a_row(key, members[0].0, members[i].0);
            }
        }
        assert forall|m: (Seq<char>, JsonModel)| #[trigger]
            out.contains(m) <==> m == (key, value) || (m.0 != key && members.contains(m)) by {
            assert(out.contains(out[0]));
            if members.contains(m) {
                let i = choose|i: int| 0 <= i < members.len() && members[i] == m;
                assert(out[i + 1] == m);
                lemma_keys_differ(key, members[i].0);
            }
            if out.contains(m) && m != (key, value) {
                let i = choose|i: int| 0 <= i < out.len() && out[i] == m;
                assert(members[i - 1] == m);
                lemma_keys_differ(key, members[i - 1].0);
            }
        }
    } else {
        let tail = put(rest, key, value);
        lemma_keys_differ(members[0].0, key);
        assert(key_less(members[0].0, key));
        assert forall|i: int, j: int| 0 <= i < j < rest.len() implies key_less(
            (#[trigger] rest[i]).0,
            (#[trigger] rest[j]).0,
        ) by {
            assert(rest[i] == members[i + 1] && rest[j] == members[j + 1]);
        }
        law_put(rest, key, value);
        assert(out =~= seq![members[0]] + tail);
        assert(forall|i: int| 1 <= i < out.len() ==> out[i] == tail[i - 1]);
        assert forall|i: int| 0 <= i < tail.len() implies key_less(
            members[0].0,
            (#[trigger] tail[i]).0,
        ) by {
            assert(tail.contains(tail[i]));
            if tail[i] != (key, value) {
                assert(rest.contains(tail[i]));
                let j = choose|j: int| 0 <= j < rest.len() && rest[j] == tail[i];
                assert(members[j + 1] == tail[i]);
            }
        }
        assert forall|m: (Seq<char>, JsonModel)| #[trigger]
            out.contains(m) <==> m == (key, value) || (m.0 != key && members.contains(m)) by {
            assert(tail.contains(m) <==> m == (key, value) || (m.0 != key && rest.contains(m)));
            if out.contains(m) {
                let i = choose|i: int| 0 <= i < out.len() && out[i] == m;
                if i > 0 {
                    assert(tail[i - 1] == m);
                    assert(tail.contains(m));
                    if rest.contains(m) {
                        let j = choose|j: int| 0 <= j < rest.len() && rest[j] == m;
                        assert(members[j + 1] == m);
                    }
                } else {
                    assert(members[0] == m);
                }
            }
            if tail.contains(m) {
                let i = choose|i: int| 0 <= i < tail.len() && tail[i] == m;
                assert(out[i + 1] == m);
            }
            if m.0 != key && members.contains(m) {
                let i = choose|i: int| 0 <= i < members.len() && members[i] == m;
                if i == 0 {
                    assert(out[0] == m);
                } else {
                    assert(rest[i - 1] == m);
                    assert(rest.contains(m));
                }
            }
        }
    }
}

/// Of members put in one after the other the last of each key stays, and they are ordered by key.
pub proof fn law_put_all(members: Seq<(Seq<char>, JsonModel)>)
    ensures
        by_key(put_all(members)),
        forall|m: (Seq<char>, JsonModel)| #[trigger]
            put_all(members).contains(m) <==> exists|i: int|
                0 <= i < members.len() && members[i] == m && forall|j: int|
                    i < j < members.len() ==> (#[trigger] members[j]).0 != m.0,
    decreases members.len(),
{
    if members.len() > 0 {
        let front = members.drop_last();
        let last = members.last();
        law_put_all(front);
        law_put(put_all(front), last.0, last.1);
        assert forall|m: (Seq<char>, JsonModel)| #[trigger]
            put_all(members).contains(m) <==> exists|i: int|
                0 <= i < members.len() && members[i] == m && forall|j: int|
                    i < j < members.len() ==> (#[trigger] members[j]).0 != m.0 by {
            assert(put_all(members).contains(m) <==> m == last || (m.0 != last.0 && put_all(
                front,
            ).contains(m)));
            if m == last {
                assert(members[members.len() - 1] == m);
            } else {
                if put_all(front).contains(m) && m.0 != last.0 {
                    let i = choose|i: int|
                        0 <= i < front.len() && front[i] == m && forall|j: int|
                            i < j < front.len() ==> (#[trigger] front[j]).0 != m.0;
                    assert(members[i] == m);
                    assert forall|j: int| i < j < members.len() implies (#[trigger] members[j]).0
                        != m.0 by {
                        if j < front.len() {
                            assert(front[j] == members[j]);
                        }
                    }
                }
                if exists|i: int|
                    0 <= i < members.len() && members[i] == m && forall|j: int|
                        i < j < members.len() ==> (#[trigger] members[j]).0 != m.0 {
                    let i = choose|i: int|
                        0 <= i < members.len() && members[i] == m && forall|j: int|
                            i < j < members.len() ==> (#[trigger] members[j]).0 != m.0;
                    assert(i < front.len());
                    assert(members[members.len() - 1].0 != m.0);
                    assert(front[i] == m);
                    assert forall|j: int| i < j < front.len() implies (#[trigger] front[j]).0
                        != m.0 by {
                        assert(front[j] == members[j]);
                    }
                }
            }
        }
    }
}

/// An object is written with its members ordered by key, each key once, with the value that came
/// last for it.
pub proof fn law_members_are_written(members: Seq<(Seq<char>, JsonModel)>, i: int)
    requires
        0 <= i < members.len(),
        forall|j: int| i < j < members.len() ==> (#[trigger] members[j]).0 != members[i].0,
    ensures
        canonical(JsonModel::Object(members)) is Object,
        by_key(canonical(JsonModel::Object(members))->Object_0),
        canonical(JsonModel::Object(members))->Object_0.contains(
            (members[i].0, canonical(members[i].1)),
        ),
{
    let each = canonical_members(members);
    law_put_all(each);
    assert(each[i] == (members[i].0, canonical(members[i].1)));
    assert forall|j: int| i < j < each.len() implies (#[trigger] each[j]).0 != each[i].0 by {
        assert(each[j].0 == members[j].0);
    }
}

/// An object is written with no other members than it has.
pub proof fn law_no_other_members_are_written(
    members: Seq<(Seq<char>, JsonModel)>,
    m: (Seq<char>, JsonModel),
)
    requires
        canonical(JsonModel::Object(members))->Object_0.contains(m),
    ensures
        exists|i: int|
            0 <= i < members.len() && m == ((#[trigger] members[i]).0, canonical(members[i].1)),
{
    let each = canonical_members(members);
    law_put_all(each);
    let i = choose|i: int|
        0 <= i < each.len() && each[i] == m && forall|j: int|
            i < j < each.len() ==> (#[trigger] each[j]).0 != m.0;
    assert(members[i].0 == m.0);
}

/// A number is written as it is, whichever way it is held.
pub proof fn law_numbers_are_written(n: i64, u: u64)
    ensures
        n >= 0 ==> canonical(JsonModel::Negative(n)) == JsonModel::Unsigned(n as u64),
        n < 0 ==> canonical(JsonModel::Negative(n)) == JsonModel::Negative(n),
        canonical(JsonModel::Unsigned(u)) == JsonModel::Unsigned(u),
{
}

} // verus!
