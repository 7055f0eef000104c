//! Paths, compared part by part.
use crate::text::{
    concat2, join, joined, same_text, split_at_char, split_char, split_from, views,
};
use vstd::prelude::*;

verus! {

broadcast use vstd::string::group_string_axioms;

/// The pieces of a path that count: empty ones do not, nor do single dots behind the first piece.
pub open spec fn counted(pieces: Seq<Seq<char>>) -> Seq<Seq<char>>
    decreases pieces.len(),
{
    if pieces.len() == 0 {
        Seq::empty()
    } else {
        let before = counted(pieces.drop_last());
        let p = pieces.last();
        if p.len() == 0 || (p == seq!['.'] && pieces.len() > 1) {
            before
        } else {
            before.push(p)
        }
    }
}

/// The parts of a path.
pub open spec fn path_parts(path: Seq<char>) -> Seq<Seq<char>> {
    counted(split_at_char(path, '/'))
}

/// Whether a path begins at the root.
pub open spec fn is_rooted(path: Seq<char>) -> bool {
    path.len() > 0 && path[0] == '/'
}

/// Whether two texts are the same path.
pub open spec fn same_path(a: Seq<char>, b: Seq<char>) -> bool {
    is_rooted(a) == is_rooted(b) && path_parts(a) == path_parts(b)
}

/// Whether a path begins with all the parts of another.
pub open spec fn path_starts(path: Seq<char>, dir: Seq<char>) -> bool {
    let (p, d) = (path_parts(path), path_parts(dir));
    &&& is_rooted(path) == is_rooted(dir) || (!is_rooted(dir) && d.len() == 0)
    &&& d.len() <= p.len() && p.take(d.len() as int) == d
}

/// Whether a part is a name, and does not stay in its place or go up.
pub open spec fn is_name(part: Seq<char>) -> bool {
    part != seq!['.'] && part != seq!['.', '.']
}

/// The name of the directory that a path lies in.
pub open spec fn parent_name(path: Seq<char>) -> Option<Seq<char>> {
    let p = path_parts(path);
    if p.len() >= 2 && is_name(p[p.len() - 2]) {
        Some(p[p.len() - 2])
    } else {
        None
    }
}

/// The plainest text of a path: its parts, with one slash between neighbours.
pub open spec fn plain_path(path: Seq<char>) -> Seq<char> {
    let rest = joined(path_parts(path), "/"@);
    if is_rooted(path) {
        "/"@ + rest
    } else {
        rest
    }
}

/// The parts of a path.
pub fn parts_of(path: &str) -> (r: Vec<String>)
    ensures
        views(r@) == path_parts(path@),
{
    proof {
        reveal_strlit(".");
        assert("."@ =~= seq!['.']);
    }
    let pieces = split_char(path, '/');
    let ghost all = views(pieces@);
    let mut out: Vec<String> = Vec::new();
    let mut i: usize = 0;
    assert(views(out@) =~= counted(all.take(0)));
    while i < pieces.len()
        invariant
            i <= pieces@.len(),
            all == views(pieces@),
            "."@ == seq!['.'],
            views(out@) == counted(all.take(i as int)),
        decreases pieces@.len() - i,
    {
        proof {
            assert(all.take(i + 1).drop_last() =~= all.take(i as int));
            assert(all.take(i + 1).last() == pieces@[i as int]@);
        }
        let p = pieces[i].as_str();
        if !p.is_empty() && !(i > 0 && same_text(p, ".")) {
            let ghost before = out@;
            out.push(p.to_owned());
            assert(views(out@) =~= views(before).push(p@));
        }
        i = i + 1;
    }
    assert(all.take(all.len() as int) =~= all);
    out
}

/// Whether a path begins at the root.
pub fn begins_at_root(path: &str) -> (r: bool)
    ensures
        r == is_rooted(path@),
{
    if path.is_empty() {
        false
    } else {
        path.get_char(0) == '/'
    }
}

fn begin_alike(path: &Vec<String>, dir: &Vec<String>) -> (r: bool)
    ensures
        r == (dir@.len() <= path@.len() && views(path@).take(dir@.len() as int) == views(dir@)),
{
    if dir.len() > path.len() {
        return false;
    }
    let ghost front = views(path@).take(dir@.len() as int);
    let mut i: usize = 0;
    while i < dir.len()
        invariant
            i <= dir@.len() <= path@.len(),
            front == views(path@).take(dir@.len() as int),
            forall|k: int| 0 <= k < i ==> #[trigger] front[k] == views(dir@)[k],
        decreases dir@.len() - i,
    {
        if !same_text(path[i].as_str(), dir[i].as_str()) {
            assert(front[i as int] != views(dir@)[i as int]);
            return false;
        }
        i = i + 1;
    }
    assert(front =~= views(dir@));
    true
}

/// Whether two texts are the same path.
pub fn is_same_path(a: &str, b: &str) -> (r: bool)
    ensures
        r == same_path(a@, b@),
{
    let p = parts_of(a);
    let q = parts_of(b);
    proof {
        assert(views(p@).len() == p@.len());
        assert(views(q@).len() == q@.len());
        assert(views(p@).take(p@.len() as int) =~= views(p@));
    }
    begins_at_root(a) == begins_at_root(b) && p.len() == q.len() && begin_alike(&p, &q)
}

/// Whether a path begins with all the parts of another.
pub fn begins_with(path: &str, dir: &str) -> (r: bool)
    ensures
        r == path_starts(path@, dir@),
{
    let p = parts_of(path);
    let d = parts_of(dir);
    proof {
        assert(views(p@).len() == p@.len());
        assert(views(d@).len() == d@.len());
    }
    let rooted = begins_at_root(dir);
    (begins_at_root(path) == rooted || (!rooted && d.len() == 0)) && begin_alike(&p, &d)
}

/// The name of the directory that a path lies in.
pub fn name_of_parent(path: &str) -> (r: Option<String>)
    ensures
        match r {
            Some(name) => parent_name(path@) == Some(name@),
            None => parent_name(path@) is None,
        },
{
    proof {
        reveal_strlit(".");
        reveal_strlit("..");
        assert("."@ =~= seq!['.']);
        assert(".."@ =~= seq!['.', '.']);
    }
    let parts = parts_of(path);
    assert(views(parts@).len() == parts@.len());
    if parts.len() < 2 {
        return None;
    }
    let i: usize = parts.len() - 2;
    assert(views(parts@)[i as int] == parts@[i as int]@);
    let name = parts[i].as_str();
    if same_text(name, ".") || same_text(name, "..") {
        None
    } else {
        Some(name.to_owned())
    }
}

/// The plainest text of a path.
pub fn tidy_path(path: &str) -> (r: String)
    ensures
        r@ == plain_path(path@),
{
    let rest = join(&parts_of(path), "/");
    if begins_at_root(path) {
        concat2("/", rest.as_str())
    } else {
        rest
    }
}

// ---------------------------------------------------------------------------
// Laws
// ---------------------------------------------------------------------------

/// Whether a part holds something, and no slash.
spec fn sound_part(part: Seq<char>) -> bool {
    part.len() > 0 && forall|i: int| 0 <= i < part.len() ==> part[i] != '/'
}

spec fn sound_parts(parts: Seq<Seq<char>>) -> bool {
    forall|i: int| 0 <= i < parts.len() ==> sound_part(#[trigger] parts[i])
}

proof fn lemma_pieces(s: Seq<char>, from: int)
    requires
        0 <= from <= s.len(),
    ensures
        forall|i: int, k: int|
            0 <= i < split_from(s, '/', from).len() && 0 <= k < split_from(s, '/', from)[i].len()
                ==> #[trigger] split_from(s, '/', from)[i][k] != '/',
    decreases s.len() - from,
{
    crate::text::lemma_next_char(s, '/', from);
    let end = crate::text::next_char(s, '/', from);
    if end < s.len() {
        lemma_pieces(s, end + 1);
        let rest = split_from(s, '/', end + 1);
        let all = split_from(s, '/', from);
        assert forall|i: int, k: int| 0 <= i < all.len() && 0 <= k < all[i].len() implies
            #[trigger] all[i][k] != '/' by {
            if i > 0 {
                assert(all[i] == rest[i - 1]);
                assert(rest[i - 1][k] != '/');
            }
        }
    }
}

proof fn lemma_counted(pieces: Seq<Seq<char>>)
    requires
        forall|i: int, k: int|
            0 <= i < pieces.len() && 0 <= k < pieces[i].len() ==> #[trigger] pieces[i][k] != '/',
    ensures
        sound_parts(counted(pieces)),
    decreases pieces.len(),
{
    if pieces.len() > 0 {
        let front = pieces.drop_last();
        assert forall|i: int, k: int| 0 <= i < front.len() && 0 <= k < front[i].len() implies
            #[trigger] front[i][k] != '/' by {
            assert(pieces[i][k] != '/');
        }
        lemma_counted(front);
        let p = pieces.last();
        assert(forall|k: int| 0 <= k < p.len() ==> p[k] == pieces[pieces.len() - 1][k]);
    }
}

/// The parts of a path hold something, and no slash.
proof fn lemma_parts(path: Seq<char>)
    ensures
        sound_parts(path_parts(path)),
{
    lemma_pieces(path, 0);
    lemma_counted(split_at_char(path, '/'));
}

proof fn lemma_joined_start(parts: Seq<Seq<char>>)
    requires
        sound_parts(parts),
        parts.len() > 0,
    ensures
        joined(parts, "/"@).len() > 0,
        joined(parts, "/"@)[0] != '/',
    decreases parts.len(),
{
    reveal_strlit("/");
    assert(sound_part(parts[0]));
    if parts.len() > 1 {
        let front = parts.drop_last();
        assert forall|i: int| 0 <= i < front.len() implies sound_part(#[trigger] front[i]) by {
            assert(sound_part(parts[i]));
        }
        lemma_joined_start(front);
    }
}

/// Texts that end alike behind their last slashes: the ends are the same, and so are the fronts.
proof fn lemma_last_part(a: Seq<char>, x: Seq<char>, b: Seq<char>, y: Seq<char>)
    requires
        sound_part(x),
        sound_part(y),
        a.push('/') + x == b.push('/') + y,
    ensures
        a == b,
        x == y,
{
    let s = a.push('/') + x;
    let t = b.push('/') + y;
    assert(s == t);
    assert(s.len() == a.len() + 1 + x.len());
    assert(t.len() == b.len() + 1 + y.len());
    assert(s[a.len() as int] == '/');
    assert(t[b.len() as int] == '/');
    if x.len() < y.len() {
        let k = a.len() - (b.len() + 1);
        assert(t[b.len() + 1 + k] == y[k]);
    } else if y.len() < x.len() {
        let k = b.len() - (a.len() + 1);
        assert(s[a.len() + 1 + k] == x[k]);
    }
    assert(a.len() == b.len());
    assert forall|i: int| 0 <= i < x.len() implies x[i] == y[i] by {
        assert(s[a.len() + 1 + i] == x[i]);
        assert(t[b.len() + 1 + i] == y[i]);
    }
    assert(x =~= y);
    assert forall|i: int| 0 <= i < a.len() implies a[i] == b[i] by {
        assert(s[i] == a[i]);
        assert(t[i] == b[i]);
    }
    assert(a =~= b);
}

proof fn lemma_joined_same(a: Seq<Seq<char>>, b: Seq<Seq<char>>)
    requires
        sound_parts(a),
        sound_parts(b),
        joined(a, "/"@) == joined(b, "/"@),
    ensures
        a == b,
    decreases a.len(),
{
    reveal_strlit("/");
    assert("/"@ =~= seq!['/']);
    if a.len() == 0 {
        if b.len() > 0 {
            lemma_joined_start(b);
        }
        assert(a =~= b);
    } else if b.len() == 0 {
        lemma_joined_start(a);
    } else if a.len() == 1 && b.len() == 1 {
        assert(a =~= b);
    } else if a.len() == 1 || b.len() == 1 {
        let (one, more) = if a.len() == 1 {
            (a, b)
        } else {
            (b, a)
        };
        let front = joined(more.drop_last(), "/"@);
        let s = joined(more, "/"@);
        assert(s[front.len() as int] == '/');
        assert(sound_part(one[0]));
        assert(one[0][front.len() as int] != '/');
    } else {
        let (f, g) = (a.drop_last(), b.drop_last());
        assert forall|i: int| 0 <= i < f.len() implies sound_part(#[trigger] f[i]) by {
            assert(sound_part(a[i]));
        }
        assert forall|i: int| 0 <= i < g.len() implies sound_part(#[trigger] g[i]) by {
            assert(sound_part(b[i]));
        }
        assert(sound_part(a[a.len() - 1]) && sound_part(b[b.len() - 1]));
        assert(joined(a, "/"@) =~= joined(f, "/"@).push('/') + a.last());
        assert(joined(b, "/"@) =~= joined(g, "/"@).push('/') + b.last());
        lemma_last_part(joined(f, "/"@), a.last(), joined(g, "/"@), b.last());
        lemma_joined_same(f, g);
        assert(f.push(a.last()) =~= a);
        assert(g.push(b.last()) =~= b);
    }
}

/// Two texts are the same path if and only if their plainest texts are the same.
pub proof fn law_plain_path_tells(a: Seq<char>, b: Seq<char>)
    ensures
        plain_path(a) == plain_path(b) <==> same_path(a, b),
{
    reveal_strlit("/");
    assert("/"@ =~= seq!['/']);
    let (p, q) = (path_parts(a), path_parts(b));
    lemma_parts(a);
    lemma_parts(b);
    if p.len() > 0 {
        lemma_joined_start(p);
    }
    if q.len() > 0 {
        lemma_joined_start(q);
    }
    if plain_path(a) == plain_path(b) {
        assert(is_rooted(a) == (plain_path(a).len() > 0 && plain_path(a)[0] == '/'));
        assert(is_rooted(b) == (plain_path(b).len() > 0 && plain_path(b)[0] == '/'));
        if is_rooted(a) {
            assert(plain_path(a).skip(1) =~= joined(p, "/"@));
            assert(plain_path(b).skip(1) =~= joined(q, "/"@));
        }
        lemma_joined_same(p, q);
    }
}

} // verus!
