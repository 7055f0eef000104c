//! Character sequences: searching, trimming, splitting, joining and decimal text.
use vstd::prelude::*;
use vstd::utf8::{decode_utf8, valid_utf8};

verus! {

broadcast use vstd::string::group_string_axioms;

// ---------------------------------------------------------------------------
// Functions of the standard library that carry no contract elsewhere
// ---------------------------------------------------------------------------

/// `String::push` appends one character at the end.
pub assume_specification[ String::push ](s: &mut String, ch: char)
    ensures
        final(s)@ == old(s)@.push(ch),
;

/// Wraps `==` on `str`: two string slices are equal exactly when they hold the same characters.
#[verifier::external_body]
pub(crate) fn same_text(a: &str, b: &str) -> (r: bool)
    ensures
        r == (a@ == b@),
{
    a == b
}

// ---------------------------------------------------------------------------
// Conversions between strings and vectors of characters
// ---------------------------------------------------------------------------

/// The characters of a string, in order.
pub fn chars_of(s: &str) -> (r: Vec<char>)
    ensures
        r@ == s@,
{
    let mut out: Vec<char> = Vec::new();
    for c in it: s.chars()
        invariant
            it.seq() == s@,
            out@ == it.seq().take(it.index() as int),
    {
        out.push(c);
        assert(it.seq().take(it.index() as int).push(c) =~= it.seq().take(it.index() + 1));
    }
    assert(s@.take(s@.len() as int) =~= s@);
    out
}

/// The string made of `v[from..to]`.
pub fn string_of_range(v: &Vec<char>, from: usize, to: usize) -> (r: String)
    requires
        from <= to <= v@.len(),
    ensures
        r@ == v@.subrange(from as int, to as int),
{
    let mut out = String::new();
    let mut i: usize = from;
    while i < to
        invariant
            from <= i <= to <= v@.len(),
            out@ == v@.subrange(from as int, i as int),
        decreases to - i,
    {
        out.push(v[i]);
        proof {
            assert(v@.subrange(from as int, i as int).push(v@[i as int]) =~= v@.subrange(
                from as int,
                i + 1,
            ));
        }
        i = i + 1;
    }
    out
}

/// `a` followed by `b`.
pub fn concat2(a: &str, b: &str) -> (r: String)
    ensures
        r@ == a@ + b@,
{
    let mut out = a.to_owned();
    out.append(b);
    out
}

/// `a`, `b` and `c` one after the other.
pub fn concat3(a: &str, b: &str, c: &str) -> (r: String)
    ensures
        r@ == a@ + b@ + c@,
{
    let mut out = a.to_owned();
    out.append(b);
    out.append(c);
    out
}

// ---------------------------------------------------------------------------
// Searching
// ---------------------------------------------------------------------------

/// `needle` stands in `hay` at position `i`.
pub open spec fn occurs_at(hay: Seq<char>, needle: Seq<char>, i: int) -> bool {
    0 <= i && i + needle.len() <= hay.len() && hay.subrange(i, i + needle.len()) == needle
}

/// The first position at or after `from` where `needle` stands in `hay`.
pub open spec fn first_at(hay: Seq<char>, needle: Seq<char>, from: int) -> Option<int>
    decreases hay.len() - needle.len() - from + 1,
{
    if from < 0 || from + needle.len() > hay.len() {
        None
    } else if occurs_at(hay, needle, from) {
        Some(from)
    } else {
        first_at(hay, needle, from + 1)
    }
}

/// The last position at or before `from` where `needle` stands in `hay`.
pub open spec fn last_at(hay: Seq<char>, needle: Seq<char>, from: int) -> Option<int>
    decreases from + 1,
{
    if from < 0 {
        None
    } else if occurs_at(hay, needle, from) {
        Some(from)
    } else {
        last_at(hay, needle, from - 1)
    }
}

/// What `first_at` finds is the first occurrence, and it finds one if there is any.
pub proof fn lemma_first_at(hay: Seq<char>, needle: Seq<char>, from: int)
    requires
        0 <= from,
    ensures
        match first_at(hay, needle, from) {
            Some(i) => {
                &&& from <= i
                &&& occurs_at(hay, needle, i)
                &&& forall|j: int| from <= j < i ==> !#[trigger] occurs_at(hay, needle, j)
            },
            None => forall|j: int| from <= j ==> !#[trigger] occurs_at(hay, needle, j),
        },
    decreases hay.len() - needle.len() - from + 1,
{
    if from + needle.len() > hay.len() || occurs_at(hay, needle, from) {
    } else {
        lemma_first_at(hay, needle, from + 1);
    }
}

/// `s` begins with `p`.
pub open spec fn starts(s: Seq<char>, p: Seq<char>) -> bool {
    occurs_at(s, p, 0)
}

/// `s` ends with `p`.
pub open spec fn ends(s: Seq<char>, p: Seq<char>) -> bool {
    occurs_at(s, p, s.len() - p.len())
}

/// `needle` stands somewhere in `hay`.
pub open spec fn holds_text(hay: Seq<char>, needle: Seq<char>) -> bool {
    first_at(hay, needle, 0) is Some
}

/// Whether `needle` stands in `hay` at position `i`.
pub fn matches_at(hay: &Vec<char>, needle: &Vec<char>, i: usize) -> (r: bool)
    ensures
        r == occurs_at(hay@, needle@, i as int),
        r ==> i + needle.len() <= hay.len(),
{
    if needle.len() > hay.len() || i > hay.len() - needle.len() {
        return false;
    }
    let mut k: usize = 0;
    while k < needle.len()
        invariant
            k <= needle@.len(),
            i + needle@.len() <= hay.len(),
            forall|j: int| 0 <= j < k ==> hay@[i + j] == needle@[j],
        decreases needle@.len() - k,
    {
        if hay[i + k] != needle[k] {
            proof {
                assert(hay@.subrange(i as int, i + needle@.len())[k as int] == hay@[i + k]);
            }
            return false;
        }
        k = k + 1;
    }
    proof {
        assert(hay@.subrange(i as int, i + needle@.len()) =~= needle@);
    }
    true
}

/// The first position at or after `from` where `needle` stands in `hay`.
pub fn find_from(hay: &Vec<char>, needle: &Vec<char>, from: usize) -> (r: Option<usize>)
    ensures
        match r {
            Some(i) => first_at(hay@, needle@, from as int) == Some(i as int) && from <= i && i
                + needle@.len() <= hay.len(),
            None => first_at(hay@, needle@, from as int) is None,
        },
{
    if needle.len() > hay.len() {
        return None;
    }
    let last: usize = hay.len() - needle.len();
    let mut i: usize = from;
    while i <= last
        invariant
            needle@.len() <= hay@.len(),
            last == hay@.len() - needle@.len(),
            from <= i,
            i <= last + 1 || i == from,
            first_at(hay@, needle@, from as int) == first_at(hay@, needle@, i as int),
        decreases last + 1 - i,
    {
        if matches_at(hay, needle, i) {
            return Some(i);
        }
        if i == last {
            proof {
                reveal_with_fuel(first_at, 2);
            }
            return None;
        }
        i = i + 1;
    }
    None
}

/// The last position where `needle` stands in `hay`.
pub fn find_last(hay: &Vec<char>, needle: &Vec<char>) -> (r: Option<usize>)
    ensures
        match r {
            Some(i) => last_at(hay@, needle@, hay@.len() - needle@.len()) == Some(i as int) && i
                + needle@.len() <= hay.len(),
            None => last_at(hay@, needle@, hay@.len() - needle@.len()) is None,
        },
{
    if needle.len() > hay.len() {
        return None;
    }
    let mut i: usize = hay.len() - needle.len();
    loop
        invariant
            i + needle@.len() <= hay@.len(),
            last_at(hay@, needle@, hay@.len() - needle@.len()) == last_at(hay@, needle@, i as int),
        decreases i,
    {
        if matches_at(hay, needle, i) {
            return Some(i);
        }
        if i == 0 {
            proof {
                reveal_with_fuel(last_at, 2);
            }
            return None;
        }
        i = i - 1;
    }
}

/// Whether `s` begins with `p`.
pub fn starts_with(s: &str, p: &str) -> (r: bool)
    ensures
        r == starts(s@, p@),
{
    matches_at(&chars_of(s), &chars_of(p), 0)
}

/// Whether `s` ends with `p`.
pub fn ends_with(s: &str, p: &str) -> (r: bool)
    ensures
        r == ends(s@, p@),
{
    let hay = chars_of(s);
    let needle = chars_of(p);
    if needle.len() > hay.len() {
        return false;
    }
    matches_at(&hay, &needle, hay.len() - needle.len())
}

/// Whether `needle` stands somewhere in `hay`.
pub fn contains_text(hay: &str, needle: &str) -> (r: bool)
    ensures
        r == holds_text(hay@, needle@),
{
    find_from(&chars_of(hay), &chars_of(needle), 0).is_some()
}

/// What follows the prefix `p` of `s`.
pub open spec fn after_prefix(s: Seq<char>, p: Seq<char>) -> Option<Seq<char>> {
    if starts(s, p) {
        Some(s.skip(p.len() as int))
    } else {
        None
    }
}

/// What stands before the suffix `p` of `s`.
pub open spec fn before_suffix(s: Seq<char>, p: Seq<char>) -> Option<Seq<char>> {
    if ends(s, p) {
        Some(s.take(s.len() - p.len()))
    } else {
        None
    }
}

/// `s` without the prefix `p`, if it has that prefix.
pub fn strip_prefix(s: &str, p: &str) -> (r: Option<String>)
    ensures
        match r {
            Some(t) => after_prefix(s@, p@) == Some(t@),
            None => after_prefix(s@, p@) is None,
        },
{
    let hay = chars_of(s);
    let needle = chars_of(p);
    if matches_at(&hay, &needle, 0) {
        proof {
            assert(hay@.subrange(needle@.len() as int, hay@.len() as int) =~= hay@.skip(
                needle@.len() as int,
            ));
        }
        Some(string_of_range(&hay, needle.len(), hay.len()))
    } else {
        None
    }
}

/// `s` without the suffix `p`, if it has that suffix.
pub fn strip_suffix(s: &str, p: &str) -> (r: Option<String>)
    ensures
        match r {
            Some(t) => before_suffix(s@, p@) == Some(t@),
            None => before_suffix(s@, p@) is None,
        },
{
    let hay = chars_of(s);
    let needle = chars_of(p);
    if needle.len() > hay.len() {
        return None;
    }
    let cut: usize = hay.len() - needle.len();
    if matches_at(&hay, &needle, cut) {
        proof {
            assert(hay@.subrange(0, cut as int) =~= hay@.take(cut as int));
        }
        Some(string_of_range(&hay, 0, cut))
    } else {
        None
    }
}

// ---------------------------------------------------------------------------
// White space
// ---------------------------------------------------------------------------

/// The characters with Unicode's `White_Space` property.
pub open spec fn is_space(c: char) -> bool {
    let u = c as u32;
    ||| 0x09 <= u <= 0x0d
    ||| u == 0x20
    ||| u == 0x85
    ||| u == 0xa0
    ||| u == 0x1680
    ||| 0x2000 <= u <= 0x200a
    ||| u == 0x2028
    ||| u == 0x2029
    ||| u == 0x202f
    ||| u == 0x205f
    ||| u == 0x3000
}

/// Whether `c` is white space.
pub fn whitespace(c: char) -> (r: bool)
    ensures
        r == is_space(c),
{
    let u: u32 = c as u32;
    (0x09 <= u && u <= 0x0d) || u == 0x20 || u == 0x85 || u == 0xa0 || u == 0x1680 || (0x2000 <= u
        && u <= 0x200a) || u == 0x2028 || u == 0x2029 || u == 0x202f || u == 0x205f || u == 0x3000
}

/// `s` without the white space at its start.
pub open spec fn trimmed_start(s: Seq<char>) -> Seq<char>
    decreases s.len(),
{
    if s.len() > 0 && is_space(s[0]) {
        trimmed_start(s.skip(1))
    } else {
        s
    }
}

/// `s` without the white space at its end.
pub open spec fn trimmed_end(s: Seq<char>) -> Seq<char>
    decreases s.len(),
{
    if s.len() > 0 && is_space(s.last()) {
        trimmed_end(s.drop_last())
    } else {
        s
    }
}

/// `s` without the white space at both ends.
pub open spec fn trimmed(s: Seq<char>) -> Seq<char> {
    trimmed_end(trimmed_start(s))
}

/// Where the text in `v[from..to]` starts once leading white space is skipped.
pub fn skip_space(v: &Vec<char>, from: usize, to: usize) -> (r: usize)
    requires
        from <= to <= v@.len(),
    ensures
        from <= r <= to,
        v@.subrange(r as int, to as int) == trimmed_start(v@.subrange(from as int, to as int)),
{
    let mut i: usize = from;
    while i < to && whitespace(v[i])
        invariant
            from <= i <= to <= v@.len(),
            trimmed_start(v@.subrange(from as int, to as int)) == trimmed_start(
                v@.subrange(i as int, to as int),
            ),
        decreases to - i,
    {
        proof {
            assert(v@.subrange(i as int, to as int).skip(1) =~= v@.subrange(i + 1, to as int));
        }
        i = i + 1;
    }
    i
}

/// Where the text in `v[from..to]` ends once trailing white space is dropped.
pub fn drop_space(v: &Vec<char>, from: usize, to: usize) -> (r: usize)
    requires
        from <= to <= v@.len(),
    ensures
        from <= r <= to,
        v@.subrange(from as int, r as int) == trimmed_end(v@.subrange(from as int, to as int)),
{
    let mut i: usize = to;
    while i > from && whitespace(v[i - 1])
        invariant
            from <= i <= to <= v@.len(),
            trimmed_end(v@.subrange(from as int, to as int)) == trimmed_end(
                v@.subrange(from as int, i as int),
            ),
        decreases i,
    {
        proof {
            assert(v@.subrange(from as int, i as int).drop_last() =~= v@.subrange(
                from as int,
                i - 1,
            ));
        }
        i = i - 1;
    }
    i
}

/// `s` without the white space at both ends.
pub fn trim(s: &str) -> (r: String)
    ensures
        r@ == trimmed(s@),
{
    let v = chars_of(s);
    proof {
        assert(v@.subrange(0, v@.len() as int) =~= v@);
    }
    let a: usize = skip_space(&v, 0, v.len());
    let b: usize = drop_space(&v, a, v.len());
    string_of_range(&v, a, b)
}

/// `s` without the white space at its start.
pub fn trim_start(s: &str) -> (r: String)
    ensures
        r@ == trimmed_start(s@),
{
    let v = chars_of(s);
    proof {
        assert(v@.subrange(0, v@.len() as int) =~= v@);
    }
    let a: usize = skip_space(&v, 0, v.len());
    string_of_range(&v, a, v.len())
}

/// `s` without the white space at its end.
pub fn trim_end(s: &str) -> (r: String)
    ensures
        r@ == trimmed_end(s@),
{
    let v = chars_of(s);
    proof {
        assert(v@.subrange(0, v@.len() as int) =~= v@);
    }
    let b: usize = drop_space(&v, 0, v.len());
    string_of_range(&v, 0, b)
}

// ---------------------------------------------------------------------------
// Repeated characters and words at the ends
// ---------------------------------------------------------------------------

/// `s` without the characters `c` at its start.
pub open spec fn skip_char(s: Seq<char>, c: char) -> Seq<char>
    decreases s.len(),
{
    if s.len() > 0 && s[0] == c {
        skip_char(s.skip(1), c)
    } else {
        s
    }
}

/// `s` without the characters `c` at its end.
pub open spec fn drop_char(s: Seq<char>, c: char) -> Seq<char>
    decreases s.len(),
{
    if s.len() > 0 && s.last() == c {
        drop_char(s.drop_last(), c)
    } else {
        s
    }
}

/// `s` without the words `w` that it begins with.
pub open spec fn skip_words(s: Seq<char>, w: Seq<char>) -> Seq<char>
    decreases s.len(),
{
    if w.len() > 0 && starts(s, w) {
        skip_words(s.skip(w.len() as int), w)
    } else {
        s
    }
}

/// Where `v[from..to]` starts without the characters `c` at its start.
pub fn pass_char(v: &Vec<char>, from: usize, to: usize, c: char) -> (r: usize)
    requires
        from <= to <= v@.len(),
    ensures
        from <= r <= to,
        v@.subrange(r as int, to as int) == skip_char(v@.subrange(from as int, to as int), c),
{
    let mut i: usize = from;
    while i < to && v[i] == c
        invariant
            from <= i <= to <= v@.len(),
            skip_char(v@.subrange(from as int, to as int), c) == skip_char(
                v@.subrange(i as int, to as int),
                c,
            ),
        decreases to - i,
    {
        assert(v@.subrange(i as int, to as int).skip(1) =~= v@.subrange(i + 1, to as int));
        i = i + 1;
    }
    i
}

/// Where `v[from..to]` ends without the characters `c` at its end.
pub fn cut_char(v: &Vec<char>, from: usize, to: usize, c: char) -> (r: usize)
    requires
        from <= to <= v@.len(),
    ensures
        from <= r <= to,
        v@.subrange(from as int, r as int) == drop_char(v@.subrange(from as int, to as int), c),
{
    let mut i: usize = to;
    while i > from && v[i - 1] == c
        invariant
            from <= i <= to <= v@.len(),
            drop_char(v@.subrange(from as int, to as int), c) == drop_char(
                v@.subrange(from as int, i as int),
                c,
            ),
        decreases i,
    {
        assert(v@.subrange(from as int, i as int).drop_last() =~= v@.subrange(from as int, i - 1));
        i = i - 1;
    }
    i
}

/// Where `v[from..]` starts without the words `w` that it begins with.
pub fn pass_words(v: &Vec<char>, from: usize, w: &Vec<char>) -> (r: usize)
    requires
        from <= v@.len(),
        w@.len() > 0,
    ensures
        from <= r <= v@.len(),
        v@.skip(r as int) == skip_words(v@.skip(from as int), w@),
{
    let mut i: usize = from;
    loop
        invariant
            from <= i <= v@.len(),
            w@.len() > 0,
            skip_words(v@.skip(from as int), w@) == skip_words(v@.skip(i as int), w@),
        decreases v@.len() - i,
    {
        let ghost here = v@.skip(i as int);
        if !matches_at(v, w, i) {
            proof {
                if starts(here, w@) {
                    assert(v@.subrange(i as int, i + w@.len()) =~= here.subrange(
                        0,
                        w@.len() as int,
                    ));
                }
            }
            return i;
        }
        proof {
            assert(here.subrange(0, w@.len() as int) =~= v@.subrange(i as int, i + w@.len()));
            assert(here.skip(w@.len() as int) =~= v@.skip(i + w@.len()));
        }
        i = i + w.len();
    }
}

// ---------------------------------------------------------------------------
// Splitting and joining
// ---------------------------------------------------------------------------

/// The views of a sequence of strings.
pub open spec fn views(parts: Seq<String>) -> Seq<Seq<char>> {
    parts.map_values(|p: String| p@)
}

/// The first position at or after `from` that holds `c`, or the length of `s`.
pub open spec fn next_char(s: Seq<char>, c: char, from: int) -> int
    decreases s.len() - from,
{
    if from < 0 || from >= s.len() || s[from] == c {
        from
    } else {
        next_char(s, c, from + 1)
    }
}

/// The pieces of `s` from `from` on that lie between the separators `c`.
pub open spec fn split_from(s: Seq<char>, c: char, from: int) -> Seq<Seq<char>>
    decreases s.len() - from,
    when 0 <= from <= s.len()
    via split_from_decreases
{
    let end = next_char(s, c, from);
    if end >= s.len() {
        seq![s.subrange(from, s.len() as int)]
    } else {
        seq![s.subrange(from, end)] + split_from(s, c, end + 1)
    }
}

#[via_fn]
proof fn split_from_decreases(s: Seq<char>, c: char, from: int) {
    lemma_next_char(s, c, from);
}

/// What the search for a character finds.
pub proof fn lemma_next_char(s: Seq<char>, c: char, from: int)
    requires
        0 <= from <= s.len(),
    ensures
        from <= next_char(s, c, from) <= s.len(),
        next_char(s, c, from) < s.len() ==> s[next_char(s, c, from)] == c,
        forall|j: int| from <= j < next_char(s, c, from) ==> s[j] != c,
    decreases s.len() - from,
{
    if from < s.len() && s[from] != c {
        lemma_next_char(s, c, from + 1);
    }
}

/// The pieces of `s` between the separators `c`; one piece where there is no separator.
pub open spec fn split_at_char(s: Seq<char>, c: char) -> Seq<Seq<char>> {
    split_from(s, c, 0)
}

/// Where `c` next stands in `v` at or after `from`, or the length of `v`.
pub fn seek_char(v: &Vec<char>, c: char, from: usize) -> (r: usize)
    requires
        from <= v@.len(),
    ensures
        r == next_char(v@, c, from as int),
        from <= r <= v@.len(),
{
    let mut i: usize = from;
    while i < v.len() && v[i] != c
        invariant
            from <= i <= v@.len(),
            next_char(v@, c, from as int) == next_char(v@, c, i as int),
        decreases v@.len() - i,
    {
        i = i + 1;
    }
    i
}

/// The pieces of `s` between the separators `c`.
pub fn split_char(s: &str, c: char) -> (r: Vec<String>)
    ensures
        views(r@) == split_at_char(s@, c),
{
    let v = chars_of(s);
    let mut out: Vec<String> = Vec::new();
    let mut from: usize = 0;
    loop
        invariant
            from <= v@.len(),
            v@ == s@,
            split_at_char(v@, c) == views(out@) + split_from(v@, c, from as int),
        decreases v@.len() - from,
    {
        let end: usize = seek_char(&v, c, from);
        let ghost before = out@;
        out.push(string_of_range(&v, from, end));
        proof {
            assert(views(out@) =~= views(before).push(v@.subrange(from as int, end as int)));
        }
        if end >= v.len() {
            proof {
                assert(views(out@) =~= views(before) + split_from(v@, c, from as int));
            }
            return out;
        }
        proof {
            assert(views(before) + split_from(v@, c, from as int) =~= views(out@) + split_from(
                v@,
                c,
                end + 1,
            ));
        }
        from = end + 1;
    }
}

/// A line without the carriage return that may stand before its line feed.
pub open spec fn without_cr(s: Seq<char>) -> Seq<char> {
    if s.len() > 0 && s.last() == '\r' {
        s.drop_last()
    } else {
        s
    }
}

/// The lines of `s`: its pieces between line feeds, an empty last piece left out, each piece that
/// a line feed ends without a carriage return at its end.
pub open spec fn lines_of(s: Seq<char>) -> Seq<Seq<char>> {
    let pieces = split_at_char(s, '\n');
    let ended = pieces.drop_last().map_values(|p: Seq<char>| without_cr(p));
    if pieces.last().len() == 0 {
        ended
    } else {
        ended.push(pieces.last())
    }
}

proof fn lemma_split_nonempty(s: Seq<char>, c: char, from: int)
    requires
        0 <= from <= s.len(),
    ensures
        split_from(s, c, from).len() > 0,
{
}

/// The lines of `s`.
pub fn lines(s: &str) -> (r: Vec<String>)
    ensures
        views(r@) == lines_of(s@),
{
    let mut pieces = split_char(s, '\n');
    proof {
        lemma_split_nonempty(s@, '\n', 0);
    }
    let ghost all = pieces@;
    assert(views(all).len() == all.len());
    let last = pieces.pop().unwrap();
    assert(views(all).last() == last@);
    assert(views(pieces@) =~= views(all).drop_last());
    let mut out: Vec<String> = Vec::new();
    let mut i: usize = 0;
    while i < pieces.len()
        invariant
            i <= pieces@.len(),
            views(out@) == views(pieces@).take(i as int).map_values(|p: Seq<char>| without_cr(p)),
        decreases pieces@.len() - i,
    {
        let v = chars_of(pieces[i].as_str());
        let mut end: usize = v.len();
        if end > 0 && v[end - 1] == '\r' {
            end = end - 1;
            assert(v@.subrange(0, end as int) =~= v@.drop_last());
        } else {
            assert(v@.subrange(0, end as int) =~= v@);
        }
        let ghost before = out@;
        out.push(string_of_range(&v, 0, end));
        proof {
            assert(views(out@) =~= views(before).push(without_cr(views(pieces@)[i as int])));
            assert(views(pieces@).take(i + 1).map_values(|p: Seq<char>| without_cr(p)) =~= views(
                pieces@,
            ).take(i as int).map_values(|p: Seq<char>| without_cr(p)).push(
                without_cr(views(pieces@)[i as int]),
            ));
        }
        i = i + 1;
    }
    proof {
        assert(views(pieces@).take(pieces@.len() as int) =~= views(pieces@));
    }
    if !last.as_str().is_empty() {
        let ghost before = out@;
        let ghost piece = last@;
        out.push(last);
        proof {
            assert(views(out@) =~= views(before).push(piece));
        }
    }
    out
}

/// The pieces of `parts` with `sep` between neighbours.
pub open spec fn joined(parts: Seq<Seq<char>>, sep: Seq<char>) -> Seq<char>
    decreases parts.len(),
{
    if parts.len() == 0 {
        Seq::empty()
    } else if parts.len() == 1 {
        parts[0]
    } else {
        joined(parts.drop_last(), sep) + sep + parts.last()
    }
}

/// `parts` as one string, with `sep` between neighbours.
pub fn join(parts: &Vec<String>, sep: &str) -> (r: String)
    ensures
        r@ == joined(views(parts@), sep@),
{
    let mut out = String::new();
    let mut i: usize = 0;
    while i < parts.len()
        invariant
            i <= parts@.len(),
            out@ == joined(views(parts@).take(i as int), sep@),
        decreases parts@.len() - i,
    {
        if i > 0 {
            out.append(sep);
        }
        out.append(parts[i].as_str());
        proof {
            let w = views(parts@).take(i + 1);
            assert(w.drop_last() =~= views(parts@).take(i as int));
            assert(w.last() == parts@[i as int]@);
            if i == 0 {
                assert(Seq::<char>::empty() + w[0] =~= w[0]);
            }
        }
        i = i + 1;
    }
    proof {
        assert(views(parts@).take(parts@.len() as int) =~= views(parts@));
    }
    out
}

// ---------------------------------------------------------------------------
// Decimal text
// ---------------------------------------------------------------------------

/// The character of a decimal digit.
pub open spec fn digit_char(d: nat) -> char {
    ('0' as u32 + d) as char
}

/// The decimal digits of `n`, without leading zeros.
pub open spec fn decimal(n: nat) -> Seq<char>
    decreases n,
{
    if n < 10 {
        seq![digit_char(n)]
    } else {
        decimal(n / 10).push(digit_char(n % 10))
    }
}

/// The decimal text of an integer: its digits, after a minus sign where it is negative.
pub open spec fn signed_decimal(n: int) -> Seq<char> {
    if n < 0 {
        seq!['-'] + decimal((-n) as nat)
    } else {
        decimal(n as nat)
    }
}

fn digit(d: u64) -> (r: char)
    requires
        d < 10,
    ensures
        r == digit_char(d as nat),
{
    (48u8 + d as u8) as char
}

/// The decimal digits of `n`.
pub fn decimal_text(n: u64) -> (r: String)
    ensures
        r@ == decimal(n as nat),
    decreases n,
{
    if n < 10 {
        let mut out = String::new();
        out.push(digit(n));
        assert(out@ =~= decimal(n as nat));
        out
    } else {
        let mut out = decimal_text(n / 10);
        out.push(digit(n % 10));
        out
    }
}

/// The decimal text of `n`.
pub fn signed_decimal_text(n: i64) -> (r: String)
    ensures
        r@ == signed_decimal(n as int),
{
    if n < 0 {
        let magnitude: u64 = (-(n + 1)) as u64 + 1;
        let digits = decimal_text(magnitude);
        let mut out = String::new();
        out.push('-');
        out.append(digits.as_str());
        assert(out@ =~= signed_decimal(n as int));
        out
    } else {
        decimal_text(n as u64)
    }
}

// ---------------------------------------------------------------------------
// Letter case
// ---------------------------------------------------------------------------

/// The characters that `char::to_uppercase` gives.
pub uninterp spec fn char_upper(c: char) -> Seq<char>;

/// The text that `str::to_lowercase` gives.
pub uninterp spec fn text_lower(s: Seq<char>) -> Seq<char>;

/// Wraps `char::to_uppercase`, named by `char_upper`.
#[verifier::external_body]
fn upper_of(c: char) -> (r: String)
    ensures
        r@ == char_upper(c),
{
    c.to_uppercase().collect()
}

/// Wraps `str::to_lowercase`, named by `text_lower`.
#[verifier::external_body]
pub(crate) fn lower_of(s: &str) -> (r: String)
    ensures
        r@ == text_lower(s@),
{
    s.to_lowercase()
}

/// `s` with its first character in upper case.
pub open spec fn capitalized(s: Seq<char>) -> Seq<char> {
    if s.len() == 0 {
        s
    } else {
        char_upper(s[0]) + s.skip(1)
    }
}

/// `s` with its first character in upper case.
pub fn capitalize(s: &str) -> (r: String)
    ensures
        r@ == capitalized(s@),
{
    let v = chars_of(s);
    if v.len() == 0 {
        s.to_owned()
    } else {
        let first = upper_of(v[0]);
        let rest = string_of_range(&v, 1, v.len());
        assert(v@.subrange(1, v@.len() as int) =~= v@.skip(1));
        concat2(first.as_str(), rest.as_str())
    }
}

// ---------------------------------------------------------------------------
// Paths
// ---------------------------------------------------------------------------

/// Where the last part of a path begins: behind its last slash.
pub open spec fn part_start(path: Seq<char>) -> int
    decreases path.len(),
{
    if path.len() == 0 || path.last() == '/' {
        path.len() as int
    } else {
        part_start(path.drop_last())
    }
}

/// The last part of a path begins within it.
pub proof fn lemma_part_start(path: Seq<char>)
    ensures
        0 <= part_start(path) <= path.len(),
        path.len() > 0 && path.last() != '/' ==> part_start(path) < path.len(),
    decreases path.len(),
{
    if path.len() > 0 && path.last() != '/' {
        lemma_part_start(path.drop_last());
    }
}

/// The last part of a path, slashes and single dots at its end set aside. There is none where the
/// path is empty or goes up at its end.
pub open spec fn path_name(path: Seq<char>) -> Option<Seq<char>>
    decreases path.len(),
{
    if path.len() == 0 {
        None
    } else if path.last() == '/' {
        path_name(path.drop_last())
    } else {
        let part = path.skip(part_start(path));
        if part == seq!['.'] {
            if part_start(path) == 0 {
                None
            } else {
                proof {
                    lemma_part_start(path);
                }
                path_name(path.take(part_start(path) - 1))
            }
        } else if part == seq!['.', '.'] {
            None
        } else {
            Some(part)
        }
    }
}

fn find_part_start(path: &Vec<char>, to: usize) -> (r: usize)
    requires
        to <= path@.len(),
    ensures
        r <= to,
        r == part_start(path@.take(to as int)),
{
    let mut i: usize = to;
    while i > 0 && path[i - 1] != '/'
        invariant
            i <= to <= path@.len(),
            part_start(path@.take(to as int)) == part_start(path@.take(i as int)),
        decreases i,
    {
        assert(path@.take(i as int).drop_last() =~= path@.take(i - 1));
        i = i - 1;
    }
    i
}

fn find_path_name(path: &Vec<char>, to: usize) -> (r: Option<String>)
    requires
        to <= path@.len(),
    ensures
        match r {
            Some(p) => path_name(path@.take(to as int)) == Some(p@),
            None => path_name(path@.take(to as int)) is None,
        },
    decreases to,
{
    let ghost here = path@.take(to as int);
    proof {
        lemma_part_start(here);
    }
    if to == 0 {
        return None;
    }
    if path[to - 1] == '/' {
        assert(here.drop_last() =~= path@.take(to - 1));
        return find_path_name(path, to - 1);
    }
    let start = find_part_start(path, to);
    let ghost part = here.skip(start as int);
    assert(part =~= path@.subrange(start as int, to as int));
    if to - start == 1 && path[start] == '.' {
        assert(part =~= seq!['.']);
        if start == 0 {
            return None;
        }
        assert(here.take(start - 1) =~= path@.take(start - 1));
        return find_path_name(path, start - 1);
    }
    assert(part != seq!['.']) by {
        if part == seq!['.'] {
            assert(part.len() == 1 && part[0] == '.');
        }
    }
    if to - start == 2 && path[start] == '.' && path[start + 1] == '.' {
        assert(part =~= seq!['.', '.']);
        return None;
    }
    assert(part != seq!['.', '.']) by {
        if part == seq!['.', '.'] {
            assert(part.len() == 2 && part[0] == '.' && part[1] == '.');
        }
    }
    Some(string_of_range(path, start, to))
}

/// The last part of a path.
pub fn name_in_path(path: &str) -> (r: Option<String>)
    ensures
        match r {
            Some(name) => path_name(path@) == Some(name@),
            None => path_name(path@) is None,
        },
{
    let v = chars_of(path);
    assert(v@.take(v@.len() as int) =~= v@);
    find_path_name(&v, v.len())
}

/// A relative path below a directory.
pub open spec fn below(dir: Seq<char>, rest: Seq<char>) -> Seq<char> {
    if dir.len() == 0 {
        rest
    } else if dir.last() == '/' {
        dir + rest
    } else {
        dir + "/"@ + rest
    }
}

/// A relative path below a directory.
pub fn path_below(dir: &str, rest: &str) -> (r: String)
    ensures
        r@ == below(dir@, rest@),
{
    let v = chars_of(dir);
    if v.len() == 0 {
        rest.to_owned()
    } else if v[v.len() - 1] == '/' {
        concat2(dir, rest)
    } else {
        concat3(dir, "/", rest)
    }
}

// ---------------------------------------------------------------------------
// Filling and replacing
// ---------------------------------------------------------------------------

/// A number of copies of a character.
pub open spec fn copies(c: char, n: nat) -> Seq<char> {
    Seq::new(n, |i: int| c)
}

/// A text with spaces behind it, up to a width.
pub open spec fn padded(s: Seq<char>, width: nat) -> Seq<char> {
    if s.len() >= width {
        s
    } else {
        s + copies(' ', (width - s.len()) as nat)
    }
}

/// A text with spaces behind it, up to a width.
pub fn pad(s: &str, width: usize) -> (r: String)
    ensures
        r@ == padded(s@, width as nat),
{
    let n = chars_of(s).len();
    let mut r = s.to_owned();
    let mut i: usize = n;
    assert(r@ =~= s@ + copies(' ', 0));
    while i < width
        invariant
            n == s@.len(),
            n <= i,
            i <= width || i == n,
            r@ == s@ + copies(' ', (i - n) as nat),
        decreases width - i,
    {
        r.push(' ');
        i = i + 1;
        assert(r@ =~= s@ + copies(' ', (i - n) as nat));
    }
    assert(n >= width ==> r@ =~= s@);
    r
}

/// A text with a character in place of another.
pub open spec fn replaced(s: Seq<char>, from: char, to: char) -> Seq<char> {
    s.map_values(|c: char| if c == from {
        to
    } else {
        c
    })
}

/// A text with a character in place of another.
pub fn replace_char(s: &str, from: char, to: char) -> (r: String)
    ensures
        r@ == replaced(s@, from, to),
{
    let v = chars_of(s);
    let mut r = String::new();
    let mut i: usize = 0;
    while i < v.len()
        invariant
            i <= v@.len(),
            v@ == s@,
            r@ == replaced(s@, from, to).take(i as int),
        decreases v@.len() - i,
    {
        let c: char = v[i];
        r.push(if c == from {
            to
        } else {
            c
        });
        i = i + 1;
        assert(r@ =~= replaced(s@, from, to).take(i as int));
    }
    assert(r@ =~= replaced(s@, from, to));
    r
}

// ---------------------------------------------------------------------------
// Bytes
// ---------------------------------------------------------------------------

/// Wraps `std::str::from_utf8`: the text that bytes encode in UTF-8, or `None` where they do not.
#[verifier::external_body]
pub(crate) fn text_of_bytes(bytes: &[u8]) -> (r: Option<String>)
    ensures
        match r {
            Some(s) => valid_utf8(bytes@) && s@ == decode_utf8(bytes@),
            None => !valid_utf8(bytes@),
        },
{
    std::str::from_utf8(bytes).ok().map(|s| s.to_owned())
}

/// The text that `String::from_utf8_lossy` gives.
pub uninterp spec fn lossy_text(bytes: Seq<u8>) -> Seq<char>;

/// Wraps `String::from_utf8_lossy`, named by `lossy_text`: the text that bytes encode in UTF-8,
/// with a mark in place of what is no such encoding.
#[verifier::external_body]
pub(crate) fn text_of_lossy_bytes(bytes: &[u8]) -> (r: String)
    ensures
        r@ == lossy_text(bytes@),
        valid_utf8(bytes@) ==> r@ == decode_utf8(bytes@),
{
    String::from_utf8_lossy(bytes).into_owned()
}

} // verus!
