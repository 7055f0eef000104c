//! What holds of texts and of paths.
use crate::claude::provider::{encoded, holds_session, project_dir, session_id_of};
use crate::paths::{counted, is_rooted, parent_name, path_parts, path_starts, same_path};
use crate::providers::ProviderNames;
use crate::text::{
    after_prefix, before_suffix, below, capitalized, char_upper, copies, decimal, drop_char, ends,
    first_at, holds_text, is_space, joined, last_at, lemma_first_at, lemma_next_char,
    lemma_part_start, lines_of, next_char, occurs_at, padded, part_start, path_name, replaced,
    signed_decimal, skip_char, skip_words, split_at_char, split_from, starts, trimmed, trimmed_end,
    trimmed_start, without_cr,
};
use vstd::prelude::*;

verus! {

/// A text begins with another exactly where it is that text with something behind it; what is
/// behind it is what follows the prefix.
pub proof fn law_prefixes(p: Seq<char>, rest: Seq<char>, s: Seq<char>)
    ensures
        starts(p + rest, p),
        after_prefix(p + rest, p) == Some(rest),
        starts(s, p) ==> after_prefix(s, p) is Some && s == p + after_prefix(s, p)->0,
        !starts(s, p) ==> after_prefix(s, p) is None,
{
    assert((p + rest).subrange(0, p.len() as int) =~= p);
    assert((p + rest).skip(p.len() as int) =~= rest);
    if starts(s, p) {
        assert(s =~= p + s.skip(p.len() as int));
    }
}

/// A text ends with another exactly where it is that text with something before it; what is before
/// it is what stands before the suffix.
pub proof fn law_suffixes(front: Seq<char>, p: Seq<char>, s: Seq<char>)
    ensures
        ends(front + p, p),
        before_suffix(front + p, p) == Some(front),
        ends(s, p) ==> before_suffix(s, p) is Some && s == before_suffix(s, p)->0 + p,
        !ends(s, p) ==> before_suffix(s, p) is None,
{
    let all = front + p;
    assert(all.subrange(all.len() - p.len(), all.len() as int) =~= p);
    assert(all.take(all.len() - p.len()) =~= front);
    if ends(s, p) {
        assert(s.subrange(s.len() - p.len(), s.len() as int) == p);
        assert(s =~= s.take(s.len() - p.len()) + p);
    }
}

/// A text stands in another where that one is the text with something around it.
pub proof fn law_holds_inner(a: Seq<char>, needle: Seq<char>, b: Seq<char>)
    ensures
        holds_text(a + needle + b, needle),
{
    let all = a + needle + b;
    assert(all.subrange(a.len() as int, a.len() as int + needle.len()) =~= needle);
    assert(occurs_at(all, needle, a.len() as int));
    lemma_first_at(all, needle, 0);
}

/// A text that stands in another has all the rest of it around it.
pub proof fn law_inner_is_held(hay: Seq<char>, needle: Seq<char>) -> (around: (
    Seq<char>,
    Seq<char>,
))
    requires
        holds_text(hay, needle),
    ensures
        hay == around.0 + needle + around.1,
{
    lemma_first_at(hay, needle, 0);
    let i = first_at(hay, needle, 0)->0;
    let x = hay.take(i);
    let y = hay.skip(i + needle.len());
    assert(hay =~= x + needle + y);
    (x, y)
}

/// A text that stands nowhere in what is before it is found right there.
pub proof fn law_first_place(a: Seq<char>, needle: Seq<char>, b: Seq<char>)
    requires
        forall|j: int| 0 <= j < a.len() ==> !#[trigger] occurs_at(a + needle + b, needle, j),
    ensures
        first_at(a + needle + b, needle, 0) == Some(a.len() as int),
{
    let all = a + needle + b;
    assert(all.subrange(a.len() as int, a.len() as int + needle.len()) =~= needle);
    assert(occurs_at(all, needle, a.len() as int));
    lemma_first_at(all, needle, 0);
}

/// What is found from the end is the last place where the text stands.
pub proof fn law_last_place(hay: Seq<char>, needle: Seq<char>, from: int)
    ensures
        match last_at(hay, needle, from) {
            Some(i) => {
                &&& 0 <= i <= from
                &&& occurs_at(hay, needle, i)
                &&& forall|j: int| i < j <= from ==> !#[trigger] occurs_at(hay, needle, j)
            },
            None => forall|j: int| 0 <= j <= from ==> !#[trigger] occurs_at(hay, needle, j),
        },
    decreases from + 1,
{
    if from >= 0 && !occurs_at(hay, needle, from) {
        law_last_place(hay, needle, from - 1);
    }
}

/// Whether a text is white space alone.
pub open spec fn all_space(s: Seq<char>) -> bool {
    forall|i: int| 0 <= i < s.len() ==> is_space(#[trigger] s[i])
}

/// The blank, the tab and the ends of lines are white space; letters, digits and signs of ASCII are
/// not.
pub proof fn law_white_space(c: char)
    ensures
        is_space(' ') && is_space('\t') && is_space('\n') && is_space('\r'),
        '!' <= c <= '~' ==> !is_space(c),
{
}

/// Trimming the start takes white space away and leaves none there.
pub proof fn law_trimmed_start(s: Seq<char>)
    ensures
        trimmed_start(s).len() <= s.len(),
        s == s.take(s.len() - trimmed_start(s).len()) + trimmed_start(s),
        all_space(s.take(s.len() - trimmed_start(s).len())),
        trimmed_start(s).len() > 0 ==> !is_space(trimmed_start(s)[0]),
    decreases s.len(),
{
    if s.len() > 0 && is_space(s[0]) {
        let rest = s.skip(1);
        law_trimmed_start(rest);
        let n = rest.len() - trimmed_start(rest).len();
        assert(s.take(n + 1) =~= seq![s[0]] + rest.take(n));
        assert(s =~= s.take(n + 1) + trimmed_start(s)) by {
            assert(s =~= seq![s[0]] + rest);
        }
        assert forall|i: int| 0 <= i < n + 1 implies is_space(#[trigger] s.take(n + 1)[i]) by {
            if i > 0 {
                assert(is_space(rest.take(n)[i - 1]));
            }
        }
    } else {
        assert(s =~= s.take(0) + s);
    }
}

/// Trimming the end takes white space away and leaves none there.
pub proof fn law_trimmed_end(s: Seq<char>)
    ensures
        trimmed_end(s).len() <= s.len(),
        s == trimmed_end(s) + s.skip(trimmed_end(s).len() as int),
        all_space(s.skip(trimmed_end(s).len() as int)),
        trimmed_end(s).len() > 0 ==> !is_space(trimmed_end(s).last()),
    decreases s.len(),
{
    if s.len() > 0 && is_space(s.last()) {
        let rest = s.drop_last();
        law_trimmed_end(rest);
        let n = trimmed_end(rest).len() as int;
        assert(s.skip(n) =~= rest.skip(n).push(s.last()));
        assert(s =~= trimmed_end(s) + s.skip(n)) by {
            assert(s =~= rest.push(s.last()));
        }
        assert forall|i: int| 0 <= i < s.skip(n).len() implies is_space(#[trigger] s.skip(n)[i]) by {
            if i < rest.skip(n).len() {
                assert(is_space(rest.skip(n)[i]));
            }
        }
    } else {
        assert(s =~= s + s.skip(s.len() as int));
    }
}

/// Trimming takes the white space at both ends away, and nothing else.
pub proof fn law_trimmed(s: Seq<char>)
    ensures
        exists|a: Seq<char>, b: Seq<char>|
            all_space(a) && all_space(b) && s == #[trigger] (a + trimmed(s) + b),
        trimmed(s).len() > 0 ==> !is_space(trimmed(s)[0]) && !is_space(trimmed(s).last()),
{
    law_trimmed_start(s);
    let t = trimmed_start(s);
    law_trimmed_end(t);
    let a = s.take(s.len() - t.len());
    let b = t.skip(trimmed(s).len() as int);
    assert(s =~= a + trimmed(s) + b);
    if trimmed(s).len() > 0 {
        assert(t[0] == trimmed(s)[0]);
    }
}

/// A text without white space at its ends stays as it is.
pub proof fn law_trimmed_stays(s: Seq<char>)
    requires
        s.len() > 0,
        !is_space(s[0]),
        !is_space(s.last()),
    ensures
        trimmed(s) == s,
{
}

/// The characters taken from the start are all the one character, and the rest does not begin with
/// it; at the end it is the same.
pub proof fn law_dropped_characters(s: Seq<char>, c: char)
    ensures
        skip_char(seq![c] + s, c) == skip_char(s, c),
        s.len() == 0 || s[0] != c ==> skip_char(s, c) == s,
        drop_char(s.push(c), c) == drop_char(s, c),
        s.len() == 0 || s.last() != c ==> drop_char(s, c) == s,
{
    assert((seq![c] + s).skip(1) =~= s);
    assert(s.push(c).drop_last() =~= s);
}

/// The words taken from the start are all the same, and the rest does not begin with them.
pub proof fn law_dropped_words(s: Seq<char>, w: Seq<char>)
    requires
        w.len() > 0,
    ensures
        skip_words(w + s, w) == skip_words(s, w),
        !starts(s, w) ==> skip_words(s, w) == s,
{
    law_prefixes(w, s, s);
    assert((w + s).skip(w.len() as int) =~= s);
}

proof fn lemma_split_from(s: Seq<char>, c: char, from: int)
    requires
        0 <= from <= s.len(),
    ensures
        split_from(s, c, from).len() > 0,
        joined_from_front(split_from(s, c, from), seq![c]) == s.skip(from),
        forall|i: int|
            0 <= i < split_from(s, c, from).len() ==> !(#[trigger] split_from(
                s,
                c,
                from,
            )[i]).contains(c),
    decreases s.len() - from,
{
    lemma_next_char(s, c, from);
    let end = next_char(s, c, from);
    let parts = split_from(s, c, from);
    if end >= s.len() {
        assert(s.subrange(from, s.len() as int) =~= s.skip(from));
    } else {
        lemma_split_from(s, c, end + 1);
        let rest = split_from(s, c, end + 1);
        assert(parts.skip(1) =~= rest);
        assert(s.skip(from) =~= s.subrange(from, end) + seq![c] + s.skip(end + 1));
        assert forall|i: int| 0 <= i < parts.len() implies !(#[trigger] parts[i]).contains(c) by {
            if i > 0 {
                assert(parts[i] == rest[i - 1]);
            }
        }
    }
}

spec fn joined_from_front(parts: Seq<Seq<char>>, sep: Seq<char>) -> Seq<char>
    decreases parts.len(),
{
    if parts.len() == 0 {
        Seq::empty()
    } else if parts.len() == 1 {
        parts[0]
    } else {
        parts[0] + sep + joined_from_front(parts.skip(1), sep)
    }
}

proof fn lemma_joined_either_way(parts: Seq<Seq<char>>, sep: Seq<char>)
    ensures
        joined_from_front(parts, sep) == joined(parts, sep),
    decreases parts.len(),
{
    if parts.len() > 2 {
        let front = parts.drop_last();
        let rest = parts.skip(1);
        lemma_joined_either_way(front, sep);
        lemma_joined_either_way(rest, sep);
        lemma_joined_either_way(rest.drop_last(), sep);
        assert(rest.drop_last() =~= front.skip(1));
        assert(joined(parts, sep) =~= parts[0] + sep + joined(rest, sep));
    } else if parts.len() == 2 {
        assert(parts.skip(1) =~= seq![parts[1]]);
        assert(parts.drop_last() =~= seq![parts[0]]);
        assert(joined(parts.drop_last(), sep) == parts[0]);
        assert(joined_from_front(parts.skip(1), sep) == parts[1]);
    }
}

/// The pieces between separators, joined by the separator, are the text again, and none of them
/// holds the separator.
pub proof fn law_split_and_joined(s: Seq<char>, c: char)
    ensures
        split_at_char(s, c).len() > 0,
        joined(split_at_char(s, c), seq![c]) == s,
        forall|i: int|
            0 <= i < split_at_char(s, c).len() ==> !(#[trigger] split_at_char(s, c)[i]).contains(c),
{
    lemma_split_from(s, c, 0);
    lemma_joined_either_way(split_at_char(s, c), seq![c]);
    assert(s.skip(0) =~= s);
}

/// Nothing joined is empty, one part joined is that part, and one part more comes behind the
/// separator.
pub proof fn law_joined(parts: Seq<Seq<char>>, part: Seq<char>, sep: Seq<char>)
    ensures
        joined(Seq::empty(), sep).len() == 0,
        joined(seq![part], sep) == part,
        parts.len() > 0 ==> joined(parts.push(part), sep) == joined(parts, sep) + sep + part,
{
    assert(parts.push(part).drop_last() =~= parts);
}

/// The lines of a text are its pieces between line feeds: the last one counts only where it holds
/// something, and the others are taken without a carriage return at their end.
pub proof fn law_lines(s: Seq<char>)
    ensures
        ({
            let pieces = split_at_char(s, '\n');
            let lines = lines_of(s);
            &&& pieces.last().len() == 0 ==> lines.len() == pieces.len() - 1
            &&& pieces.last().len() > 0 ==> lines.len() == pieces.len() && lines.last()
                == pieces.last()
            &&& forall|i: int|
                0 <= i < pieces.len() - 1 ==> (#[trigger] pieces[i]).len() > 0 && pieces[i].last()
                    == '\r' ==> lines[i] == pieces[i].drop_last()
            &&& forall|i: int|
                0 <= i < pieces.len() - 1 ==> (#[trigger] pieces[i]).len() == 0 || pieces[i].last()
                    != '\r' ==> lines[i] == pieces[i]
        }),
{
    law_split_and_joined(s, '\n');
}

/// A number's last digit is what is left of it by ten, behind the digits of the tens.
pub proof fn law_decimal_digits(n: nat, d: nat)
    requires
        d < 10,
    ensures
        decimal(d) == seq![('0' as u32 + d) as char],
        n > 0 ==> decimal(n * 10 + d) == decimal(n).push(('0' as u32 + d) as char),
        n > 0 ==> signed_decimal(-n) == seq!['-'] + decimal(n),
        signed_decimal(n as int) == decimal(n),
{
    assert((n * 10 + d) / 10 == n && (n * 10 + d) % 10 == d);
}

/// Capitalizing changes the first character alone.
pub proof fn law_capitalized(c: char, rest: Seq<char>)
    ensures
        capitalized(seq![c] + rest) == char_upper(c) + rest,
        capitalized(Seq::empty()).len() == 0,
{
    assert((seq![c] + rest).skip(1) =~= rest);
}

/// A text is padded with blanks at its end, up to the width and not beyond.
pub proof fn law_padded(s: Seq<char>, width: nat)
    ensures
        padded(s, width).len() == if s.len() < width {
            width
        } else {
            s.len()
        },
        padded(s, width).take(s.len() as int) == s,
        forall|i: int| s.len() <= i < padded(s, width).len() ==> padded(s, width)[i] == ' ',
{
    assert(padded(s, width).take(s.len() as int) =~= s);
}

/// Copies of a character are that many of it.
pub proof fn law_copies(c: char, n: nat)
    ensures
        copies(c, n).len() == n,
        forall|i: int| 0 <= i < n ==> copies(c, n)[i] == c,
{
}

/// Replacing a character changes it wherever it stands, and no other.
pub proof fn law_replaced(s: Seq<char>, from: char, to: char)
    ensures
        replaced(s, from, to).len() == s.len(),
        forall|i: int|
            0 <= i < s.len() ==> (s[i] == from ==> #[trigger] replaced(s, from, to)[i] == to) && (
            s[i] != from ==> replaced(s, from, to)[i] == s[i]),
{
}

/// A path below a directory has one slash between them, unless the directory ends with one or is
/// empty.
pub proof fn law_below(dir: Seq<char>, rest: Seq<char>)
    ensures
        dir.len() == 0 ==> below(dir, rest) == rest,
        dir.len() > 0 && dir.last() == '/' ==> below(dir, rest) == dir + rest,
        dir.len() > 0 && dir.last() != '/' ==> below(dir, rest) == dir + seq!['/'] + rest,
{
    reveal_strlit("/");
    assert("/"@ =~= seq!['/']);
}

proof fn lemma_part_start_of(dir: Seq<char>, name: Seq<char>)
    requires
        !name.contains('/'),
        dir.len() == 0 || dir.last() == '/',
    ensures
        part_start(dir + name) == dir.len(),
    decreases name.len(),
{
    let path = dir + name;
    if name.len() == 0 {
        assert(path =~= dir);
    } else {
        assert(path.last() == name.last());
        assert(name.contains(name.last()));
        assert(path.drop_last() =~= dir + name.drop_last());
        assert(!name.drop_last().contains('/')) by {
            if name.drop_last().contains('/') {
                let i = choose|i: int| 0 <= i < name.drop_last().len() && name.drop_last()[i] == '/';
                assert(name[i] == '/');
            }
        }
        lemma_part_start_of(dir, name.drop_last());
    }
}

/// The name in a path is what stands behind its last slash, unless that is nothing or one dot or
/// two; slashes behind it do not count.
pub proof fn law_path_name(dir: Seq<char>, name: Seq<char>)
    requires
        dir.len() == 0 || dir.last() == '/',
        name.len() > 0,
        !name.contains('/'),
    ensures
        name != seq!['.'] && name != seq!['.', '.'] ==> path_name(dir + name) == Some(name),
        name == seq!['.', '.'] ==> path_name(dir + name) is None,
        path_name((dir + name).push('/')) == path_name(dir + name),
        path_name(Seq::empty()) is None,
{
    let path = dir + name;
    lemma_part_start_of(dir, name);
    assert(path.last() == name.last());
    assert(name.contains(name.last()));
    assert(path.skip(dir.len() as int) =~= name);
    assert(path.push('/').drop_last() =~= path);
    reveal_with_fuel(path_name, 2);
}

/// A carriage return at the end of a line is taken away, one of them, and nothing else.
pub proof fn law_carriage_return(line: Seq<char>)
    ensures
        without_cr(line.push('\r')) == line,
        line.len() == 0 || line.last() != '\r' ==> without_cr(line) == line,
{
    assert(line.push('\r').drop_last() =~= line);
}

proof fn lemma_split_skip(s: Seq<char>, c: char, from: int)
    requires
        0 <= from <= s.len(),
    ensures
        split_from(s, c, from) == split_from(s.skip(from), c, 0),
    decreases s.len() - from,
{
    let rest = s.skip(from);
    lemma_next_char(s, c, from);
    lemma_next_char(rest, c, 0);
    let e = next_char(s, c, from);
    let f = next_char(rest, c, 0);
    assert(f == e - from) by {
        if f < e - from {
            assert(rest[f] == s[from + f]);
        }
        if e - from < f {
            assert(rest[e - from] == s[e]);
        }
    }
    if e >= s.len() {
        assert(s.subrange(from, s.len() as int) =~= rest.subrange(0, rest.len() as int));
    } else {
        assert(s.subrange(from, e) =~= rest.subrange(0, f));
        lemma_split_skip(s, c, e + 1);
        if from > 0 {
            lemma_split_skip(rest, c, f + 1);
            assert(rest.skip(f + 1) =~= s.skip(e + 1));
        } else {
            assert(rest =~= s);
        }
    }
}

/// The pieces of two texts with a separator between them are the pieces of the one and then those
/// of the other; a text without the separator is one piece.
pub proof fn law_split_of_both(a: Seq<char>, c: char, b: Seq<char>)
    ensures
        split_at_char(a + seq![c] + b, c) == split_at_char(a, c) + split_at_char(b, c),
        !a.contains(c) ==> split_at_char(a, c) == seq![a],
    decreases a.len(),
{
    let all = a + seq![c] + b;
    lemma_next_char(a, c, 0);
    lemma_next_char(all, c, 0);
    let e = next_char(a, c, 0);
    let f = next_char(all, c, 0);
    assert(all[a.len() as int] == c);
    assert(f == e) by {
        if f < e {
            assert(all[f] == a[f]);
        }
        if e < f {
            if e < a.len() {
                assert(all[e] == a[e]);
            }
        }
    }
    lemma_split_skip(all, c, e + 1);
    if e >= a.len() {
        assert(all.subrange(0, e) =~= a);
        assert(a.subrange(0, a.len() as int) =~= a);
        assert(all.skip(e + 1) =~= b);
    } else {
        assert(a.contains(a[e]));
        let rest = a.skip(e + 1);
        law_split_of_both(rest, c, b);
        lemma_split_skip(a, c, e + 1);
        assert(all.skip(e + 1) =~= rest + seq![c] + b);
        assert(all.subrange(0, e) =~= a.subrange(0, e));
        assert(split_at_char(all, c) =~= split_at_char(a, c) + split_at_char(b, c));
    }
}

proof fn lemma_counted_push(pieces: Seq<Seq<char>>, piece: Seq<char>)
    requires
        pieces.len() > 0,
    ensures
        piece.len() == 0 || piece == seq!['.'] ==> counted(pieces.push(piece)) == counted(pieces),
        piece.len() > 0 && piece != seq!['.'] ==> counted(pieces.push(piece)) == counted(
            pieces,
        ).push(piece),
{
    assert(pieces.push(piece).drop_last() =~= pieces);
}

/// A name below a directory is one part more; a single dot and nothing at all are none. A name by
/// itself is the only part.
pub proof fn law_parts_of_a_path(dir: Seq<char>, name: Seq<char>)
    requires
        !name.contains('/'),
    ensures
        name.len() > 0 && name != seq!['.'] ==> path_parts(dir + seq!['/'] + name) == path_parts(
            dir,
        ).push(name),
        name.len() == 0 || name == seq!['.'] ==> path_parts(dir + seq!['/'] + name) == path_parts(
            dir,
        ),
        name.len() > 0 ==> path_parts(name) == seq![name],
        name.len() == 0 ==> path_parts(name).len() == 0,
{
    law_split_of_both(dir, '/', name);
    law_split_of_both(name, '/', Seq::empty());
    law_split_and_joined(dir, '/');
    let pieces = split_at_char(dir, '/');
    assert(pieces + seq![name] =~= pieces.push(name));
    lemma_counted_push(pieces, name);
    reveal_with_fuel(counted, 2);
    assert(seq![name].drop_last() =~= Seq::<Seq<char>>::empty());
    assert(seq![name].last() == name);
    assert(Seq::<Seq<char>>::empty().push(name) =~= seq![name]);
}

/// The name of the directory that a file lies in is the part before the file's name, unless that
/// goes up.
pub proof fn law_name_of_the_parent(dir: Seq<char>, name: Seq<char>, file: Seq<char>)
    requires
        !name.contains('/') && name.len() > 0 && name != seq!['.'] && name != seq!['.', '.'],
        !file.contains('/') && file.len() > 0 && file != seq!['.'],
    ensures
        parent_name(dir + seq!['/'] + name + seq!['/'] + file) == Some(name),
        parent_name(file) is None,
{
    law_parts_of_a_path(dir, name);
    law_parts_of_a_path(dir + seq!['/'] + name, file);
    law_parts_of_a_path(file, file);
    let p = path_parts(dir).push(name).push(file);
    assert(p[p.len() - 2] == name);
}

/// A path is the same as itself, with a slash at its end or a single dot behind one too; a path and
/// one that lies below it differ.
pub proof fn law_same_paths(dir: Seq<char>, name: Seq<char>)
    requires
        dir.len() > 0,
        !name.contains('/') && name.len() > 0 && name != seq!['.'],
    ensures
        same_path(dir, dir),
        same_path(dir, dir + seq!['/']),
        same_path(dir, dir + seq!['/'] + seq!['.']),
        !same_path(dir, dir + seq!['/'] + name),
{
    law_parts_of_a_path(dir, Seq::empty());
    assert(dir + seq!['/'] + Seq::<char>::empty() =~= dir + seq!['/']);
    assert(seq!['.'].len() == 1 && seq!['.'][0] == '.');
    assert(!seq!['.'].contains('/'));
    law_parts_of_a_path(dir, seq!['.']);
    law_parts_of_a_path(dir, name);
    assert((dir + seq!['/'])[0] == dir[0]);
    assert((dir + seq!['/'] + seq!['.'])[0] == dir[0]);
    assert((dir + seq!['/'] + name)[0] == dir[0]);
    assert(path_parts(dir).push(name).len() != path_parts(dir).len());
}

/// A path begins with itself and with each directory above it, and not with one of another name.
pub proof fn law_paths_begin(dir: Seq<char>, name: Seq<char>, other: Seq<char>)
    requires
        dir.len() > 0,
        !name.contains('/') && name.len() > 0 && name != seq!['.'],
        !other.contains('/') && other.len() > 0 && other != seq!['.'],
    ensures
        path_starts(dir, dir),
        path_starts(dir + seq!['/'] + name, dir),
        !path_starts(dir, dir + seq!['/'] + name),
        name != other ==> !path_starts(dir + seq!['/'] + name, dir + seq!['/'] + other),
{
    law_parts_of_a_path(dir, name);
    law_parts_of_a_path(dir, other);
    let p = path_parts(dir);
    assert((dir + seq!['/'] + name)[0] == dir[0]);
    assert((dir + seq!['/'] + other)[0] == dir[0]);
    assert(p.take(p.len() as int) =~= p);
    assert(p.push(name).take(p.len() as int) =~= p);
    assert(p.push(name).take(p.push(other).len() as int) =~= p.push(name));
    assert(p.push(name).last() == name && p.push(other).last() == other);
}

/// A path that is rooted begins with a slash.
pub proof fn law_rooted(path: Seq<char>)
    ensures
        is_rooted(seq!['/'] + path),
        path.len() > 0 && path[0] != '/' ==> !is_rooted(path),
        !is_rooted(Seq::empty()),
{
}

proof fn lemma_one_dot(stem: Seq<char>, ext: Seq<char>)
    requires
        !ext.contains('.'),
    ensures
        ({
            let name = stem + seq!['.'] + ext;
            last_at(name, seq!['.'], name.len() - 1) == Some(stem.len() as int)
        }),
{
    let name = stem + seq!['.'] + ext;
    let dot = seq!['.'];
    law_last_place(name, dot, name.len() - 1);
    assert(name.subrange(stem.len() as int, stem.len() as int + 1) =~= dot);
    assert(occurs_at(name, dot, stem.len() as int));
    assert forall|j: int| stem.len() < j <= name.len() - 1 implies !occurs_at(name, dot, j) by {
        if occurs_at(name, dot, j) {
            assert(name.subrange(j, j + 1)[0] == dot[0]);
            assert(name[j] == ext[j - stem.len() - 1]);
            assert(ext.contains(ext[j - stem.len() - 1]));
        }
    }
    match last_at(name, dot, name.len() - 1) {
        Some(i) => {
            if i < stem.len() {
                assert(!occurs_at(name, dot, stem.len() as int));
            }
            if i > stem.len() {
                assert(!occurs_at(name, dot, i));
            }
        },
        None => {
            assert(!occurs_at(name, dot, stem.len() as int));
        },
    }
}

/// A file of lines of JSON holds a session unless it is an agent's, and the session's id is the
/// file's name without its extension. A file of another extension holds none.
pub proof fn law_session_files(dir: Seq<char>, stem: Seq<char>, ext: Seq<char>)
    requires
        stem.len() > 0,
        !stem.contains('/'),
        !ext.contains('.') && !ext.contains('/') && ext.len() > 0,
        dir.len() == 0 || dir.last() == '/',
    ensures
        ext == "jsonl"@ && !starts(stem, "agent-"@) ==> holds_session(stem + seq!['.'] + ext),
        ext == "jsonl"@ && starts(stem, "agent-"@) ==> !holds_session(stem + seq!['.'] + ext),
        ext != "jsonl"@ ==> !holds_session(stem + seq!['.'] + ext),
        session_id_of(dir + (stem + seq!['.'] + ext)) == stem,
{
    lemma_one_dot(stem, ext);
    let name = stem + seq!['.'] + ext;
    assert(name.skip(stem.len() as int + 1) =~= ext);
    assert(name.take(stem.len() as int) =~= stem);
    assert(!name.contains('/')) by {
        if name.contains('/') {
            let i = choose|i: int| 0 <= i < name.len() && name[i] == '/';
            if i < stem.len() {
                assert(stem.contains(stem[i]));
            } else if i > stem.len() {
                assert(ext.contains(ext[i - stem.len() - 1]));
            }
        }
    }
    assert(name[stem.len() as int] == '.');
    assert(name.len() >= 3);
    law_path_name(dir, name);
}

/// A session's transcript lies under the home directory, in the directory that its workspace's path
/// is written as.
pub proof fn law_project_directory(home: Seq<char>, names: ProviderNames, workspace: Seq<char>)
    ensures
        starts(project_dir(home, names, workspace), home),
        ends(project_dir(home, names, workspace), "/projects/"@ + encoded(workspace)),
        project_dir(home, names, workspace) == home + ("/."@ + names.claude@ + "/projects/"@
            + encoded(workspace)),
{
    let rest = "/."@ + names.claude@ + "/projects/"@ + encoded(workspace);
    assert(project_dir(home, names, workspace) =~= home + rest);
    law_prefixes(home, rest, home);
    let front = home + "/."@ + names.claude@;
    let tail = "/projects/"@ + encoded(workspace);
    assert(project_dir(home, names, workspace) =~= front + tail);
    law_suffixes(front, tail, home);
}

} // verus!
