//! The simple XML elements that user messages carry.
use crate::text::{
    chars_of, concat3, find_from, first_at, join, joined, next_char, same_text, seek_char,
    string_of_range, trim, trim_start, trimmed, trimmed_start, views,
};
use vstd::prelude::*;

verus! {

broadcast use vstd::string::group_string_axioms;

/// `<tag>`.
pub open spec fn opening(tag: Seq<char>) -> Seq<char> {
    "<"@ + tag + ">"@
}

/// `</tag>`.
pub open spec fn closing(tag: Seq<char>) -> Seq<char> {
    "</"@ + tag + ">"@
}

/// The text between the first `<tag>` and the first `</tag>` after it.
pub open spec fn tag_text(xml: Seq<char>, tag: Seq<char>) -> Option<Seq<char>> {
    match first_at(xml, opening(tag), 0) {
        Some(a) => {
            let start = a + opening(tag).len();
            match first_at(xml, closing(tag), start) {
                Some(end) => Some(xml.subrange(start, end)),
                None => None,
            }
        },
        None => None,
    }
}

/// The text between the first `<tag>` and the first `</tag>` after it.
pub fn extract_xml_tag(xml: &str, tag: &str) -> (r: Option<String>)
    ensures
        match r {
            Some(t) => tag_text(xml@, tag@) == Some(t@),
            None => tag_text(xml@, tag@) is None,
        },
{
    let open = concat3("<", tag, ">");
    let close = concat3("</", tag, ">");
    let v = chars_of(xml);
    let o = chars_of(open.as_str());
    let c = chars_of(close.as_str());
    match find_from(&v, &o, 0) {
        Some(a) => {
            let start: usize = a + o.len();
            match find_from(&v, &c, start) {
                Some(end) => Some(string_of_range(&v, start, end)),
                None => None,
            }
        },
        None => None,
    }
}

/// A name that an opening tag may have here: not empty, without a space, no closing or
/// self-closing tag and no declaration.
pub open spec fn plain_name(name: Seq<char>) -> bool {
    &&& name.len() > 0
    &&& !name.contains(' ')
    &&& name[0] != '/'
    &&& name[0] != '!'
    &&& name.last() != '/'
}

/// The element that `text` begins with: its name, its trimmed content, and what follows it.
pub open spec fn one_tag(text: Seq<char>) -> Option<(Seq<char>, Seq<char>, Seq<char>)> {
    if text.len() == 0 || text[0] != '<' {
        None
    } else {
        let bracket = next_char(text, '>', 1);
        let name = text.subrange(1, bracket);
        if bracket >= text.len() || !plain_name(name) {
            None
        } else {
            match first_at(text, closing(name), bracket + 1) {
                Some(end) => Some(
                    (
                        name,
                        trimmed(text.subrange(bracket + 1, end)),
                        text.skip(end + closing(name).len()),
                    ),
                ),
                None => None,
            }
        }
    }
}

fn is_plain_name(v: &Vec<char>, from: usize, to: usize) -> (r: bool)
    requires
        from <= to <= v@.len(),
    ensures
        r == plain_name(v@.subrange(from as int, to as int)),
{
    let ghost name = v@.subrange(from as int, to as int);
    if from == to || v[from] == '/' || v[from] == '!' || v[to - 1] == '/' {
        return false;
    }
    let mut i: usize = from;
    while i < to
        invariant
            from <= i <= to <= v@.len(),
            name == v@.subrange(from as int, to as int),
            forall|k: int| from <= k < i ==> v@[k] != ' ',
        decreases to - i,
    {
        if v[i] == ' ' {
            proof {
                assert(name[i - from] == ' ');
            }
            return false;
        }
        i = i + 1;
    }
    true
}

/// The element that `text` begins with: its name, its trimmed content, and what follows it.
pub fn parse_one_xml_tag(text: &str) -> (r: Option<(String, String, String)>)
    ensures
        match r {
            Some((name, inner, rest)) => one_tag(text@) == Some((name@, inner@, rest@)),
            None => one_tag(text@) is None,
        },
{
    let v = chars_of(text);
    if v.len() == 0 || v[0] != '<' {
        return None;
    }
    let bracket: usize = seek_char(&v, '>', 1);
    if bracket >= v.len() || !is_plain_name(&v, 1, bracket) {
        return None;
    }
    let name = string_of_range(&v, 1, bracket);
    let close = concat3("</", name.as_str(), ">");
    let c = chars_of(close.as_str());
    match find_from(&v, &c, bracket + 1) {
        Some(end) => {
            let inner = string_of_range(&v, bracket + 1, end);
            let rest = string_of_range(&v, end + c.len(), v.len());
            proof {
                assert(v@.subrange(end + c@.len(), v@.len() as int) =~= v@.skip(end + c@.len()));
            }
            Some((name, trim(inner.as_str()), rest))
        },
        None => None,
    }
}

proof fn lemma_trimmed_start_len(s: Seq<char>)
    ensures
        trimmed_start(s).len() <= s.len(),
    decreases s.len(),
{
    if s.len() > 0 {
        lemma_trimmed_start_len(s.skip(1));
    }
}

proof fn lemma_one_tag_shrinks(text: Seq<char>)
    ensures
        match one_tag(text) {
            Some((_, _, rest)) => rest.len() < text.len(),
            None => true,
        },
{
    if one_tag(text) is Some {
        let bracket = next_char(text, '>', 1);
        let name = text.subrange(1, bracket);
        crate::text::lemma_first_at(text, closing(name), bracket + 1);
        reveal_strlit("</");
    }
}

/// The elements that `text` begins with, white space between them skipped, and what follows them.
pub open spec fn leading_tags(text: Seq<char>) -> (Seq<(Seq<char>, Seq<char>)>, Seq<char>)
    decreases text.len(),
    via leading_tags_decreases
{
    match one_tag(text) {
        Some((name, inner, rest)) => {
            let (tags, remainder) = leading_tags(trimmed_start(rest));
            (seq![(name, inner)] + tags, remainder)
        },
        None => (Seq::empty(), text),
    }
}

#[via_fn]
proof fn leading_tags_decreases(text: Seq<char>) {
    lemma_one_tag_shrinks(text);
    if let Some((_, _, rest)) = one_tag(text) {
        lemma_trimmed_start_len(rest);
    }
}

/// The views of named contents.
pub open spec fn tag_views(tags: Seq<(String, String)>) -> Seq<(Seq<char>, Seq<char>)> {
    tags.map_values(|t: (String, String)| (t.0@, t.1@))
}

/// The elements that `text` begins with after white space, and what follows them; `None` where it
/// begins with none.
pub fn collect_leading_xml_tags(text: &str) -> (r: Option<(Vec<(String, String)>, String)>)
    ensures
        match r {
            Some((tags, remainder)) => leading_tags(trimmed_start(text@)) == (
                tag_views(tags@),
                remainder@,
            ) && tags@.len() > 0,
            None => leading_tags(trimmed_start(text@)).0.len() == 0,
        },
{
    let mut tags: Vec<(String, String)> = Vec::new();
    let mut remaining = trim_start(text);
    let ghost start = remaining@;
    loop
        invariant
            start == trimmed_start(text@),
            leading_tags(start) == (
                tag_views(tags@) + leading_tags(remaining@).0,
                leading_tags(remaining@).1,
            ),
        decreases remaining@.len(),
    {
        let ghost before = remaining@;
        match parse_one_xml_tag(remaining.as_str()) {
            Some((name, inner, rest)) => {
                proof {
                    lemma_one_tag_shrinks(before);
                    lemma_trimmed_start_len(rest@);
                    let tail = leading_tags(trimmed_start(rest@)).0;
                    assert(tag_views(tags@.push((name, inner))) =~= tag_views(tags@).push(
                        (name@, inner@),
                    ));
                    assert(tag_views(tags@) + (seq![(name@, inner@)] + tail) =~= tag_views(
                        tags@,
                    ).push((name@, inner@)) + tail);
                }
                tags.push((name, inner));
                remaining = trim_start(rest.as_str());
            },
            None => {
                proof {
                    assert(tag_views(tags@) + Seq::<(Seq<char>, Seq<char>)>::empty() =~= tag_views(
                        tags@,
                    ));
                }
                if tags.len() == 0 {
                    return None;
                }
                return Some((tags, remaining));
            },
        }
    }
}

/// The content of the first element named `name`.
pub open spec fn content_of(tags: Seq<(Seq<char>, Seq<char>)>, name: Seq<char>) -> Option<
    Seq<char>,
>
    decreases tags.len(),
{
    if tags.len() == 0 {
        None
    } else if tags[0].0 == name {
        Some(tags[0].1)
    } else {
        content_of(tags.skip(1), name)
    }
}

/// The parts that are not empty.
pub open spec fn not_empty(parts: Seq<Seq<char>>) -> Seq<Seq<char>> {
    parts.filter(|p: Seq<char>| p.len() > 0)
}

/// `s`, or the empty text.
pub open spec fn or_empty(s: Option<Seq<char>>) -> Seq<char> {
    match s {
        Some(t) => t,
        None => Seq::empty(),
    }
}

/// The text to show for leading elements, and the name that stands for them.
///
/// A command shows its name and arguments; a shell result shows its output and its errors;
/// anything else shows the contents and what follows them, line by line.
pub open spec fn shown(tags: Seq<(Seq<char>, Seq<char>)>, remainder: Seq<char>) -> (
    Seq<char>,
    Seq<char>,
) {
    match content_of(tags, "command-name"@) {
        Some(name) => {
            let args = or_empty(content_of(tags, "command-args"@));
            if args.len() == 0 {
                (name, "command-name"@)
            } else {
                (name + " "@ + args, "command-name"@)
            }
        },
        None => match content_of(tags, "bash-stdout"@) {
            Some(out) => {
                let err = or_empty(content_of(tags, "bash-stderr"@));
                (joined(not_empty(seq![out, err]), "\n"@), "bash-stdout"@)
            },
            None => {
                let contents = not_empty(tags.map_values(|t: (Seq<char>, Seq<char>)| t.1));
                let parts = if remainder.len() == 0 {
                    contents
                } else {
                    contents.push(remainder)
                };
                (joined(parts, "\n"@), tags[0].0)
            },
        },
    }
}

/// The text to show for a message that begins with elements, and the name that stands for them.
pub open spec fn xml_shown(text: Seq<char>) -> Option<(Seq<char>, Seq<char>)> {
    let (tags, remainder) = leading_tags(trimmed_start(text));
    if tags.len() == 0 {
        None
    } else {
        Some(shown(tags, remainder))
    }
}

fn find_content<'a>(tags: &'a Vec<(String, String)>, name: &str) -> (r: Option<&'a String>)
    ensures
        match r {
            Some(c) => content_of(tag_views(tags@), name@) == Some(c@),
            None => content_of(tag_views(tags@), name@) is None,
        },
{
    let mut i: usize = 0;
    proof {
        assert(tag_views(tags@).skip(0) =~= tag_views(tags@));
    }
    while i < tags.len()
        invariant
            i <= tags@.len(),
            content_of(tag_views(tags@), name@) == content_of(
                tag_views(tags@).skip(i as int),
                name@,
            ),
        decreases tags@.len() - i,
    {
        proof {
            assert(tag_views(tags@).skip(i as int).skip(1) =~= tag_views(tags@).skip(i + 1));
        }
        if same_text(tags[i].0.as_str(), name) {
            return Some(&tags[i].1);
        }
        i = i + 1;
    }
    None
}

/// The text to show for a message that begins with elements, and the name that stands for them;
/// `None` where it begins with none.
pub fn process_xml_tags(text: &str) -> (r: Option<(String, String)>)
    ensures
        match r {
            Some((display, tag)) => xml_shown(text@) == Some((display@, tag@)),
            None => xml_shown(text@) is None,
        },
{
    let (tags, remainder) = match collect_leading_xml_tags(text) {
        Some(found) => found,
        None => {
            return None;
        },
    };
    let ghost ts = tag_views(tags@);
    if let Some(name) = find_content(&tags, "command-name") {
        let display = match find_content(&tags, "command-args") {
            Some(args) => {
                if args.as_str().is_empty() {
                    name.clone()
                } else {
                    concat3(name.as_str(), " ", args.as_str())
                }
            },
            None => name.clone(),
        };
        return Some((display, "command-name".to_owned()));
    }
    if let Some(out) = find_content(&tags, "bash-stdout") {
        let mut parts: Vec<String> = Vec::new();
        let err = match find_content(&tags, "bash-stderr") {
            Some(err) => err.clone(),
            None => String::new(),
        };
        proof {
            reveal_with_fuel(Seq::filter, 3);
            let both = seq![out@, err@];
            assert(both.drop_last() =~= seq![out@]);
            assert(seq![out@].drop_last() =~= Seq::<Seq<char>>::empty());
            assert(both.last() == err@);
            assert(seq![out@].last() == out@);
        }
        if !out.as_str().is_empty() {
            parts.push(out.clone());
        }
        if !err.as_str().is_empty() {
            parts.push(err);
        }
        proof {
            reveal_with_fuel(Seq::filter, 3);
            assert(views(parts@) =~= not_empty(seq![out@, err@]));
        }
        return Some((join(&parts, "\n"), "bash-stdout".to_owned()));
    }
    let mut parts: Vec<String> = Vec::new();
    let ghost contents = ts.map_values(|t: (Seq<char>, Seq<char>)| t.1);
    let mut i: usize = 0;
    proof {
        reveal(Seq::filter);
        assert(contents.take(0) =~= Seq::<Seq<char>>::empty());
        assert(views(parts@) =~= Seq::<Seq<char>>::empty());
    }
    while i < tags.len()
        invariant
            i <= tags@.len(),
            ts == tag_views(tags@),
            contents == ts.map_values(|t: (Seq<char>, Seq<char>)| t.1),
            views(parts@) == not_empty(contents.take(i as int)),
        decreases tags@.len() - i,
    {
        proof {
            reveal(Seq::filter);
            assert(contents.take(i + 1).drop_last() =~= contents.take(i as int));
            assert(contents.take(i + 1).last() == tags@[i as int].1@);
        }
        if !tags[i].1.as_str().is_empty() {
            let ghost before = parts@;
            parts.push(tags[i].1.clone());
            proof {
                assert(views(parts@) =~= views(before).push(tags@[i as int].1@));
            }
        }
        i = i + 1;
    }
    proof {
        assert(contents.take(tags@.len() as int) =~= contents);
    }
    let first = tags[0].0.clone();
    if !remainder.as_str().is_empty() {
        let ghost before = parts@;
        let ghost tail = remainder@;
        parts.push(remainder);
        proof {
            assert(views(parts@) =~= views(before).push(tail));
        }
    }
    Some((join(&parts, "\n"), first))
}

/// A text that begins with no angle bracket after white space holds no leading elements.
pub proof fn law_no_elements(text: Seq<char>)
    requires
        trimmed_start(text).len() == 0 || trimmed_start(text)[0] != '<',
    ensures
        xml_shown(text) is None,
{
}

/// The text of an element is what stands between its tags, the first of each.
pub proof fn law_tag_text(a: Seq<char>, tag: Seq<char>, inner: Seq<char>, b: Seq<char>)
    requires
        ({
            let all = a + opening(tag) + inner + closing(tag) + b;
            &&& forall|j: int| 0 <= j < a.len() ==> !#[trigger] crate::text::occurs_at(
                all,
                opening(tag),
                j,
            )
            &&& forall|j: int|
                a.len() + opening(tag).len() <= j < a.len() + opening(tag).len() + inner.len()
                    ==> !#[trigger] crate::text::occurs_at(all, closing(tag), j)
        }),
    ensures
        tag_text(a + opening(tag) + inner + closing(tag) + b, tag) == Some(inner),
{
    let open = opening(tag);
    let close = closing(tag);
    let all = a + open + inner + close + b;
    let start = (a.len() + open.len()) as int;
    let end = start + inner.len();
    assert(all.subrange(a.len() as int, start) =~= open);
    assert(crate::text::occurs_at(all, open, a.len() as int));
    crate::text::lemma_first_at(all, open, 0);
    assert(all.subrange(end, end + close.len()) =~= close);
    assert(crate::text::occurs_at(all, close, end));
    crate::text::lemma_first_at(all, close, start);
    assert(all.subrange(start, end) =~= inner);
}

/// The text of an element stands in the text between its tags; where one of the tags is missing,
/// there is none.
pub proof fn law_tag_text_is_between(text: Seq<char>, tag: Seq<char>)
    ensures
        tag_text(text, tag) is Some ==> exists|a: Seq<char>, b: Seq<char>|
            text == #[trigger] (a + opening(tag) + tag_text(text, tag)->0 + closing(tag) + b),
        !crate::text::holds_text(text, opening(tag)) ==> tag_text(text, tag) is None,
        !crate::text::holds_text(text, closing(tag)) ==> tag_text(text, tag) is None,
{
    let open = opening(tag);
    let close = closing(tag);
    crate::text::lemma_first_at(text, open, 0);
    if let Some(i) = first_at(text, open, 0) {
        crate::text::lemma_first_at(text, close, i + open.len());
        if let Some(end) = first_at(text, close, i + open.len()) {
            let inner = text.subrange(i + open.len(), end);
            let a = text.take(i);
            let b = text.skip(end + close.len());
            assert(text =~= a + open + inner + close + b);
            assert(tag_text(text, tag) == Some(inner));
            assert(text == (a + opening(tag) + tag_text(text, tag)->0 + closing(tag) + b));
            crate::text::lemma_first_at(text, close, 0);
        }
    }
}

/// The tags of an element are its name in angle brackets, with a slash before it at its end.
pub proof fn law_tags(tag: Seq<char>)
    ensures
        opening(tag) == seq!['<'] + tag + seq!['>'],
        closing(tag) == seq!['<', '/'] + tag + seq!['>'],
{
    reveal_strlit("<");
    reveal_strlit("</");
    reveal_strlit(">");
    assert("<"@ =~= seq!['<'] && "</"@ =~= seq!['<', '/'] && ">"@ =~= seq!['>']);
}

/// The elements at the start of a text are taken one after the other, white space between them
/// skipped, up to what is no element.
pub proof fn law_leading_elements(text: Seq<char>)
    ensures
        one_tag(text) is None ==> leading_tags(text) == (
            Seq::<(Seq<char>, Seq<char>)>::empty(),
            text,
        ),
        one_tag(text) is Some ==> ({
            let (name, inner, rest) = one_tag(text)->0;
            let (more, remainder) = leading_tags(trimmed_start(rest));
            leading_tags(text) == (seq![(name, inner)] + more, remainder)
        }),
{
}

/// The content of the first element of a name.
pub proof fn law_content_of(tags: Seq<(Seq<char>, Seq<char>)>, name: Seq<char>)
    ensures
        forall|k: int|
            #![trigger tags[k]]
            0 <= k < tags.len() && tags[k].0 == name && (forall|j: int|
                0 <= j < k ==> (#[trigger] tags[j]).0 != name) ==> content_of(tags, name) == Some(
                tags[k].1,
            ),
        (forall|j: int| 0 <= j < tags.len() ==> (#[trigger] tags[j]).0 != name) ==> content_of(
            tags,
            name,
        ) is None,
    decreases tags.len(),
{
    if tags.len() > 0 {
        let rest = tags.skip(1);
        law_content_of(rest, name);
        assert forall|k: int|
            #![trigger tags[k]]
            0 <= k < tags.len() && tags[k].0 == name && (forall|j: int|
                0 <= j < k ==> (#[trigger] tags[j]).0 != name) implies content_of(tags, name)
            == Some(tags[k].1) by {
            if k > 0 {
                assert(tags[0].0 != name);
                assert(rest[k - 1] == tags[k]);
                assert forall|j: int| 0 <= j < k - 1 implies (#[trigger] rest[j]).0 != name by {
                    assert(tags[j + 1].0 != name);
                }
            }
        }
        if forall|j: int| 0 <= j < tags.len() ==> (#[trigger] tags[j]).0 != name {
            assert(tags[0].0 != name);
            assert forall|j: int| 0 <= j < rest.len() implies (#[trigger] rest[j]).0 != name by {
                assert(tags[j + 1].0 != name);
            }
        }
    }
}

/// A command is shown by its name and its arguments, and the output of a shell by what it wrote and
/// then what it complained of, each on a line; what is empty is left out.
pub proof fn law_commands_and_shells(
    tags: Seq<(Seq<char>, Seq<char>)>,
    remainder: Seq<char>,
)
    ensures
        ({
            let name = content_of(tags, "command-name"@);
            let args = content_of(tags, "command-args"@);
            let out = content_of(tags, "bash-stdout"@);
            let err = content_of(tags, "bash-stderr"@);
            let (text, tag) = shown(tags, remainder);
            &&& name is Some ==> tag == "command-name"@
            &&& name is Some && args is Some && args->0.len() > 0 ==> text == name->0 + " "@
                + args->0
            &&& name is Some && args is Some && args->0.len() == 0 ==> text == name->0
            &&& name is Some && args is None ==> text == name->0
            &&& name is None && out is Some ==> tag == "bash-stdout"@
            &&& name is None && out is Some && out->0.len() > 0 && err is Some && err->0.len() > 0
                ==> text == out->0 + "\n"@ + err->0
            &&& name is None && out is Some && out->0.len() == 0 && err is Some && err->0.len() > 0
                ==> text == err->0
            &&& name is None && out is Some && out->0.len() > 0 && (err is None || err->0.len()
                == 0) ==> text == out->0
            &&& name is None && out is Some && out->0.len() == 0 && (err is None || err->0.len()
                == 0) ==> text.len() == 0
        }),
{
    reveal(Seq::filter);
    reveal_with_fuel(Seq::filter, 3);
    reveal_with_fuel(joined, 3);
    let out = content_of(tags, "bash-stdout"@);
    let err = or_empty(content_of(tags, "bash-stderr"@));
    if out is Some {
        let parts = seq![out->0, err];
        assert(parts.drop_last() =~= seq![out->0]);
        assert(parts.drop_last().drop_last() =~= Seq::<Seq<char>>::empty());
        let kept = not_empty(parts);
        let keep = |p: Seq<char>| p.len() > 0;
        assert(not_empty(parts) == parts.filter(keep));
        assert(seq![out->0].drop_last() =~= Seq::<Seq<char>>::empty());
        assert(seq![out->0].filter(keep) =~= if out->0.len() > 0 {
            seq![out->0]
        } else {
            Seq::<Seq<char>>::empty()
        });
        assert(kept =~= if err.len() > 0 {
            seq![out->0].filter(keep).push(err)
        } else {
            seq![out->0].filter(keep)
        });
        if out->0.len() > 0 && err.len() > 0 {
            assert(kept =~= seq![out->0, err]);
            assert(kept.drop_last() =~= seq![out->0]);
        }
    }
}

/// Of any other elements the contents are shown that are not empty, and then what follows them,
/// each on a line; they stand under the name of the first.
pub proof fn law_other_elements(tags: Seq<(Seq<char>, Seq<char>)>, remainder: Seq<char>)
    requires
        tags.len() > 0,
        content_of(tags, "command-name"@) is None,
        content_of(tags, "bash-stdout"@) is None,
    ensures
        ({
            let contents = tags.map_values(|t: (Seq<char>, Seq<char>)| t.1).filter(
                |p: Seq<char>| p.len() > 0,
            );
            &&& shown(tags, remainder).1 == tags[0].0
            &&& remainder.len() == 0 ==> shown(tags, remainder).0 == joined(contents, "\n"@)
            &&& remainder.len() > 0 ==> shown(tags, remainder).0 == joined(
                contents.push(remainder),
                "\n"@,
            )
        }),
{
}

/// What is shown of a message that begins with elements is what is shown of those elements.
pub proof fn law_shown_elements(text: Seq<char>)
    ensures
        ({
            let (tags, remainder) = leading_tags(trimmed_start(text));
            &&& tags.len() == 0 ==> xml_shown(text) is None
            &&& tags.len() > 0 ==> xml_shown(text) == Some(shown(tags, remainder))
        }),
{
}

} // verus!
