//! The complete lines of a file that may still grow.
use crate::cursor::proto::copy_range;
use crate::text::{chars_of, string_of_range, text_of_bytes};
use vstd::prelude::*;
use vstd::utf8::{decode_utf8, valid_utf8};

verus! {

broadcast use vstd::string::group_string_axioms;

/// The first position at or after `pos` that holds a line feed, or the length of `data`.
pub open spec fn next_feed(data: Seq<u8>, pos: int) -> int
    decreases data.len() - pos,
{
    if pos < 0 || pos >= data.len() || data[pos] == 10 {
        pos
    } else {
        next_feed(data, pos + 1)
    }
}

/// Where the complete line at `pos` ends: behind its line feed, or at the end of data that end
/// with a carriage return. `None` where nothing or an incomplete line stands there.
pub open spec fn line_end(data: Seq<u8>, pos: int) -> Option<int> {
    if pos < 0 || pos >= data.len() {
        None
    } else if next_feed(data, pos) < data.len() {
        Some(next_feed(data, pos) + 1)
    } else if data.last() == 13 {
        Some(data.len() as int)
    } else {
        None
    }
}

/// A line without the carriage returns and line feeds at its end.
pub open spec fn bare_line(s: Seq<char>) -> Seq<char>
    decreases s.len(),
{
    if s.len() > 0 && (s.last() == '\r' || s.last() == '\n') {
        bare_line(s.drop_last())
    } else {
        s
    }
}

/// The text of the line `data[pos..end]`, bare; `None` where it is no text.
pub open spec fn line_text(data: Seq<u8>, pos: int, end: int) -> Option<Seq<char>> {
    let bytes = data.subrange(pos, end);
    if valid_utf8(bytes) {
        Some(bare_line(decode_utf8(bytes)))
    } else {
        None
    }
}

/// The search for a line feed stays inside the data.
pub proof fn lemma_next_feed(data: Seq<u8>, pos: int)
    requires
        0 <= pos <= data.len(),
    ensures
        pos <= next_feed(data, pos) <= data.len(),
    decreases data.len() - pos,
{
    if pos < data.len() && data[pos] != 10 {
        lemma_next_feed(data, pos + 1);
    }
}

/// A complete line is not empty and lies inside the data.
pub proof fn lemma_line_end(data: Seq<u8>, pos: int)
    ensures
        match line_end(data, pos) {
            Some(end) => 0 <= pos < end <= data.len(),
            None => true,
        },
{
    if 0 <= pos < data.len() {
        lemma_next_feed(data, pos);
    }
}

/// Where the complete line at `pos` ends.
pub fn find_line_end(data: &[u8], pos: usize) -> (r: Option<usize>)
    requires
        pos <= data@.len(),
    ensures
        match r {
            Some(end) => line_end(data@, pos as int) == Some(end as int) && pos < end
                <= data@.len(),
            None => line_end(data@, pos as int) is None,
        },
{
    if pos >= data.len() {
        return None;
    }
    let mut i: usize = pos;
    while i < data.len() && data[i] != 10
        invariant
            pos <= i <= data@.len(),
            next_feed(data@, pos as int) == next_feed(data@, i as int),
        decreases data@.len() - i,
    {
        i = i + 1;
    }
    if i < data.len() {
        Some(i + 1)
    } else if data[data.len() - 1] == 13 {
        Some(data.len())
    } else {
        None
    }
}

/// The text of the line `data[pos..end]`, bare; `None` where it is no text.
pub fn read_line(data: &[u8], pos: usize, end: usize) -> (r: Option<String>)
    requires
        pos <= end <= data@.len(),
    ensures
        match r {
            Some(t) => line_text(data@, pos as int, end as int) == Some(t@),
            None => line_text(data@, pos as int, end as int) is None,
        },
{
    let bytes = copy_range(data, pos, end);
    let text = match text_of_bytes(bytes.as_slice()) {
        Some(t) => t,
        None => {
            return None;
        },
    };
    let v = chars_of(text.as_str());
    let mut i: usize = v.len();
    assert(v@.take(i as int) =~= v@);
    while i > 0 && (v[i - 1] == '\r' || v[i - 1] == '\n')
        invariant
            i <= v@.len(),
            bare_line(v@) == bare_line(v@.take(i as int)),
        decreases i,
    {
        assert(v@.take(i as int).drop_last() =~= v@.take(i - 1));
        i = i - 1;
    }
    assert(v@.subrange(0, i as int) =~= v@.take(i as int));
    Some(string_of_range(&v, 0, i))
}

} // verus!
