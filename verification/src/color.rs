//! Colors that a terminal reports.
use crate::number::{parse_u8, small_number};
use crate::text::{
    after_prefix, chars_of, cut_char, drop_char, find_from, first_at, next_char,
    pass_char, seek_char, skip_char, split_at_char, split_char, string_of_range, strip_prefix,
    text_of_bytes, trim, trimmed, views,
};
use vstd::prelude::*;

verus! {

broadcast use vstd::string::group_string_axioms;

/// A color of eight bits per channel.
#[derive(Clone, Copy, Debug, PartialEq, Eq, Structural)]
pub struct RgbColor {
    pub r: u8,
    pub g: u8,
    pub b: u8,
}

/// The background to go by where the terminal reports none.
pub open spec fn dark_background() -> RgbColor {
    RgbColor { r: 0x1c, g: 0x1e, b: 0x1f }
}

/// The background to go by where the terminal reports none.
pub fn default_dark_bg() -> (r: RgbColor)
    ensures
        r == dark_background(),
{
    RgbColor { r: 0x1c, g: 0x1e, b: 0x1f }
}

/// The value of a digit in base 16, of either case.
pub open spec fn hex_value(c: char) -> Option<nat> {
    if '0' <= c <= '9' {
        Some((c as u32 - '0' as u32) as nat)
    } else if 'a' <= c <= 'f' {
        Some((c as u32 - 'a' as u32 + 10) as nat)
    } else if 'A' <= c <= 'F' {
        Some((c as u32 - 'A' as u32 + 10) as nat)
    } else {
        None
    }
}

/// The value of digits in base 16.
pub open spec fn hex_digits(s: Seq<char>) -> Option<nat>
    decreases s.len(),
{
    if s.len() == 0 {
        Some(0)
    } else {
        match (hex_digits(s.drop_last()), hex_value(s.last())) {
            (Some(front), Some(d)) => Some(16 * front + d),
            _ => None,
        }
    }
}

/// An unsigned number of 16 bits in base 16: digits, after a plus sign or none.
pub open spec fn hex_number(s: Seq<char>) -> Option<nat> {
    let digits = if s.len() > 0 && s[0] == '+' {
        s.skip(1)
    } else {
        s
    };
    if digits.len() == 0 {
        None
    } else {
        match hex_digits(digits) {
            Some(n) => if n <= 0xffff {
                Some(n)
            } else {
                None
            },
            None => None,
        }
    }
}

/// A channel of eight bits: the number itself, as far as eight bits hold it, where it is written
/// with up to three characters, its high byte where it is written with more.
pub open spec fn channel(s: Seq<char>) -> Option<u8> {
    match hex_number(s) {
        Some(n) => if s.len() <= 3 {
            Some((n % 256) as u8)
        } else {
            Some((n / 256) as u8)
        },
        None => None,
    }
}

/// The color that `rgb:R/G/B` names.
pub open spec fn osc_color(s: Seq<char>) -> Option<RgbColor> {
    match after_prefix(s, "rgb:"@) {
        Some(t) => {
            let first = next_char(t, '/', 0);
            let second = next_char(t, '/', first + 1);
            if first >= t.len() || second >= t.len() {
                None
            } else {
                match (
                    channel(t.take(first)),
                    channel(t.subrange(first + 1, second)),
                    channel(t.skip(second + 1)),
                ) {
                    (Some(r), Some(g), Some(b)) => Some(RgbColor { r, g, b }),
                    _ => None,
                }
            }
        },
        None => None,
    }
}

fn digit_of(c: char) -> (r: Option<u32>)
    ensures
        match r {
            Some(d) => hex_value(c) == Some(d as nat) && d < 16,
            None => hex_value(c) is None,
        },
{
    if '0' <= c && c <= '9' {
        Some(c as u32 - '0' as u32)
    } else if 'a' <= c && c <= 'f' {
        Some(c as u32 - 'a' as u32 + 10)
    } else if 'A' <= c && c <= 'F' {
        Some(c as u32 - 'A' as u32 + 10)
    } else {
        None
    }
}

proof fn lemma_hex_digits_grow(s: Seq<char>, k: int)
    requires
        0 <= k <= s.len(),
    ensures
        hex_digits(s.take(k)) is None ==> hex_digits(s) is None,
        hex_digits(s) is Some ==> hex_digits(s.take(k)) is Some && hex_digits(s.take(k))->0
            <= hex_digits(s)->0,
    decreases s.len() - k,
{
    if k == s.len() {
        assert(s.take(k) =~= s);
    } else {
        lemma_hex_digits_grow(s, k + 1);
        assert(s.take(k + 1).drop_last() =~= s.take(k));
    }
}

fn parse_channel(v: &Vec<char>, from: usize, to: usize) -> (r: Option<u8>)
    requires
        from <= to <= v@.len(),
    ensures
        r == channel(v@.subrange(from as int, to as int)),
{
    let ghost s = v@.subrange(from as int, to as int);
    let start: usize = if from < to && v[from] == '+' {
        from + 1
    } else {
        from
    };
    let ghost digits = v@.subrange(start as int, to as int);
    proof {
        if start > from {
            assert(s.skip(1) =~= digits);
        } else {
            assert(s =~= digits);
        }
    }
    if start == to {
        return None;
    }
    let mut acc: u32 = 0;
    let mut i: usize = start;
    assert(digits.take(0) =~= Seq::<char>::empty());
    while i < to
        invariant
            from <= start <= i <= to <= v@.len(),
            s == v@.subrange(from as int, to as int),
            digits == v@.subrange(start as int, to as int),
            start < to,
            digits == (if s.len() > 0 && s[0] == '+' {
                s.skip(1)
            } else {
                s
            }),
            acc <= 0xffff,
            hex_digits(digits.take(i - start)) == Some(acc as nat),
        decreases to - i,
    {
        proof {
            let next = digits.take(i + 1 - start);
            assert(next.drop_last() =~= digits.take(i - start));
            assert(next.last() == v@[i as int]);
            lemma_hex_digits_grow(digits, i + 1 - start);
        }
        match digit_of(v[i]) {
            Some(d) => {
                acc = acc * 16 + d;
                if acc > 0xffff {
                    return None;
                }
            },
            None => {
                return None;
            },
        }
        i = i + 1;
    }
    assert(digits.take(to - start) =~= digits);
    if to - from <= 3 {
        Some((acc % 256) as u8)
    } else {
        Some((acc / 256) as u8)
    }
}

/// The color that `rgb:R/G/B` names, with one to four digits in base 16 for each channel.
pub fn parse_osc_color(s: &str) -> (r: Option<RgbColor>)
    ensures
        r == osc_color(s@),
{
    let t = match strip_prefix(s, "rgb:") {
        Some(t) => t,
        None => {
            return None;
        },
    };
    let v = chars_of(t.as_str());
    let first: usize = seek_char(&v, '/', 0);
    if first >= v.len() {
        return None;
    }
    let second: usize = seek_char(&v, '/', first + 1);
    if second >= v.len() {
        return None;
    }
    assert(v@.subrange(0, first as int) =~= v@.take(first as int));
    assert(v@.subrange(second + 1, v@.len() as int) =~= v@.skip(second + 1));
    match (
        parse_channel(&v, 0, first),
        parse_channel(&v, first + 1, second),
        parse_channel(&v, second + 1, v.len()),
    ) {
        (Some(r), Some(g), Some(b)) => Some(RgbColor { r, g, b }),
        _ => None,
    }
}

/// A terminal's answer without the marks at its ends.
pub open spec fn answer_body(s: Seq<char>) -> Seq<char> {
    drop_char(
        drop_char(drop_char(skip_char(skip_char(s, '\u{1b}'), ']'), '\u{7}'), '\\'),
        '\u{1b}',
    )
}

/// The color in a terminal's answer.
pub open spec fn answer_color(s: Seq<char>) -> Option<RgbColor> {
    let body = answer_body(s);
    match first_at(body, "rgb:"@, 0) {
        Some(i) => osc_color(body.skip(i)),
        None => None,
    }
}

/// Whether what has been read of a response is all of it: the terminator has come, or it has got
/// too long to be one.
pub open spec fn response_over(s: Seq<u8>) -> bool {
    ||| s.len() > 0 && s.last() == 0x07
    ||| s.len() >= 2 && s[s.len() - 2] == 0x1b && s.last() == 0x5c
    ||| s.len() > 256
}

/// Whether what has been read of a response is all of it.
pub fn response_ends(bytes: &[u8]) -> (r: bool)
    ensures
        r == response_over(bytes@),
{
    let n: usize = bytes.len();
    (n > 0 && bytes[n - 1] == 0x07) || (n >= 2 && bytes[n - 2] == 0x1b && bytes[n - 1] == 0x5c)
        || n > 256
}

/// The color in a terminal's answer to a color query; `None` where it is no text or names none.
pub fn parse_osc_color_response(bytes: &[u8]) -> (r: Option<RgbColor>)
    ensures
        r == (if vstd::utf8::valid_utf8(bytes@) {
            answer_color(vstd::utf8::decode_utf8(bytes@))
        } else {
            None
        }),
{
    let text = match text_of_bytes(bytes) {
        Some(t) => t,
        None => {
            return None;
        },
    };
    let v = chars_of(text.as_str());
    assert(v@.subrange(0, v@.len() as int) =~= v@);
    let a: usize = pass_char(&v, 0, v.len(), '\u{1b}');
    let b: usize = pass_char(&v, a, v.len(), ']');
    let c: usize = cut_char(&v, b, v.len(), '\u{7}');
    let d: usize = cut_char(&v, b, c, '\\');
    let e: usize = cut_char(&v, b, d, '\u{1b}');
    let body = chars_of(string_of_range(&v, b, e).as_str());
    let mark = chars_of("rgb:");
    match find_from(&body, &mark, 0) {
        Some(i) => {
            let rest = string_of_range(&body, i, body.len());
            assert(body@.subrange(i as int, body@.len() as int) =~= body@.skip(i as int));
            parse_osc_color(rest.as_str())
        },
        None => None,
    }
}

/// The background that `foreground;background` color numbers stand for: dark up to 8, else light.
pub open spec fn colorfgbg_color(s: Seq<char>) -> Option<RgbColor> {
    let parts = split_at_char(s, ';');
    if parts.len() < 2 {
        None
    } else {
        match small_number(trimmed(parts[1])) {
            Some(n) => if n <= 8 {
                Some(dark_background())
            } else {
                Some(RgbColor { r: 0xff, g: 0xff, b: 0xff })
            },
            None => None,
        }
    }
}

/// The background that the terminal's color numbers stand for.
pub fn colorfgbg_str_to_rgb(s: &str) -> (r: Option<RgbColor>)
    ensures
        r == colorfgbg_color(s@),
{
    let parts = split_char(s, ';');
    assert(views(parts@).len() == parts@.len());
    if parts.len() < 2 {
        return None;
    }
    assert(views(parts@)[1] == parts@[1]@);
    let bare = trim(parts[1].as_str());
    match parse_u8(bare.as_str()) {
        Some(n) => {
            if n <= 8 {
                Some(default_dark_bg())
            } else {
                Some(RgbColor { r: 0xff, g: 0xff, b: 0xff })
            }
        },
        None => None,
    }
}

} // verus!
