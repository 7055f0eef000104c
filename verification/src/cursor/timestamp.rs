//! The timestamps that user messages carry.
use crate::clock::in_calendar;
use crate::number::{int_value, parse_i32};
use crate::text::{
    chars_of, cut_char, drop_char, find_from, find_last, first_at, last_at, pass_char, pass_words,
    skip_char, skip_words, string_of_range, trim, trimmed,
};
use crate::tree::Timestamp;
use chrono::TimeZone;
use vstd::prelude::*;

verus! {

broadcast use vstd::string::group_string_axioms;

// ---------------------------------------------------------------------------
// Calls into chrono
// ---------------------------------------------------------------------------

/// What `NaiveDateTime::parse_from_str` makes of a text and a format, as seconds from the epoch on
/// the clock that it was read from; `None` where it reports an error.
pub uninterp spec fn local_seconds(text: Seq<char>, format: Seq<char>) -> Option<i64>;

/// The instant of a local time at a place that many seconds ahead of UTC, in seconds; `None` where
/// the calendar does not reach one of the two.
pub open spec fn instant_of_local(local: i64, offset: i32) -> Option<i64> {
    if in_calendar(local as int) && in_calendar(local - offset) {
        Some((local - offset) as i64)
    } else {
        None
    }
}

/// Wraps `chrono::NaiveDateTime::parse_from_str`. The result is named by `local_seconds`; parts of
/// a second are left out.
#[verifier::external_body]
fn parse_local(text: &str, format: &str) -> (r: Option<i64>)
    ensures
        r == local_seconds(text@, format@),
{
    chrono::NaiveDateTime::parse_from_str(text, format).ok().map(|t| t.and_utc().timestamp())
}

/// Wraps `chrono::FixedOffset::from_local_datetime` with `MappedLocalTime::single`. A fixed offset
/// maps each local time to the instant that many seconds before it, where the calendar reaches.
#[verifier::external_body]
fn local_instant(local: i64, offset: i32) -> (r: Option<i64>)
    requires
        -86_400 < offset < 86_400,
    ensures
        r == instant_of_local(local, offset),
{
    let zone = chrono::FixedOffset::east_opt(offset)?;
    let time = chrono::DateTime::from_timestamp(local, 0)?.naive_utc();
    zone.from_local_datetime(&time).single().map(|t| t.timestamp())
}

// ---------------------------------------------------------------------------
// Timestamps
// ---------------------------------------------------------------------------

/// The offset that `+H`, `-H`, `+H:M` or `-H:M` names, in seconds; less than a day.
pub open spec fn zone_offset(s: Seq<char>) -> Option<int> {
    if s.len() == 0 || (s[0] != '+' && s[0] != '-') {
        None
    } else {
        let digits = s.skip(1);
        let (hours, minutes) = match first_at(digits, seq![':'], 0) {
            Some(colon) => (
                int_value(digits.take(colon)),
                int_value(digits.skip(colon + 1)),
            ),
            None => (int_value(digits), Some(0int)),
        };
        match (hours, minutes) {
            (Some(h), Some(m)) => {
                let total = if s[0] == '+' {
                    h * 3600 + m * 60
                } else {
                    -(h * 3600 + m * 60)
                };
                if -86_400 < total < 86_400 {
                    Some(total)
                } else {
                    None
                }
            },
            _ => None,
        }
    }
}

/// The part of `(UTC+8)` that names the offset.
pub open spec fn zone_text(s: Seq<char>) -> Seq<char> {
    skip_words(drop_char(skip_char(s, '('), ')'), "UTC"@)
}

/// The date and time in front of the zone, without the day of the week.
pub open spec fn date_text(s: Seq<char>) -> Seq<char> {
    let all = trimmed(s);
    match first_at(all, ", "@, 0) {
        Some(i) => all.skip(i + 2),
        None => all,
    }
}

/// How the date and time are written.
pub open spec fn date_format() -> Seq<char> {
    "%B %-d, %Y, %I:%M %p"@
}

/// The point in time that a text such as `Saturday, May 2, 2026, 3:00 PM (UTC+8)` names.
pub open spec fn timestamp_of(s: Seq<char>) -> Option<Timestamp> {
    match last_at(s, "(UTC"@, s.len() - "(UTC"@.len()) {
        Some(i) => match zone_offset(zone_text(s.skip(i))) {
            Some(offset) => match local_seconds(date_text(s.take(i)), date_format()) {
                Some(local) => match instant_of_local(local, offset as i32) {
                    Some(utc) => Some(
                        Timestamp { utc_seconds: utc, offset_seconds: offset as i32 },
                    ),
                    None => None,
                },
                None => None,
            },
            None => None,
        },
        None => None,
    }
}

fn parse_zone(v: &Vec<char>) -> (r: Option<i32>)
    ensures
        match r {
            Some(n) => zone_offset(v@) == Some(n as int) && -86_400 < n < 86_400,
            None => zone_offset(v@) is None,
        },
{
    if v.len() == 0 || (v[0] != '+' && v[0] != '-') {
        return None;
    }
    let plus = v[0] == '+';
    let ghost digits = v@.skip(1);
    let digits_text = string_of_range(v, 1, v.len());
    let d = chars_of(digits_text.as_str());
    assert(d@ =~= digits);
    let mut colon: Vec<char> = Vec::new();
    colon.push(':');
    assert(colon@ =~= seq![':']);
    let (hours, minutes) = match find_from(&d, &colon, 0) {
        Some(i) => {
            assert(d@.subrange(0, i as int) =~= digits.take(i as int));
            assert(d@.subrange(i + 1, d@.len() as int) =~= digits.skip(i + 1));
            (parse_i32(&d, 0, i), parse_i32(&d, i + 1, d.len()))
        },
        None => {
            assert(d@.subrange(0, d@.len() as int) =~= digits);
            (parse_i32(&d, 0, d.len()), Some(0i32))
        },
    };
    match (hours, minutes) {
        (Some(h), Some(m)) => {
            let sum: i64 = h as i64 * 3600 + m as i64 * 60;
            let total: i64 = if plus {
                sum
            } else {
                -sum
            };
            if -86_400 < total && total < 86_400 {
                Some(total as i32)
            } else {
                None
            }
        },
        _ => None,
    }
}

/// The point in time that a text such as `Saturday, May 2, 2026, 3:00 PM (UTC+8)` names.
pub fn parse_timestamp(s: &str) -> (r: Option<Timestamp>)
    ensures
        r == timestamp_of(s@),
{
    proof {
        reveal_strlit("UTC");
        reveal_strlit(", ");
    }
    let v = chars_of(s);
    let open = chars_of("(UTC");
    let at: usize = match find_last(&v, &open) {
        Some(i) => i,
        None => {
            return None;
        },
    };
    let a: usize = pass_char(&v, at, v.len(), '(');
    let b: usize = cut_char(&v, a, v.len(), ')');
    let inner = chars_of(string_of_range(&v, a, b).as_str());
    assert(v@.subrange(at as int, v@.len() as int) =~= v@.skip(at as int));
    let word = chars_of("UTC");
    assert(inner@.skip(0) =~= inner@);
    let c: usize = pass_words(&inner, 0, &word);
    let zone = chars_of(string_of_range(&inner, c, inner.len()).as_str());
    assert(inner@.subrange(c as int, inner@.len() as int) =~= inner@.skip(c as int));
    let offset: i32 = match parse_zone(&zone) {
        Some(n) => n,
        None => {
            return None;
        },
    };
    let front = string_of_range(&v, 0, at);
    assert(v@.subrange(0, at as int) =~= v@.take(at as int));
    let all = chars_of(trim(front.as_str()).as_str());
    let comma = chars_of(", ");
    let start: usize = match find_from(&all, &comma, 0) {
        Some(i) => i + 2,
        None => 0,
    };
    let date = string_of_range(&all, start, all.len());
    proof {
        assert(all@.subrange(start as int, all@.len() as int) =~= all@.skip(start as int));
        assert(all@.skip(0) =~= all@);
    }
    let local: i64 = match parse_local(date.as_str(), "%B %-d, %Y, %I:%M %p") {
        Some(n) => n,
        None => {
            return None;
        },
    };
    match local_instant(local, offset) {
        Some(utc_seconds) => Some(Timestamp { utc_seconds, offset_seconds: offset }),
        None => None,
    }
}

} // verus!
