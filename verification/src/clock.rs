//! Times as they are shown.
use vstd::prelude::*;

verus! {

broadcast use vstd::string::group_string_axioms;

/// The hour, minute and second.
pub open spec fn clock_format() -> Seq<char> {
    "%H:%M:%S"@
}

/// The whole date and time.
pub open spec fn full_format() -> Seq<char> {
    "%Y-%m-%d %H:%M:%S"@
}

/// The month, day, hour and minute.
pub open spec fn short_format() -> Seq<char> {
    "%b %d %H:%M"@
}

/// The text of a time, given in seconds from the epoch, at a place that is a number of seconds
/// ahead of UTC.
pub uninterp spec fn time_text(secs: i64, offset: i32, format: Seq<char>) -> Seq<char>;

/// Whether the calendar reaches a time: it goes from the start of the year -262143 to the end of the
/// year 262142.
pub open spec fn in_calendar(secs: int) -> bool {
    -8_334_601_228_800 <= secs <= 8_210_266_876_799
}

/// Whether the calendar reaches a time, and a place can be that far ahead.
pub open spec fn can_show(secs: i64, offset: i32) -> bool {
    &&& in_calendar(secs as int)
    &&& -86_400 < offset < 86_400
}

/// Wraps `chrono::DateTime::format` on a time at a fixed offset, named by `time_text`.
#[verifier::external_body]
fn formatted(secs: i64, offset: i32, format: &str) -> (r: String)
    requires
        can_show(secs, offset),
        format@ == clock_format() || format@ == full_format() || format@ == short_format(),
    ensures
        r@ == time_text(secs, offset, format@),
{
    let zone = chrono::FixedOffset::east_opt(offset).unwrap();
    let time = chrono::DateTime::from_timestamp(secs, 0).unwrap();
    time.with_timezone(&zone).format(format).to_string()
}

/// The hour, minute and second.
pub fn show_clock(secs: i64, offset: i32) -> (r: String)
    requires
        can_show(secs, offset),
    ensures
        r@ == time_text(secs, offset, clock_format()),
{
    formatted(secs, offset, "%H:%M:%S")
}

/// The whole date and time.
pub fn show_full(secs: i64, offset: i32) -> (r: String)
    requires
        can_show(secs, offset),
    ensures
        r@ == time_text(secs, offset, full_format()),
{
    formatted(secs, offset, "%Y-%m-%d %H:%M:%S")
}

/// The month, day, hour and minute.
pub fn show_short(secs: i64, offset: i32) -> (r: String)
    requires
        can_show(secs, offset),
    ensures
        r@ == time_text(secs, offset, short_format()),
{
    formatted(secs, offset, "%b %d %H:%M")
}

} // verus!
