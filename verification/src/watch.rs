//! What to watch while a session's files come and change.
use crate::paths::{begins_with, is_same_path, path_starts, same_path};
use vstd::prelude::*;

verus! {

/// A directory or file to watch.
#[derive(Clone, Copy, Debug, PartialEq, Eq, Structural)]
pub struct Watch {
    /// How far above the wanted path it is.
    pub up: usize,
    /// Whether what is below it is watched too.
    pub recursive: bool,
}

/// How far up the first path is that is there.
pub open spec fn first_there(there: Seq<bool>) -> int
    decreases there.len(),
{
    if there.len() == 0 || there[0] {
        0
    } else {
        1 + first_there(there.skip(1))
    }
}

/// What to watch for a path: the path itself, or the nearest one above it that is there. `there`
/// tells of the path and of those above it, the nearest first. Up to `flat` steps above it the
/// path is seen at once when it comes; from further up, all that is below has to be watched.
pub open spec fn watch_plan(there: Seq<bool>, flat: usize) -> Option<Watch> {
    if first_there(there) < there.len() {
        Some(Watch { up: first_there(there) as usize, recursive: first_there(there) > flat })
    } else {
        None
    }
}

/// What to watch for a path.
pub fn plan_watch(there: &Vec<bool>, flat: usize) -> (r: Option<Watch>)
    ensures
        r == watch_plan(there@, flat),
{
    let mut i: usize = 0;
    assert(there@.skip(0) =~= there@);
    while i < there.len()
        invariant
            i <= there@.len(),
            first_there(there@) == i + first_there(there@.skip(i as int)),
        decreases there@.len() - i,
    {
        assert(there@.skip(i as int)[0] == there@[i as int]);
        assert(there@.skip(i as int).skip(1) =~= there@.skip(i + 1));
        if there[i] {
            return Some(Watch { up: i, recursive: i > flat });
        }
        i = i + 1;
    }
    None
}

/// Whether to watch the directory of a session's agents from now on: it was not there when the
/// watching began, and it or something below it has changed.
pub fn moves_watch(watched: &str, session_dir: &str, path: &str) -> (r: bool)
    ensures
        r == (!same_path(watched@, session_dir@) && path_starts(path@, session_dir@)),
{
    !is_same_path(watched, session_dir) && begins_with(path, session_dir)
}

/// What a reader does next.
#[derive(Clone, Copy, Debug, PartialEq, Eq, Structural)]
pub enum NextRead {
    /// Read on at once.
    Again,
    /// Wait for a change.
    Wait,
    /// End.
    Stop,
}

/// What a reader does after a reading. One that takes a snapshot ends, but not before all entries
/// have come where they come one at a time.
pub open spec fn next_read(snapshot: bool, waterfall: bool, advanced: bool) -> NextRead {
    if !snapshot {
        NextRead::Wait
    } else if waterfall && advanced {
        NextRead::Again
    } else {
        NextRead::Stop
    }
}

/// What a reader does after a reading.
pub fn after_read(snapshot: bool, waterfall: bool, advanced: bool) -> (r: NextRead)
    ensures
        r == next_read(snapshot, waterfall, advanced),
{
    if !snapshot {
        NextRead::Wait
    } else if waterfall && advanced {
        NextRead::Again
    } else {
        NextRead::Stop
    }
}

} // verus!
