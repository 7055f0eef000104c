//! What holds of reading transcripts and the transcripts of their agents.
use crate::claude::jsonl::{
    awaited, emitted, fresh_reader, next_entry, parent_seen, parked, received, JsonlModel,
};
use crate::claude::laws::{content_of_entry, holds_result};
use crate::claude::lines::{bare_line, line_end, line_text, next_feed};
use crate::claude::message::{entry_steps, ops_among, ParseModel, StepModel};
use crate::claude::path::{
    backward_from, backward_step, forward_step, reaches, ForwardPathResult, NodeModel, PathModel,
};
use crate::claude::reader::{
    entry_nodes, first_limit, follow, follow_entry, handed_on, initial, main_event, node_of,
    one_more, op_steps, parent_of, replay, scan, starting_over, EntryModel, FollowEnd, FollowModel,
    ReadErrorModel, ReaderModel, ReaderStepModel, ScanModel,
};
use crate::claude::subagent::{
    after_file, after_tool_result, after_tool_use, agent_at, agent_of_name, agent_read, all_under,
    described, file_agent, file_change, lookup, matched, new_watcher, no_agents, placeholder,
    recognized, stream, under, unmatched_at, ManagerModel, StreamModel, WatcherModel,
};
use crate::json::{field, json_parsed, str_field, JsonModel};
use crate::text::{ends, starts, trimmed};
use crate::text_laws::{law_prefixes, law_suffixes};
use crate::tree::{OpModel, ReaderOpModel};
use vstd::prelude::*;
use vstd::utf8::{decode_utf8, valid_utf8};

verus! {

// ---------------------------------------------------------------------------
// Lines
// ---------------------------------------------------------------------------

/// The next line feed is the first one at or behind a place, and the end of the data where there is
/// none.
pub proof fn law_next_feed(data: Seq<u8>, pos: int)
    requires
        0 <= pos <= data.len(),
    ensures
        pos <= next_feed(data, pos) <= data.len(),
        next_feed(data, pos) < data.len() ==> data[next_feed(data, pos)] == 10,
        forall|j: int| pos <= j < next_feed(data, pos) ==> data[j] != 10,
    decreases data.len() - pos,
{
    if pos < data.len() && data[pos] != 10 {
        law_next_feed(data, pos + 1);
    }
}

/// A line is complete where a line feed ends it, and ends behind the first one; a last line without
/// one is complete only where the data end with a carriage return.
pub proof fn law_complete_lines(data: Seq<u8>, pos: int, feed: int)
    requires
        0 <= pos < data.len(),
    ensures
        pos <= feed < data.len() && data[feed] == 10 && (forall|j: int|
            pos <= j < feed ==> data[j] != 10) ==> line_end(data, pos) == Some(feed + 1),
        (forall|j: int| pos <= j < data.len() ==> data[j] != 10) ==> line_end(data, pos) == (
        if data.last() == 13 {
            Some(data.len() as int)
        } else {
            None
        }),
        line_end(data, data.len() as int) is None,
{
    law_next_feed(data, pos);
    if pos <= feed < data.len() && data[feed] == 10 && (forall|j: int|
        pos <= j < feed ==> data[j] != 10) {
        assert(next_feed(data, pos) == feed) by {
            if next_feed(data, pos) < feed {
                assert(data[next_feed(data, pos)] != 10);
            }
            if feed < next_feed(data, pos) {
                assert(data[feed] != 10);
            }
        }
    }
    if forall|j: int| pos <= j < data.len() ==> data[j] != 10 {
        if next_feed(data, pos) < data.len() {
            assert(data[next_feed(data, pos)] != 10);
        }
    }
}

/// The text of a line is its bytes as text, without the line feeds and carriage returns at its end,
/// and none where they are no text.
pub proof fn law_text_of_a_line(data: Seq<u8>, pos: int, end: int, s: Seq<char>)
    ensures
        !valid_utf8(data.subrange(pos, end)) ==> line_text(data, pos, end) is None,
        valid_utf8(data.subrange(pos, end)) ==> line_text(data, pos, end) == Some(
            bare_line(decode_utf8(data.subrange(pos, end))),
        ),
        bare_line(s.push('\n')) == bare_line(s),
        bare_line(s.push('\r')) == bare_line(s),
        s.len() == 0 || (s.last() != '\n' && s.last() != '\r') ==> bare_line(s) == s,
{
    assert(s.push('\n').drop_last() =~= s);
    assert(s.push('\r').drop_last() =~= s);
}

// ---------------------------------------------------------------------------
// Entries
// ---------------------------------------------------------------------------

/// An entry follows the one that it names as its parent, and else the one that it names as its
/// parent in meaning.
pub proof fn law_parents(obj: JsonModel)
    ensures
        str_field(obj, "parentUuid"@) is Some ==> parent_of(obj) == str_field(obj, "parentUuid"@),
        str_field(obj, "parentUuid"@) is None ==> parent_of(obj) == str_field(
            obj,
            "logicalParentUuid"@,
        ),
        parent_of(obj) is Some && parent_of(obj)->0.len() > 0 ==> awaited(obj) == parent_of(obj),
        parent_of(obj) is None || parent_of(obj)->0.len() == 0 ==> awaited(obj) is None,
{
}

/// An entry with an id is a message: its id, its parent, its place in the file, and whether it
/// carries a tool's result. One without an id is none.
pub proof fn law_entries_as_messages(e: EntryModel)
    ensures
        str_field(e.value, "uuid"@) is None ==> node_of(e) is None,
        str_field(e.value, "uuid"@) is Some ==> ({
            let node = node_of(e);
            &&& node is Some
            &&& node->0.uuid == str_field(e.value, "uuid"@)->0
            &&& node->0.parent == parent_of(e.value)
            &&& node->0.offset == e.offset
            &&& node->0.is_tool_result <==> holds_result(content_of_entry(e.value))
        }),
{
    let content = content_of_entry(e.value);
    if content is Array {
        let blocks = content->Array_0;
        if holds_result(content) {
            let i = choose|i: int|
                0 <= i < blocks.len() && field(#[trigger] blocks[i], "type"@) == Some(
                    JsonModel::Str("tool_result"@),
                );
            assert(str_field(blocks[i], "type"@) == Some("tool_result"@));
        } else {
            assert forall|i: int| 0 <= i < blocks.len() implies str_field(
                #[trigger] blocks[i],
                "type"@,
            ) != Some("tool_result"@) by {
                assert(field(blocks[i], "type"@) != Some(JsonModel::Str("tool_result"@)));
            }
        }
    }
}

/// At first one entry is read where they are taken one at a time; else as many as asked for, and
/// all where that is none.
pub proof fn law_first_limit(n: usize)
    ensures
        first_limit(true, n) == 1,
        n > 0 ==> first_limit(false, n) == n,
        first_limit(false, 0) == usize::MAX,
        n < usize::MAX ==> one_more(n) == n + 1,
        one_more(usize::MAX) == usize::MAX,
{
}

/// A scan ends where no complete line is left, and at a line that is no text, which breaks it.
pub proof fn law_scan_ends(data: Seq<u8>, pos: int, limit: nat, found: Seq<EntryModel>)
    ensures
        line_end(data, pos) is None ==> scan(data, pos, limit, found) == (ScanModel {
            entries: found,
            consumed: pos,
            broken: false,
        }),
        line_end(data, pos) is Some && line_text(data, pos, line_end(data, pos)->0) is None ==> scan(
            data,
            pos,
            limit,
            found,
        ) == (ScanModel { entries: found, consumed: pos, broken: true }),
{
}

/// A scan takes each line that holds an entry with an id, with its place in the file, and passes
/// over the others; it ends behind the line that fills its limit.
pub proof fn law_scan_lines(
    data: Seq<u8>,
    pos: int,
    end: int,
    text: Seq<char>,
    limit: nat,
    found: Seq<EntryModel>,
)
    requires
        line_end(data, pos) == Some(end),
        line_text(data, pos, end) == Some(text),
    ensures
        json_parsed(text) is None || text.len() == 0 || str_field(
            json_parsed(text)->0,
            "uuid"@,
        ) is None ==> scan(data, pos, limit, found) == scan(data, end, limit, found),
        json_parsed(text) is Some && text.len() > 0 && str_field(
            json_parsed(text)->0,
            "uuid"@,
        ) is Some ==> ({
            let more = found.push(
                EntryModel { offset: pos as usize, value: json_parsed(text)->0 },
            );
            &&& more.len() < limit ==> scan(data, pos, limit, found) == scan(data, end, limit, more)
            &&& more.len() >= limit ==> scan(data, pos, limit, found) == (ScanModel {
                entries: more,
                consumed: end,
                broken: false,
            })
        }),
{
}

/// A forward pass takes the entries one after the other: what the path takes does what the entry
/// does, what it drops does nothing, and a call for a rewind ends the pass with that entry's id.
pub proof fn law_forward_pass(
    path: PathModel,
    state: ParseModel,
    entries: Seq<EntryModel>,
    e: EntryModel,
)
    ensures
        ({
            let none = replay(path, state, Seq::empty());
            none.path == path && none.state == state && none.steps.len() == 0 && none.failed is None
        }),
        ({
            let before = replay(path, state, entries);
            let after = replay(path, state, entries.push(e));
            let node = node_of(e)->0;
            let (p, result) = forward_step(before.path, node);
            &&& before.failed is Some ==> after == before
            &&& before.failed is None && result is Ingest ==> {
                let (s, steps) = entry_steps(before.state, e.value);
                &&& after.path == p && after.state == s && after.failed is None
                &&& after.steps == before.steps + steps
            }
            &&& before.failed is None && result is Drop ==> after.path == p && after.state
                == before.state && after.steps == before.steps && after.failed is None
            &&& before.failed is None && result is Rewind ==> after.failed == Some(node.uuid)
                && after.steps == before.steps && after.state == before.state
        }),
{
    assert(entries.push(e).drop_last() =~= entries);
}

/// The first reading scans the file, finds the branch by a pass from its end and takes it by a pass
/// from its start; what was read counts as read only where that went well.
pub proof fn law_first_reading(r: ReaderModel, data: Seq<u8>)
    ensures
        ({
            let found = scan(data, 0, r.limit as nat, Seq::empty());
            let (after, steps, error) = initial(r, data);
            let done = replay(
                backward_from(entry_nodes(found.entries), 0),
                r.state,
                found.entries,
            );
            &&& found.broken ==> after == r && steps.len() == 0 && error == Some(
                ReadErrorModel::NotText,
            )
            &&& !found.broken && done.failed is None ==> {
                &&& error is None
                &&& steps == done.steps
                &&& after.state == done.state && after.path == done.path
                &&& after.byte_offset == found.consumed as usize
                &&& after.waterfall == r.waterfall && after.limit == r.limit
            }
            &&& !found.broken && done.failed is Some ==> {
                &&& error == Some(ReadErrorModel::UnexpectedRewind { uuid: done.failed->0 })
                &&& steps == done.steps
                &&& after.byte_offset == r.byte_offset
            }
        }),
{
}

/// The steps of entries are handed on in order: changes of the tree unless all is quiet, and what
/// concerns agents in any case.
pub proof fn law_handing_on(
    steps: Seq<StepModel>,
    op: OpModel,
    tool_use_id: Seq<char>,
    value: Seq<char>,
    is_result: bool,
    quiet: bool,
)
    ensures
        handed_on(Seq::empty(), quiet) == Seq::<ReaderStepModel>::empty(),
        handed_on(steps.push(StepModel::Op(op)), true) == handed_on(steps, true),
        handed_on(steps.push(StepModel::Op(op)), false) == handed_on(steps, false).push(
            ReaderStepModel::Emit(ReaderOpModel::Tree(op)),
        ),
        handed_on(
            steps.push(StepModel::AgentTool { tool_use_id, value, is_result }),
            quiet,
        ) == handed_on(steps, quiet).push(
            ReaderStepModel::AgentTool { tool_use_id, value, is_result, quiet },
        ),
{
    assert(steps.push(StepModel::Op(op)).drop_last() =~= steps);
    assert(steps.push(StepModel::AgentTool { tool_use_id, value, is_result }).drop_last() =~= steps);
}

/// An entry on the branch does what it does, one off the branch does nothing, and one of another
/// branch asks for a rewind. An entry without an id is on no branch: of what it does, the changes of
/// the tree are taken.
pub proof fn law_following_an_entry(
    path: PathModel,
    state: ParseModel,
    steps: Seq<StepModel>,
    offset: usize,
    obj: JsonModel,
)
    ensures
        ({
            let next = follow_entry(path, state, steps, offset, obj);
            let node = node_of(EntryModel { offset, value: obj });
            let (s, more) = entry_steps(state, obj);
            &&& next.pos == offset
            &&& node is None ==> next.path == path && next.state == s && next.steps == steps
                + more.filter(|x: StepModel| x is Op) && next.end is Done
            &&& node is Some ==> {
                let (p, result) = forward_step(path, node->0);
                &&& next.path == p
                &&& result is Ingest ==> next.state == s && next.steps == steps + more
                    && next.end is Done
                &&& result is Drop ==> next.state == state && next.steps == steps && next.end is Done
                &&& result is Rewind ==> next.state == state && next.steps == steps && next.end
                    == FollowEnd::Rewind(node->0.uuid)
            }
        }),
{
}

/// Following a file goes line by line. An empty line is passed over, and one that is no JSON is
/// left to be read later, with all behind it. One entry ends the reading where they are taken one at
/// a time, and a call for a rewind ends it in any case.
pub proof fn law_following_lines(
    data: Seq<u8>,
    pos: int,
    single: bool,
    path: PathModel,
    state: ParseModel,
    steps: Seq<StepModel>,
)
    ensures
        ({
            let f = follow(data, pos, single, path, state, steps);
            let end = line_end(data, pos);
            let text = line_text(data, pos, end->0);
            let obj = json_parsed(text->0);
            let next = follow_entry(path, state, steps, pos as usize, obj->0);
            let stays = f.path == path && f.state == state && f.steps == steps && f.pos == pos;
            &&& end is None ==> stays && f.end is Done
            &&& end is Some && text is None ==> stays && f.end is NotText
            &&& end is Some && text is Some && text->0.len() == 0 ==> f == follow(
                data,
                end->0,
                single,
                path,
                state,
                steps,
            )
            &&& end is Some && text is Some && text->0.len() > 0 && obj is None ==> stays
                && f.end is Done
            &&& end is Some && text is Some && text->0.len() > 0 && obj is Some ==> {
                &&& !(next.end is Done) ==> f == next
                &&& next.end is Done && single ==> f == (FollowModel { pos: end->0, ..next })
                &&& next.end is Done && !single ==> f == follow(
                    data,
                    end->0,
                    single,
                    next.path,
                    next.state,
                    next.steps,
                )
            }
        }),
{
}

/// New content of a file is followed from where the reading stopped: its steps are handed on, and
/// the reading stops where the following did. A line that is no text is told of, and nothing of it
/// counts as read.
pub proof fn law_new_content(r: ReaderModel, data: Seq<u8>)
    ensures
        ({
            let f = follow(
                data,
                r.byte_offset as int,
                r.waterfall,
                r.path,
                r.state,
                Seq::empty(),
            );
            let (after, steps, error) = main_event(r, data);
            &&& f.end is Done ==> {
                &&& error is None
                &&& steps == handed_on(f.steps, false)
                &&& after.path == f.path && after.state == f.state
                &&& after.byte_offset == f.pos as usize
                &&& after.waterfall == r.waterfall
                &&& !r.waterfall ==> after.limit == r.limit
                &&& r.waterfall && f.pos > r.byte_offset ==> after.limit == one_more(r.limit)
                &&& r.waterfall && f.pos <= r.byte_offset ==> after.limit == r.limit
            }
            &&& f.end is NotText ==> {
                &&& error == Some(ReadErrorModel::NotText)
                &&& steps.len() == 0
                &&& after.byte_offset == r.byte_offset && after.limit == r.limit
            }
        }),
{
}

/// A rewind reads the file again as if it had not been read, and hands on what that gives between a
/// reset and word that it is complete, with the agents looked for anew before that word.
pub proof fn law_rewind_reads_again(r: ReaderModel, data: Seq<u8>, uuid: Seq<char>)
    requires
        follow(data, r.byte_offset as int, r.waterfall, r.path, r.state, Seq::empty()).end
            == FollowEnd::Rewind(uuid),
    ensures
        ({
            let f = follow(
                data,
                r.byte_offset as int,
                r.waterfall,
                r.path,
                r.state,
                Seq::empty(),
            );
            let fresh = ReaderModel {
                state: crate::claude::message::empty_state(),
                path: crate::claude::path::fresh_path(),
                byte_offset: r.byte_offset,
                waterfall: r.waterfall,
                limit: if r.waterfall {
                    one_more(r.limit)
                } else {
                    r.limit
                },
            };
            let (again, found, failed) = initial(fresh, data);
            let (after, steps, error) = main_event(r, data);
            let quiet = handed_on(f.steps, true);
            &&& error is None
            &&& after == again
            &&& failed is None ==> steps == quiet + seq![
                ReaderStepModel::ClearAgents,
                ReaderStepModel::Emit(ReaderOpModel::Reset { id: Some(uuid) }),
            ] + handed_on(found, false) + seq![
                ReaderStepModel::ScanAgents,
                ReaderStepModel::Emit(ReaderOpModel::ResetDone),
            ]
            &&& failed is Some ==> steps == quiet + seq![
                ReaderStepModel::ClearAgents,
                ReaderStepModel::Emit(ReaderOpModel::Reset { id: Some(uuid) }),
            ] + handed_on(found, true)
        }),
{
    let f = follow(data, r.byte_offset as int, r.waterfall, r.path, r.state, Seq::empty());
    let quiet = handed_on(f.steps, true);
    let reset = quiet.push(ReaderStepModel::ClearAgents).push(
        ReaderStepModel::Emit(ReaderOpModel::Reset { id: Some(uuid) }),
    );
    assert(reset =~= quiet + seq![
        ReaderStepModel::ClearAgents,
        ReaderStepModel::Emit(ReaderOpModel::Reset { id: Some(uuid) }),
    ]);
    let again = initial(starting_over(ReaderModel { path: f.path, ..r }), data);
    let all = (reset + handed_on(again.1, false)).push(ReaderStepModel::ScanAgents).push(
        ReaderStepModel::Emit(ReaderOpModel::ResetDone),
    );
    assert(all =~= reset + handed_on(again.1, false) + seq![
        ReaderStepModel::ScanAgents,
        ReaderStepModel::Emit(ReaderOpModel::ResetDone),
    ]);
}

// ---------------------------------------------------------------------------
// The branch
// ---------------------------------------------------------------------------

/// A root is taken once: where nothing is on the branch yet, or where the pass from the end found
/// it there. Another root is dropped.
pub proof fn law_roots(s: PathModel, node: NodeModel)
    requires
        node.parent is None || node.parent->0.len() == 0,
    ensures
        s.root_emitted ==> forward_step(s, node) == (s, ForwardPathResult::Drop),
        !s.root_emitted && (forall|id: Seq<char>| !s.path.contains(id)) ==> forward_step(s, node)
            == (
            (PathModel {
                path: s.path.insert(node.uuid),
                tail: Some(node.uuid),
                root_emitted: true,
                ..s
            }),
            ForwardPathResult::Ingest,
        ),
        !s.root_emitted && (exists|id: Seq<char>| s.path.contains(id)) && s.offsets.contains(
            node.offset,
        ) ==> forward_step(s, node) == (
            (PathModel { root_emitted: true, ..s }),
            ForwardPathResult::Ingest,
        ),
        !s.root_emitted && (exists|id: Seq<char>| s.path.contains(id)) && !s.offsets.contains(
            node.offset,
        ) ==> forward_step(s, node) == (s, ForwardPathResult::Drop),
{
    if forall|id: Seq<char>| !s.path.contains(id) {
        assert(s.path =~= Set::<Seq<char>>::empty());
    }
}

/// What was there before the branch was found and is not on it is dropped.
pub proof fn law_earlier_messages_off_the_branch(s: PathModel, node: NodeModel)
    requires
        node.parent is Some && node.parent->0.len() > 0,
        !node.is_tool_result,
        !s.offsets.contains(node.offset),
        !reaches(s.results, node.parent->0, s.tail),
        s.initial_offset is Some && node.offset < s.initial_offset->0,
    ensures
        forward_step(s, node) == (s, ForwardPathResult::Drop),
{
}

/// A message that the pass from the end found on the branch is taken and is the last of it from
/// then on.
pub proof fn law_found_messages_are_taken(s: PathModel, node: NodeModel)
    requires
        node.parent is Some && node.parent->0.len() > 0,
        !node.is_tool_result,
        s.offsets.contains(node.offset),
    ensures
        forward_step(s, node).1 is Ingest,
        forward_step(s, node).0.tail == Some(node.uuid),
        forward_step(s, node).0.path.contains(node.uuid),
        forward_step(s, node).0.results == s.results,
        forward_step(s, node).0.root_emitted == s.root_emitted,
{
}

/// The pass from the end: the first message that is no tool's result is the tail and on the branch;
/// a message on the branch brings its parent onto it; any other is left out.
pub proof fn law_backward_step(s: PathModel, node: NodeModel)
    ensures
        ({
            let next = backward_step(s, node);
            let on = s.path.contains(node.uuid);
            let tip = !on && s.tail is None && !node.is_tool_result;
            &&& next.initial_offset == (if s.initial_offset is Some {
                s.initial_offset
            } else {
                Some(node.offset)
            })
            &&& next.results == s.results && next.root_emitted == s.root_emitted
            &&& tip ==> next.tail == Some(node.uuid)
            &&& !tip ==> next.tail == s.tail
            &&& on || tip ==> next.offsets == s.offsets.insert(node.offset)
            &&& !on && !tip ==> next.offsets == s.offsets && next.path == s.path
            &&& on || tip ==> forall|id: Seq<char>|
                next.path.contains(id) <==> s.path.contains(id) || id == node.uuid || node.parent
                    == Some(id)
        }),
{
}

// ---------------------------------------------------------------------------
// Entries with their parents first
// ---------------------------------------------------------------------------

/// What is ready is handed out first, in order; without anything ready, the lines that follow are
/// read.
pub proof fn law_ready_entries_first(r: JsonlModel, data: Seq<u8>)
    ensures
        r.queued.len() > 0 ==> received(r, data).1 == Some(r.queued[0]) && !received(r, data).2
            && received(r, data).0 == emitted(
            JsonlModel { queued: r.queued.subrange(1, r.queued.len() as int), ..r },
            r.queued[0].value,
        ),
        r.queued.len() == 0 ==> received(r, data) == next_entry(r, r.byte_offset, data, 0),
{
    if r.queued.len() > 0 {
        assert(r.queued.subrange(1, r.queued.len() as int) =~= r.queued.skip(1));
    }
}

/// Handing out an entry makes its id known and what waited for it ready, behind what already is.
pub proof fn law_handed_out(r: JsonlModel, obj: JsonModel, uuid: Seq<char>)
    requires
        field(obj, "uuid"@) == Some(JsonModel::Str(uuid)),
    ensures
        uuid.len() == 0 ==> emitted(r, obj) == r,
        uuid.len() > 0 ==> emitted(r, obj).seen == r.seen.insert(uuid) && emitted(r, obj).byte_offset
            == r.byte_offset,
        uuid.len() > 0 && r.waiting.contains_key(uuid) ==> emitted(r, obj).queued == r.queued
            + r.waiting[uuid] && emitted(r, obj).waiting == r.waiting.remove(uuid),
        uuid.len() > 0 && !r.waiting.contains_key(uuid) ==> emitted(r, obj).queued == r.queued
            && emitted(r, obj).waiting == r.waiting,
{
}

/// An entry that has to wait waits behind those that wait for the same parent.
pub proof fn law_waiting(r: JsonlModel, parent: Seq<char>, e: EntryModel, other: Seq<char>)
    ensures
        ({
            let after = parked(r, parent, e);
            &&& after.waiting.contains_key(parent)
            &&& after.waiting[parent].last() == e
            &&& r.waiting.contains_key(parent) ==> after.waiting[parent] == r.waiting[parent].push(e)
            &&& !r.waiting.contains_key(parent) ==> after.waiting[parent].len() == 1
            &&& other != parent && r.waiting.contains_key(other) ==> after.waiting.contains_key(
                other,
            ) && after.waiting[other] == r.waiting[other]
            &&& after.seen == r.seen && after.queued == r.queued && after.byte_offset
                == r.byte_offset
        }),
{
}

/// An entry is handed out at once where its parent is known or it has none, and else waits while
/// the reading goes on behind it. Lines that are no entries are passed over.
pub proof fn law_next_entry(
    r: JsonlModel,
    base: usize,
    data: Seq<u8>,
    pos: int,
    end: int,
    text: Seq<char>,
)
    requires
        line_end(data, pos) == Some(end),
        line_text(data, pos, end) == Some(text),
    ensures
        ({
            let r1 = JsonlModel { byte_offset: (base + end) as usize, ..r };
            let obj = json_parsed(text);
            let e = EntryModel { offset: (base + pos) as usize, value: obj->0 };
            let parent = parent_of(obj->0);
            let known = parent is None || parent->0.len() == 0 || r.seen.contains(parent->0);
            &&& obj is None || text.len() == 0 ==> next_entry(r, base, data, pos) == next_entry(
                r1,
                base,
                data,
                end,
            )
            &&& obj is Some && text.len() > 0 && known ==> next_entry(r, base, data, pos) == (
                emitted(r1, obj->0),
                Some(e),
                false,
            )
            &&& obj is Some && text.len() > 0 && !known ==> next_entry(r, base, data, pos)
                == next_entry(parked(r1, parent->0, e), base, data, end)
        }),
{
}

// ---------------------------------------------------------------------------
// Agents
// ---------------------------------------------------------------------------

/// An agent is found by its id, the first one of it.
pub proof fn law_agent_at(agents: Seq<WatcherModel>, id: Seq<char>)
    ensures
        0 <= agent_at(agents, id) <= agents.len(),
        agent_at(agents, id) < agents.len() ==> agents[agent_at(agents, id)].agent_id == id,
        forall|j: int| 0 <= j < agent_at(agents, id) ==> (#[trigger] agents[j]).agent_id != id,
    decreases agents.len(),
{
    if agents.len() > 0 && agents[0].agent_id != id {
        let rest = agents.skip(1);
        law_agent_at(rest, id);
        assert forall|j: int| 0 <= j < agent_at(agents, id) implies (#[trigger] agents[j]).agent_id
            != id by {
            if j > 0 {
                assert(rest[j - 1] == agents[j]);
            }
        }
    }
}

/// An agent that waits for its call is found by its description, the first one of it.
pub proof fn law_unmatched_at(agents: Seq<WatcherModel>, description: Seq<char>)
    ensures
        ({
            let i = unmatched_at(agents, description);
            &&& 0 <= i <= agents.len()
            &&& i < agents.len() ==> agents[i].description == Some(description)
                && agents[i].tool_use_id is None
            &&& forall|j: int|
                0 <= j < i ==> (#[trigger] agents[j]).description != Some(description)
                    || agents[j].tool_use_id is Some
        }),
    decreases agents.len(),
{
    if agents.len() > 0 && !(agents[0].description == Some(description)
        && agents[0].tool_use_id is None) {
        let rest = agents.skip(1);
        law_unmatched_at(rest, description);
        let i = unmatched_at(agents, description);
        assert forall|j: int| 0 <= j < i implies (#[trigger] agents[j]).description != Some(
            description,
        ) || agents[j].tool_use_id is Some by {
            if j > 0 {
                assert(rest[j - 1] == agents[j]);
            }
        }
    }
}

/// A call of the agent tool is noted by its description and given to the first agent that waits for
/// it; no other agent changes. A result is noted by its agent and given to that agent.
pub proof fn law_calls_of_agents(
    m: ManagerModel,
    tool_use_id: Seq<char>,
    description: Seq<char>,
    agent_id: Seq<char>,
)
    ensures
        ({
            let after = after_tool_use(m, tool_use_id, description);
            let i = unmatched_at(m.agents, description);
            &&& after.by_description == m.by_description.insert(description, tool_use_id)
            &&& after.by_agent_id == m.by_agent_id
            &&& after.agents.len() == m.agents.len()
            &&& forall|j: int|
                0 <= j < m.agents.len() && j != i ==> #[trigger] after.agents[j] == m.agents[j]
            &&& i < m.agents.len() ==> after.agents[i] == (WatcherModel {
                tool_use_id: Some(tool_use_id),
                ..m.agents[i]
            })
        }),
        ({
            let after = after_tool_result(m, tool_use_id, agent_id);
            let i = agent_at(m.agents, agent_id);
            &&& after.by_agent_id == m.by_agent_id.insert(agent_id, tool_use_id)
            &&& after.by_description == m.by_description
            &&& after.agents.len() == m.agents.len()
            &&& forall|j: int|
                0 <= j < m.agents.len() && j != i ==> #[trigger] after.agents[j] == m.agents[j]
            &&& i < m.agents.len() ==> after.agents[i] == (WatcherModel {
                tool_use_id: Some(tool_use_id),
                ..m.agents[i]
            })
        }),
{
    law_unmatched_at(m.agents, description);
    law_agent_at(m.agents, agent_id);
}

/// An agent keeps its description and its call. Without a description it takes the one in its file;
/// without a call it takes the one noted by its description, and else the one noted by its id.
pub proof fn law_recognizing(m: ManagerModel, w: WatcherModel, text: Option<Seq<char>>)
    ensures
        ({
            let after = recognized(m, w, text);
            let told = described(text);
            let description = if w.description is Some {
                w.description
            } else {
                told
            };
            let noted = description is Some && m.by_description.contains_key(description->0);
            &&& after.description == description
            &&& w.tool_use_id is Some ==> after.tool_use_id == w.tool_use_id
            &&& w.tool_use_id is None && noted ==> after.tool_use_id == Some(
                m.by_description[description->0],
            )
            &&& w.tool_use_id is None && !noted && m.by_agent_id.contains_key(w.agent_id)
                ==> after.tool_use_id == Some(m.by_agent_id[w.agent_id])
            &&& w.tool_use_id is None && !noted && !m.by_agent_id.contains_key(w.agent_id)
                ==> after.tool_use_id is None
            &&& after.agent_id == w.agent_id && after.placeholder_emitted == w.placeholder_emitted
            &&& after.byte_offset == w.byte_offset && after.parse_state == w.parse_state
        }),
        text is Some && json_parsed(text->0) is Some ==> described(text) == str_field(
            json_parsed(text->0)->0,
            "description"@,
        ),
        text is None || json_parsed(text->0) is None ==> described(text) is None,
{
}

/// A file of a known agent may tell more of it; one of an unknown agent adds it behind the others,
/// with nothing read of its transcript and its nodes named after it.
pub proof fn law_files_of_agents(m: ManagerModel, agent_id: Seq<char>, text: Option<Seq<char>>)
    ensures
        ({
            let after = after_file(m, agent_id, text);
            let i = agent_at(m.agents, agent_id);
            let fresh = new_watcher(agent_id);
            &&& after.by_description == m.by_description && after.by_agent_id == m.by_agent_id
            &&& i < m.agents.len() ==> after.agents == m.agents.update(
                i,
                recognized(m, m.agents[i], text),
            )
            &&& i >= m.agents.len() ==> after.agents == m.agents.push(recognized(m, fresh, text))
            &&& fresh.agent_id == agent_id && fresh.tool_use_id is None && fresh.description is None
            &&& !fresh.placeholder_emitted && fresh.byte_offset == 0
            &&& fresh.parse_state.id_prefix == "sa:"@ + agent_id + ":"@
            &&& fresh.parse_state.pending == Map::<Seq<char>, JsonModel>::empty()
            &&& fresh.parse_state.seen_uuids == Set::<Seq<char>>::empty()
            &&& fresh.parse_state.seen_block_ids == Set::<Seq<char>>::empty()
        }),
{
}

/// The files of an agent are named after it.
pub proof fn law_names_of_agent_files(id: Seq<char>, suffix: Seq<char>, name: Seq<char>)
    ensures
        agent_of_name("agent-"@ + (id + suffix), suffix) == Some(id),
        !starts(name, "agent-"@) ==> agent_of_name(name, suffix) is None && file_agent(name) is None,
        file_agent("agent-"@ + (id + ".meta.json"@)) == Some(id),
        agent_of_name(name, ".meta.json"@) is None ==> file_agent(name) == agent_of_name(
            name,
            ".jsonl"@,
        ),
{
    law_prefixes("agent-"@, id + suffix, name);
    law_suffixes(id, suffix, name);
    law_prefixes("agent-"@, id + ".meta.json"@, name);
    law_suffixes(id, ".meta.json"@, name);
}

/// What an agent appends is put under its call, and its other changes stay as they are.
pub proof fn law_under_the_call(op: OpModel, parent: Seq<char>, ops: Seq<OpModel>)
    ensures
        op is Append ==> under(op, parent) == (OpModel::Append {
            parent_id: Some(parent),
            message: op->Append_message,
        }),
        !(op is Append) ==> under(op, parent) == op,
        all_under(ops, parent).len() == ops.len(),
        forall|i: int|
            0 <= i < ops.len() ==> #[trigger] all_under(ops, parent)[i] == under(ops[i], parent),
{
}

/// The complete lines of an agent's transcript do one after the other what their entries do, under
/// the agent's call; lines that are no JSON are passed over, and one that is no text breaks it off.
pub proof fn law_stream_of_an_agent(
    data: Seq<u8>,
    pos: int,
    state: ParseModel,
    ops: Seq<OpModel>,
    parent: Seq<char>,
)
    ensures
        ({
            let end = line_end(data, pos);
            let text = line_text(data, pos, end->0);
            let obj = json_parsed(trimmed(text->0));
            let all = stream(data, pos, state, ops, parent);
            &&& end is None ==> all == (StreamModel { state, ops, pos, broken: false })
            &&& end is Some && text is None ==> all == (StreamModel {
                state,
                ops,
                pos,
                broken: true,
            })
            &&& end is Some && text is Some && obj is None ==> all == stream(
                data,
                end->0,
                state,
                ops,
                parent,
            )
            &&& end is Some && text is Some && obj is Some ==> {
                let (s, steps) = entry_steps(state, obj->0);
                all == stream(data, end->0, s, ops + all_under(ops_among(steps), parent), parent)
            }
        }),
{
}

/// Until its result comes, a node under its call stands for an agent and tells the agent's id.
pub proof fn law_placeholder(agent_id: Seq<char>, tool_use_id: Seq<char>)
    ensures
        ({
            let op = placeholder(agent_id, tool_use_id);
            let node = op->Append_message;
            &&& op is Append
            &&& op->parent_id == Some("tool_call:"@ + tool_use_id)
            &&& node.id == "task_summary:"@ + tool_use_id
            &&& node.text == Some("Agent ID: "@ + agent_id)
            &&& node.message_type is TaskSummary
            &&& node.data.len() == 0 && node.tag is None && node.children.len() == 0
        }),
{
}

/// Once an agent has its call, its placeholder comes first, if it has not come, and then what its
/// transcript has got since the last reading.
pub proof fn law_reading_an_agent(w: WatcherModel, tool: Seq<char>, data: Seq<u8>)
    requires
        w.tool_use_id == Some(tool),
    ensures
        ({
            let first = if w.placeholder_emitted {
                Seq::<OpModel>::empty()
            } else {
                seq![placeholder(w.agent_id, tool)]
            };
            let read = stream(
                data,
                w.byte_offset as int,
                w.parse_state,
                first,
                "tool_call:"@ + tool,
            );
            let (after, ops, broken) = agent_read(w, Some(data));
            let (unread, only, fine) = agent_read(w, None);
            &&& ops == read.ops && broken == read.broken
            &&& after.placeholder_emitted && after.byte_offset == read.pos as usize
            &&& after.parse_state == read.state
            &&& after.agent_id == w.agent_id && after.tool_use_id == w.tool_use_id
            &&& after.description == w.description
            &&& only == first && !fine && unread == (WatcherModel { placeholder_emitted: true, ..w })
        }),
{
}

/// A change of a file that is no agent's does nothing. One of an agent's notes the agent and then
/// reads its transcript.
pub proof fn law_changes_of_files(
    m: ManagerModel,
    name: Seq<char>,
    text: Option<Seq<char>>,
    data: Option<Seq<u8>>,
)
    ensures
        file_agent(name) is None ==> file_change(m, name, text, data) == (
            m,
            Seq::<OpModel>::empty(),
            false,
        ),
        file_agent(name) is Some ==> ({
            let id = file_agent(name)->0;
            let noted = after_file(m, id, text);
            let i = agent_at(noted.agents, id);
            let (after, ops, broken) = agent_read(noted.agents[i], data);
            i < noted.agents.len() ==> file_change(m, name, text, data) == (
                (ManagerModel { agents: noted.agents.update(i, after), ..noted }),
                ops,
                broken,
            )
        }),
{
}

/// Before any call and any file no agent is known.
pub proof fn law_without_agents(id: Seq<char>)
    ensures
        no_agents().agents.len() == 0,
        !no_agents().by_description.contains_key(id),
        !no_agents().by_agent_id.contains_key(id),
{
}

/// A reader starts at the beginning, knowing no entry and waiting for none.
pub proof fn law_start_of_a_file(id: Seq<char>)
    ensures
        fresh_reader().byte_offset == 0,
        !fresh_reader().seen.contains(id),
        fresh_reader().queued.len() == 0,
        !fresh_reader().waiting.contains_key(id),
{
}

} // verus!
