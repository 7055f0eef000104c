//! What is known of a session, as nodes.
use crate::clock::{can_show, full_format, show_full, time_text};
use crate::providers::{EntryModel, ProviderKind, ProviderNames, TranscriptEntry};
use crate::text::{
    chars_of, concat2, concat3, decimal, decimal_text, lower_of, pass_char, replace_char, replaced,
    skip_char, string_of_range, text_lower,
};
use crate::tree::{blank, message_views, text_opt, MessageModel, MessageState, MessageType};
use vstd::prelude::*;
use vstd::string::*;

verus! {

broadcast use vstd::string::group_string_axioms;

// ---------------------------------------------------------------------------
// Sizes
// ---------------------------------------------------------------------------

/// The whole number nearest to `a / b`, the even one of two.
pub open spec fn half_even(a: nat, b: nat) -> nat {
    let q = a / b;
    let r = a % b;
    if 2 * r > b || (2 * r == b && q % 2 == 1) {
        q + 1
    } else {
        q
    }
}

/// The distance of the numbers next to `n` that 53 binary digits can tell apart.
pub open spec fn double_step(n: nat) -> nat
    decreases n,
{
    if n < 0x20_0000_0000_0000 {
        1
    } else {
        2 * double_step(n / 2)
    }
}

/// The number nearest to `n` of 53 binary digits.
pub open spec fn in_double(n: nat) -> nat {
    half_even(n, double_step(n)) * double_step(n)
}

/// A number of tenths.
pub open spec fn tenths_text(t: nat) -> Seq<char> {
    decimal(t / 10) + "."@ + decimal(t % 10)
}

/// A size as it is shown: bytes, or kilobytes or megabytes with one digit behind the point.
pub open spec fn size_text(bytes: u64) -> Seq<char> {
    if bytes < 1024 {
        decimal(bytes as nat) + " B"@
    } else if bytes < 1024 * 1024 {
        tenths_text(half_even(10 * in_double(bytes as nat), 1024)) + " KB"@
    } else {
        tenths_text(half_even(10 * in_double(bytes as nat), 1_048_576)) + " MB"@
    }
}

fn round_half_even(a: u128, b: u128) -> (r: u128)
    requires
        0 < b <= 0x1_0000_0000_0000_0000,
    ensures
        r == half_even(a as nat, b as nat),
{
    let q = a / b;
    let rest = a % b;
    if 2 * rest > b || (2 * rest == b && q % 2 == 1) {
        proof {
            if q == u128::MAX {
                assert(a / b == u128::MAX && a % b > 0 ==> false) by (nonlinear_arith)
                    requires
                        0 < b,
                        a <= u128::MAX,
                ;
            }
        }
        q + 1
    } else {
        q
    }
}

proof fn lemma_step(n: nat)
    requires
        n <= u64::MAX,
    ensures
        1 <= double_step(n) <= 2048,
{
    reveal_with_fuel(double_step, 13);
}

fn find_step(n: u64) -> (r: u128)
    ensures
        r == double_step(n as nat),
        1 <= r <= 2048,
    decreases n,
{
    proof {
        lemma_step(n as nat);
    }
    if n < 0x20_0000_0000_0000 {
        1
    } else {
        2 * find_step(n / 2)
    }
}

fn show_tenths(t: u128) -> (r: String)
    requires
        t / 10 <= u64::MAX,
    ensures
        r@ == tenths_text(t as nat),
{
    concat3(
        decimal_text((t / 10) as u64).as_str(),
        ".",
        decimal_text((t % 10) as u64).as_str(),
    )
}

/// A size as it is shown.
pub fn format_size(bytes: u64) -> (r: String)
    ensures
        r@ == size_text(bytes),
{
    if bytes < 1024 {
        return concat2(decimal_text(bytes).as_str(), " B");
    }
    let step = find_step(bytes);
    let count = round_half_even(bytes as u128, step);
    proof {
        assert(count * step <= 0x1_0000_0000_0000_0000 + 2048) by (nonlinear_arith)
            requires
                count <= bytes as u128 / step + 1,
                bytes <= u64::MAX,
                1 <= step <= 2048,
        ;
    }
    let n = count * step;
    assert(n == in_double(bytes as nat));
    if bytes < 1024 * 1024 {
        concat2(show_tenths(round_half_even(10 * n, 1024)).as_str(), " KB")
    } else {
        concat2(show_tenths(round_half_even(10 * n, 1_048_576)).as_str(), " MB")
    }
}

// ---------------------------------------------------------------------------
// Rows
// ---------------------------------------------------------------------------

/// The part of ids that a label stands for.
pub open spec fn label_id(label: Seq<char>) -> Seq<char> {
    replaced(text_lower(label), ' ', '_')
}

/// A label, with its value below it.
pub open spec fn row_node(label: Seq<char>, value: Seq<char>) -> MessageModel {
    let id = "info."@ + label_id(label);
    MessageModel {
        text: Some(label),
        data: "label"@,
        message_type: MessageType::Other,
        tag: Some("label"@),
        expanded: true,
        children: seq![
            MessageModel {
                text: Some(value),
                data: "value"@,
                message_type: MessageType::Other,
                tag: Some("value"@),
                ..blank(id + ".value"@)
            },
        ],
        ..blank(id)
    }
}

/// A label, with its value below it.
pub fn info_row(label: &str, value: &str) -> (r: MessageState)
    ensures
        r@ == row_node(label@, value@),
{
    let id = concat2("info.", replace_char(lower_of(label).as_str(), ' ', '_').as_str());
    let child = MessageState::new(concat2(id.as_str(), ".value")).text(value).data(
        "value".to_owned(),
    ).message_type(MessageType::Other).tag("value");
    let mut children: Vec<MessageState> = Vec::new();
    let ghost child_model = child@;
    children.push(child);
    assert(message_views(children@) =~= seq![child_model]);
    MessageState::new(id).text(label).data("label".to_owned()).message_type(
        MessageType::Other,
    ).tag("label").children(children).expanded(true)
}

/// The path of the readable transcript beside a database: below the directory that is named after
/// the workspace, with hyphens for its slashes.
pub open spec fn readable_path(e: EntryModel, home: Option<Seq<char>>) -> Option<Seq<char>> {
    if e.provider != ProviderKind::Cursor || e.workspace_path is None || home is None {
        None
    } else {
        Some(
            home->0 + "/.cursor/projects/"@ + replaced(skip_char(e.workspace_path->0, '/'), '/', '-')
                + "/agent-transcripts/"@ + e.id + "/"@ + e.id + ".jsonl"@,
        )
    }
}

/// The path of the readable transcript beside a database.
pub fn cursor_jsonl_path(entry: &TranscriptEntry, home: Option<&str>) -> (r: Option<String>)
    ensures
        text_opt(r) == readable_path(
            entry@,
            match home {
                Some(h) => Some(h@),
                None => None,
            },
        ),
{
    match entry.provider {
        ProviderKind::Cursor => {},
        ProviderKind::Claude => {
            return None;
        },
    }
    match (&entry.workspace_path, home) {
        (Some(workspace), Some(home)) => {
            let v = chars_of(workspace.as_str());
            let from = pass_char(&v, 0, v.len(), '/');
            let rest = string_of_range(&v, from, v.len());
            assert(v@.subrange(0, v@.len() as int) =~= v@);
            let mut r = concat3(
                home,
                "/.cursor/projects/",
                replace_char(rest.as_str(), '/', '-').as_str(),
            );
            r.append("/agent-transcripts/");
            r.append(entry.id.as_str());
            r.append("/");
            r.append(entry.id.as_str());
            r.append(".jsonl");
            Some(r)
        },
        _ => None,
    }
}

/// Where the user is: the home directory, and how many seconds the clock is ahead of UTC at the
/// times of an entry.
#[derive(Clone, Copy, Debug, PartialEq)]
pub struct Place<'a> {
    pub home: Option<&'a str>,
    pub mtime_offset: i32,
    pub updated_offset: i32,
}

/// The home directory's text.
pub open spec fn home_of(place: Place) -> Option<Seq<char>> {
    match place.home {
        Some(h) => Some(h@),
        None => None,
    }
}

/// Whether an entry's times can be shown.
pub open spec fn times_show(e: EntryModel, place: Place) -> bool {
    &&& can_show(e.mtime.secs, place.mtime_offset)
    &&& e.updated_at is Some ==> can_show(e.updated_at->0.secs, place.updated_offset)
}

/// A row where there is a value.
pub open spec fn row_if(label: Seq<char>, value: Option<Seq<char>>) -> Seq<MessageModel> {
    match value {
        Some(v) => seq![row_node(label, v)],
        None => Seq::empty(),
    }
}

/// The rows of a session. Those whose value is not known are left out, but for the workspace.
pub open spec fn info_nodes(e: EntryModel, names: ProviderNames, place: Place) -> Seq<MessageModel> {
    seq![
        row_node("Agent"@, names.display_of(e.provider)),
        row_node("Session ID"@, e.id),
        row_node("Title"@, e.title),
        row_node(
            "Workspace path"@,
            match e.workspace_path {
                Some(p) => p,
                None => "—"@,
            },
        ),
        row_node("Session path"@, e.path),
    ] + row_if("Readable transcript path"@, readable_path(e, home_of(place))) + seq![
        row_node(
            "Last modified"@,
            time_text(e.mtime.secs, place.mtime_offset, full_format()),
        ),
    ] + row_if(
        "Updated at"@,
        match e.updated_at {
            Some(t) => Some(time_text(t.secs, place.updated_offset, full_format())),
            None => None,
        },
    ) + row_if(
        "File size"@,
        match e.size {
            Some(n) => Some(size_text(n)),
            None => None,
        },
    ) + seq![row_node("Message count"@, decimal(e.message_count as nat))] + row_if(
        "Last user message"@,
        e.last_user_message,
    )
}

fn push_row(nodes: &mut Vec<MessageState>, label: &str, value: &str)
    ensures
        message_views(final(nodes)@) == message_views(old(nodes)@) + seq![row_node(label@, value@)],
{
    let ghost before = nodes@;
    let node = info_row(label, value);
    nodes.push(node);
    assert(message_views(nodes@) =~= message_views(before) + seq![node@]);
}

fn push_row_if(nodes: &mut Vec<MessageState>, label: &str, value: &Option<String>)
    ensures
        message_views(final(nodes)@) == message_views(old(nodes)@) + row_if(
            label@,
            text_opt(*value),
        ),
{
    match value {
        Some(v) => push_row(nodes, label, v.as_str()),
        None => {
            assert(message_views(nodes@) =~= message_views(nodes@) + Seq::empty());
        },
    }
}

/// The rows of a session.
pub fn build_session_info_nodes(
    entry: &TranscriptEntry,
    names: &ProviderNames,
    place: Place,
) -> (r: Vec<MessageState>)
    requires
        times_show(entry@, place),
    ensures
        message_views(r@) == info_nodes(entry@, *names, place),
{
    let mut nodes: Vec<MessageState> = Vec::new();
    let ghost e = entry@;
    push_row(&mut nodes, "Agent", entry.provider.display_name(names).as_str());
    push_row(&mut nodes, "Session ID", entry.id.as_str());
    push_row(&mut nodes, "Title", entry.title.as_str());
    let workspace = match &entry.workspace_path {
        Some(p) => p.clone(),
        None => "—".to_owned(),
    };
    push_row(&mut nodes, "Workspace path", workspace.as_str());
    push_row(&mut nodes, "Session path", entry.path.as_str());
    let ghost first = seq![
        row_node("Agent"@, names.display_of(e.provider)),
        row_node("Session ID"@, e.id),
        row_node("Title"@, e.title),
        row_node("Workspace path"@, workspace@),
        row_node("Session path"@, e.path),
    ];
    assert(message_views(nodes@) =~= first);
    let jsonl = cursor_jsonl_path(entry, place.home);
    push_row_if(&mut nodes, "Readable transcript path", &jsonl);
    push_row(
        &mut nodes,
        "Last modified",
        show_full(entry.mtime.secs, place.mtime_offset).as_str(),
    );
    let updated = match entry.updated_at {
        Some(t) => Some(show_full(t.secs, place.updated_offset)),
        None => None,
    };
    push_row_if(&mut nodes, "Updated at", &updated);
    let size = match entry.size {
        Some(n) => Some(format_size(n)),
        None => None,
    };
    push_row_if(&mut nodes, "File size", &size);
    push_row(&mut nodes, "Message count", decimal_text(entry.message_count as u64).as_str());
    push_row_if(&mut nodes, "Last user message", &entry.last_user_message);
    nodes
}

} // verus!
