//! The key bindings, as nodes.
use crate::text::{
    concat2, concat3, decimal, decimal_text, lower_of, pad, padded, replace_char, replaced,
    text_lower,
};
use crate::tree::{blank, message_views, MessageModel, MessageState, MessageType};
use vstd::prelude::*;
use vstd::string::*;

verus! {

broadcast use vstd::string::group_string_axioms;

/// What keys and their descriptions hold.
pub open spec fn pair_views(pairs: Seq<(&'static str, &'static str)>) -> Seq<
    (Seq<char>, Seq<char>),
> {
    pairs.map_values(|p: (&'static str, &'static str)| (p.0@, p.1@))
}

/// The bindings under "In-chat".
pub open spec fn in_chat() -> Seq<(Seq<char>, Seq<char>)> {
    seq![
        ("Ctrl-O"@, "Exit chat mode"@),
    ]
}

fn list_in_chat() -> (r: Vec<(&'static str, &'static str)>)
    ensures
        pair_views(r@) == in_chat(),
{
    let r: Vec<(&'static str, &'static str)> = vec![
        ("Ctrl-O", "Exit chat mode"),
    ];
    assert(pair_views(r@) =~= in_chat());
    r
}

/// The bindings under "Chat session".
pub open spec fn chat_session() -> Seq<(Seq<char>, Seq<char>)> {
    seq![
        ("Ctrl-Y"@, "Resume / launch session"@),
        ("Ctrl-X"@, "Open session picker"@),
        ("Ctrl-K"@, "Kill session"@),
        ("Ctrl-M"@, "Send Ctrl-O to terminal"@),
    ]
}

fn list_chat_session() -> (r: Vec<(&'static str, &'static str)>)
    ensures
        pair_views(r@) == chat_session(),
{
    let r: Vec<(&'static str, &'static str)> = vec![
        ("Ctrl-Y", "Resume / launch session"),
        ("Ctrl-X", "Open session picker"),
        ("Ctrl-K", "Kill session"),
        ("Ctrl-M", "Send Ctrl-O to terminal"),
    ];
    assert(pair_views(r@) =~= chat_session());
    r
}

/// The bindings under "Navigation".
pub open spec fn navigation() -> Seq<(Seq<char>, Seq<char>)> {
    seq![
        ("h / l"@, "Select parent / child"@),
        ("j / k"@, "Select next / previous"@),
        ("Ctrl-D / Ctrl-U"@, "Scroll half page down / up"@),
        ("Ctrl-N / Ctrl-P"@, "Scroll 3 lines down / up"@),
        ("g / G"@, "Jump to first / last item"@),
        ("H / M / L"@, "Select top / middle / bottom of viewport"@),
        ("zt / zz / zb"@, "Scroll selection to top / middle / bottom"@),
        ("]] / ]["@, "Next turn start / end"@),
        ("[[ / []"@, "Prev turn start / end"@),
        (") / ("@, "Next / prev message group start"@),
        ("} / {"@, "Next / prev user or agent message"@),
        ("m<char> / dm<char>"@, "Set / delete mark on current message"@),
        ("'<char> / `<char>"@, "Go to mark"@),
        ("Ctrl-T"@, "Pop jump list (return to previous position)"@),
    ]
}

fn list_navigation() -> (r: Vec<(&'static str, &'static str)>)
    ensures
        pair_views(r@) == navigation(),
{
    let r: Vec<(&'static str, &'static str)> = vec![
        ("h / l", "Select parent / child"),
        ("j / k", "Select next / previous"),
        ("Ctrl-D / Ctrl-U", "Scroll half page down / up"),
        ("Ctrl-N / Ctrl-P", "Scroll 3 lines down / up"),
        ("g / G", "Jump to first / last item"),
        ("H / M / L", "Select top / middle / bottom of viewport"),
        ("zt / zz / zb", "Scroll selection to top / middle / bottom"),
        ("]] / ][", "Next turn start / end"),
        ("[[ / []", "Prev turn start / end"),
        (") / (", "Next / prev message group start"),
        ("} / {", "Next / prev user or agent message"),
        ("m<char> / dm<char>", "Set / delete mark on current message"),
        ("'<char> / `<char>", "Go to mark"),
        ("Ctrl-T", "Pop jump list (return to previous position)"),
    ];
    assert(pair_views(r@) =~= navigation());
    r
}

/// The bindings under "Drill-down".
pub open spec fn drill_down() -> Seq<(Seq<char>, Seq<char>)> {
    seq![
        ("Space"@, "Cycle display / toggle show-more"@),
        ("r"@, "Open raw data view for selected message"@),
        ("Enter"@, "Toggle expand"@),
        ("o / c"@, "Expand / collapse selected node"@),
        ("O / C"@, "Expand+reveal hidden children / collapse+hide revealed"@),
        ("J / K"@, "Reveal next / prev 5 hidden nodes"@),
        ("zJ / zK"@, "Reveal all hidden and jump past run (fwd / back)"@),
        ("zh"@, "Reveal all hidden nodes; again to hide all revealed"@),
        ("Y / yy"@, "Copy markdown"@),
        ("yt"@, "Copy plain text"@),
        ("yr"@, "Copy raw"@),
    ]
}

fn list_drill_down() -> (r: Vec<(&'static str, &'static str)>)
    ensures
        pair_views(r@) == drill_down(),
{
    let r: Vec<(&'static str, &'static str)> = vec![
        ("Space", "Cycle display / toggle show-more"),
        ("r", "Open raw data view for selected message"),
        ("Enter", "Toggle expand"),
        ("o / c", "Expand / collapse selected node"),
        ("O / C", "Expand+reveal hidden children / collapse+hide revealed"),
        ("J / K", "Reveal next / prev 5 hidden nodes"),
        ("zJ / zK", "Reveal all hidden and jump past run (fwd / back)"),
        ("zh", "Reveal all hidden nodes; again to hide all revealed"),
        ("Y / yy", "Copy markdown"),
        ("yt", "Copy plain text"),
        ("yr", "Copy raw"),
    ];
    assert(pair_views(r@) =~= drill_down());
    r
}

/// The bindings under "Table mode".
pub open spec fn table_mode() -> Seq<(Seq<char>, Seq<char>)> {
    seq![
        ("h / j / k / l"@, "Navigate"@),
        ("+ / -"@, "Resize column wider / narrower"@),
        ("0"@, "Reset table layout"@),
        ("Esc"@, "Exit table mode"@),
    ]
}

fn list_table_mode() -> (r: Vec<(&'static str, &'static str)>)
    ensures
        pair_views(r@) == table_mode(),
{
    let r: Vec<(&'static str, &'static str)> = vec![
        ("h / j / k / l", "Navigate"),
        ("+ / -", "Resize column wider / narrower"),
        ("0", "Reset table layout"),
        ("Esc", "Exit table mode"),
    ];
    assert(pair_views(r@) =~= table_mode());
    r
}

/// The bindings under "Info & Debug".
pub open spec fn info_and_debug() -> Seq<(Seq<char>, Seq<char>)> {
    seq![
        ("Shift-I"@, "Open session info view"@),
        ("?"@, "Open this key shortcuts view"@),
        ("!s"@, "Toggle debug info in status bar"@),
        ("!l"@, "Open reader log view"@),
        ("!L"@, "Enable debug file logging"@),
        ("!r"@, "Restart reader (with confirm)"@),
    ]
}

fn list_info_and_debug() -> (r: Vec<(&'static str, &'static str)>)
    ensures
        pair_views(r@) == info_and_debug(),
{
    let r: Vec<(&'static str, &'static str)> = vec![
        ("Shift-I", "Open session info view"),
        ("?", "Open this key shortcuts view"),
        ("!s", "Toggle debug info in status bar"),
        ("!l", "Open reader log view"),
        ("!L", "Enable debug file logging"),
        ("!r", "Restart reader (with confirm)"),
    ];
    assert(pair_views(r@) =~= info_and_debug());
    r
}

/// The part of ids that a category stands for.
pub open spec fn category_id(label: Seq<char>) -> Seq<char> {
    "shortcuts."@ + replaced(text_lower(label), ' ', '_')
}

/// The node of a binding: the keys, filled up to a width, and what they do.
pub open spec fn binding_node(category: Seq<char>, i: int, binding: (Seq<char>, Seq<char>)) -> MessageModel {
    MessageModel {
        text: Some(padded(binding.0, 16) + binding.1),
        message_type: MessageType::Other,
        tag: Some("shortcut"@),
        ..blank(category + "."@ + decimal(i as nat))
    }
}

/// The node of a category, with its bindings below it.
pub open spec fn category_node(label: Seq<char>, bindings: Seq<(Seq<char>, Seq<char>)>) -> MessageModel {
    MessageModel {
        text: Some(label),
        message_type: MessageType::Other,
        tag: Some("category"@),
        expanded: true,
        indent_children: true,
        children: Seq::new(
            bindings.len(),
            |i: int| binding_node(category_id(label), i, bindings[i]),
        ),
        ..blank(category_id(label))
    }
}

fn make_category(label: &str, bindings: &Vec<(&'static str, &'static str)>) -> (r: MessageState)
    ensures
        r@ == category_node(label@, pair_views(bindings@)),
{
    let id = concat2("shortcuts.", replace_char(lower_of(label).as_str(), ' ', '_').as_str());
    let ghost all = category_node(label@, pair_views(bindings@)).children;
    let mut children: Vec<MessageState> = Vec::new();
    let mut i: usize = 0;
    while i < bindings.len()
        invariant
            i <= bindings@.len(),
            id@ == category_id(label@),
            all == category_node(label@, pair_views(bindings@)).children,
            all.len() == bindings@.len(),
            message_views(children@) == all.take(i as int),
        decreases bindings@.len() - i,
    {
        let (key, desc) = bindings[i];
        let child_id = concat3(id.as_str(), ".", decimal_text(i as u64).as_str());
        let text = concat2(pad(key, 16).as_str(), desc);
        let child = MessageState::new(child_id).text(text.as_str()).message_type(
            MessageType::Other,
        ).tag("shortcut");
        let ghost before = children@;
        children.push(child);
        proof {
            assert(all[i as int] == binding_node(category_id(label@), i as int, (key@, desc@)));
            assert(message_views(children@) =~= message_views(before).push(child@));
            assert(all.take(i + 1) =~= all.take(i as int).push(child@));
        }
        i = i + 1;
    }
    assert(all.take(bindings@.len() as int) =~= all);
    MessageState::new(id).text(label).message_type(MessageType::Other).tag("category").expanded(
        true,
    ).indent_children(true).children(children)
}

/// The nodes of all bindings, by category.
pub open spec fn shortcut_nodes() -> Seq<MessageModel> {
    seq![
        category_node("In-chat"@, in_chat()),
        category_node("Chat session"@, chat_session()),
        category_node("Navigation"@, navigation()),
        category_node("Drill-down"@, drill_down()),
        category_node("Table mode"@, table_mode()),
        category_node("Info & Debug"@, info_and_debug()),
    ]
}

/// The nodes of all bindings, by category.
pub fn build_key_shortcuts_nodes() -> (r: Vec<MessageState>)
    ensures
        message_views(r@) == shortcut_nodes(),
{
    let mut nodes: Vec<MessageState> = Vec::new();
    nodes.push(make_category("In-chat", &list_in_chat()));
    nodes.push(make_category("Chat session", &list_chat_session()));
    nodes.push(make_category("Navigation", &list_navigation()));
    nodes.push(make_category("Drill-down", &list_drill_down()));
    nodes.push(make_category("Table mode", &list_table_mode()));
    nodes.push(make_category("Info & Debug", &list_info_and_debug()));
    assert(message_views(nodes@) =~= shortcut_nodes());
    nodes
}

} // verus!
