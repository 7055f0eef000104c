//! Printing a transcript.
use crate::text::{
    chars_of, concat2, concat3, decimal, decimal_text, find_last, join, joined, last_at, lines,
    lines_of, pad, padded, string_of_range, views,
};
use crate::tree::{message_views, MessageModel, MessageState, MessageType, OpModel, TreeOperation};
use vstd::prelude::*;
use vstd::string::*;

verus! {

broadcast use vstd::string::group_string_axioms;

// ---------------------------------------------------------------------------
// Operations
// ---------------------------------------------------------------------------

/// The text that `{:?}` writes for a string.
pub uninterp spec fn quoted_text(s: Seq<char>) -> Seq<char>;

/// Wraps the `Debug` form of `str`, named by `quoted_text`.
#[verifier::external_body]
fn quoted(s: &str) -> (r: String)
    ensures
        r@ == quoted_text(s@),
{
    format!("{:?}", s)
}

/// The line that tells of an operation.
pub open spec fn op_text(op: OpModel) -> Seq<char> {
    match op {
        OpModel::Append { parent_id, message } => "Append  id="@ + padded(message.id, 50)
            + " type="@ + padded(message.message_type.name(), 20) + " parent="@ + quoted_text(
            match parent_id {
                Some(p) => p,
                None => "<root>"@,
            },
        ),
        OpModel::Replace { id, message } => "Replace id="@ + padded(id, 50) + " type="@ + padded(
            message.message_type.name(),
            20,
        ) + " new_id="@ + message.id,
        OpModel::Remove { id } => "Remove  id="@ + id,
        OpModel::Update { id, message } => "Update  id="@ + padded(id, 50) + " type="@
            + message.message_type.name(),
    }
}

/// The line that tells of an operation.
pub fn fmt_op(op: &TreeOperation) -> (r: String)
    ensures
        r@ == op_text(op@),
{
    match op {
        TreeOperation::Append { parent_id, message } => {
            let mut r = concat2("Append  id=", pad(message.id.as_str(), 50).as_str());
            r.append(" type=");
            r.append(pad(message.message_type.variant_name(), 20).as_str());
            r.append(" parent=");
            let parent = match parent_id {
                Some(p) => quoted(p.as_str()),
                None => quoted("<root>"),
            };
            r.append(parent.as_str());
            r
        },
        TreeOperation::Replace { id, message } => {
            let mut r = concat2("Replace id=", pad(id.as_str(), 50).as_str());
            r.append(" type=");
            r.append(pad(message.message_type.variant_name(), 20).as_str());
            r.append(" new_id=");
            r.append(message.id.as_str());
            r
        },
        TreeOperation::Remove { id } => concat2("Remove  id=", id.as_str()),
        TreeOperation::Update { id, message } => {
            let mut r = concat2("Update  id=", pad(id.as_str(), 50).as_str());
            r.append(" type=");
            r.append(message.message_type.variant_name());
            r
        },
    }
}

// ---------------------------------------------------------------------------
// Nodes
// ---------------------------------------------------------------------------

/// A colour of the terminal.
#[derive(Clone, Copy, Debug, PartialEq, Eq, Structural)]
pub enum Ink {
    Plain,
    Cyan,
    Green,
    Yellow,
    Magenta,
    Blue,
    DarkGrey,
    White,
}

/// The colour of a type.
pub open spec fn ink_of(mt: MessageType) -> Ink {
    match mt {
        MessageType::UserMessage => Ink::Cyan,
        MessageType::AgentMessage => Ink::Green,
        MessageType::ToolCall => Ink::Yellow,
        MessageType::ToolResult => Ink::Yellow,
        MessageType::Thinking => Ink::Magenta,
        MessageType::Container => Ink::Blue,
        MessageType::TaskSummary => Ink::Green,
        MessageType::System => Ink::DarkGrey,
        MessageType::Json => Ink::White,
        MessageType::Table => Ink::Cyan,
        MessageType::Other => Ink::White,
    }
}

/// The colour of a type.
pub fn type_color(mt: MessageType) -> (r: Ink)
    ensures
        r == ink_of(mt),
{
    match mt {
        MessageType::UserMessage => Ink::Cyan,
        MessageType::AgentMessage => Ink::Green,
        MessageType::ToolCall => Ink::Yellow,
        MessageType::ToolResult => Ink::Yellow,
        MessageType::Thinking => Ink::Magenta,
        MessageType::Container => Ink::Blue,
        MessageType::TaskSummary => Ink::Green,
        MessageType::System => Ink::DarkGrey,
        MessageType::Json => Ink::White,
        MessageType::Table => Ink::Cyan,
        MessageType::Other => Ink::White,
    }
}

/// The beginning of a text, up to a number of characters.
pub open spec fn beginning(s: Seq<char>, max: nat) -> Seq<char> {
    if s.len() <= max {
        s
    } else {
        s.take(max as int)
    }
}

/// The beginning of a text, up to a number of characters.
pub fn truncate_str(s: &str, max_chars: usize) -> (r: String)
    ensures
        r@ == beginning(s@, max_chars as nat),
{
    let v = chars_of(s);
    if v.len() <= max_chars {
        s.to_owned()
    } else {
        assert(v@.subrange(0, max_chars as int) =~= s@.take(max_chars as int));
        string_of_range(&v, 0, max_chars)
    }
}

/// What stands behind the last pair of colons.
pub open spec fn short_name(full: Seq<char>) -> Seq<char> {
    match last_at(full, "::"@, full.len() - "::"@.len()) {
        Some(i) => full.skip(i + "::"@.len()),
        None => full,
    }
}

fn make_short_name(full: &str) -> (r: String)
    ensures
        r@ == short_name(full@),
{
    let v = chars_of(full);
    let sep = chars_of("::");
    match find_last(&v, &sep) {
        Some(i) => {
            let from: usize = i + sep.len();
            assert(v@.subrange(from as int, v@.len() as int) =~= full@.skip(from as int));
            string_of_range(&v, from, v.len())
        },
        None => full.to_owned(),
    }
}

/// A piece of a printed line.
#[derive(Debug, PartialEq)]
pub struct Piece {
    pub text: String,
    pub ink: Ink,
    pub bold: bool,
}

/// A printed line: how deep it stands, and its pieces.
#[derive(Debug, PartialEq)]
pub struct PrintLine {
    pub depth: usize,
    pub pieces: Vec<Piece>,
}

/// What a piece holds.
#[verifier::ext_equal]
pub struct PieceModel {
    pub text: Seq<char>,
    pub ink: Ink,
    pub bold: bool,
}

/// What a printed line holds.
#[verifier::ext_equal]
pub struct LineModel {
    pub depth: int,
    pub pieces: Seq<PieceModel>,
}

impl View for Piece {
    type V = PieceModel;

    open spec fn view(&self) -> PieceModel {
        PieceModel { text: self.text@, ink: self.ink, bold: self.bold }
    }
}

/// What pieces hold.
pub open spec fn piece_views(pieces: Seq<Piece>) -> Seq<PieceModel> {
    pieces.map_values(|p: Piece| p@)
}

impl View for PrintLine {
    type V = LineModel;

    open spec fn view(&self) -> LineModel {
        LineModel { depth: self.depth as int, pieces: piece_views(self.pieces@) }
    }
}

/// What lines hold.
pub open spec fn line_views(lines: Seq<PrintLine>) -> Seq<LineModel> {
    lines.map_values(|l: PrintLine| l@)
}

/// A piece in a colour.
pub open spec fn in_ink(text: Seq<char>, ink: Ink) -> PieceModel {
    PieceModel { text, ink, bold: false }
}

/// Two spaces, and a piece behind them.
pub open spec fn spaced(text: Seq<char>, ink: Ink) -> Seq<PieceModel> {
    seq![in_ink("  "@, Ink::Plain), in_ink(text, ink)]
}

/// The words for what holds of a node.
pub open spec fn flags_of(m: MessageModel) -> Seq<Seq<char>> {
    let expanded = if m.expanded {
        seq!["expanded"@]
    } else {
        Seq::empty()
    };
    let show_more = if m.show_more {
        seq!["show_more"@]
    } else {
        Seq::empty()
    };
    let group = if m.group {
        seq!["group"@]
    } else {
        Seq::empty()
    };
    let hidden = if m.hidden is Hidden {
        seq!["hidden"@]
    } else {
        Seq::empty()
    };
    expanded + show_more + group + hidden
}

/// The first line of a node: its type, what holds of it, its id, its state, its summary and the
/// number of nodes below it.
pub open spec fn header_of(m: MessageModel) -> Seq<PieceModel> {
    let flags = flags_of(m);
    seq![
        PieceModel { text: m.message_type.name(), ink: ink_of(m.message_type), bold: true },
    ] + (if flags.len() == 0 {
        Seq::empty()
    } else {
        spaced("["@ + joined(flags, ", "@) + "]"@, Ink::DarkGrey)
    }) + spaced("id="@ + m.id, Ink::DarkGrey) + (match m.ui_state {
        Some(full) => spaced("ui="@ + short_name(full), Ink::Cyan),
        None => Seq::empty(),
    }) + (match m.brief {
        Some(b) => spaced("\""@ + beginning(b, 80) + "\""@, Ink::Yellow),
        None => Seq::empty(),
    }) + (if m.children.len() == 0 {
        Seq::empty()
    } else {
        spaced("("@ + decimal(m.children.len()) + " children)"@, Ink::DarkGrey)
    })
}

/// The lines of a text that are printed: the first `n`, cut, and without the empty ones.
pub open spec fn text_lines(lines: Seq<Seq<char>>, n: int, depth: int) -> Seq<LineModel>
    decreases n,
{
    if n <= 0 {
        Seq::empty()
    } else {
        let before = text_lines(lines, n - 1, depth);
        let line = beginning(lines[n - 1], 120);
        if line.len() == 0 {
            before
        } else {
            before.push(LineModel { depth, pieces: spaced(line, Ink::Plain) })
        }
    }
}

/// How many lines of a text are printed.
pub const LINE_LIMIT: usize = 6;

/// The lines of a node's text, and how many more there are.
pub open spec fn body_of(m: MessageModel, depth: int) -> Seq<LineModel> {
    match m.text {
        Some(text) => {
            let all = lines_of(text);
            if all.len() <= LINE_LIMIT {
                text_lines(all, all.len() as int, depth)
            } else {
                text_lines(all, LINE_LIMIT as int, depth).push(
                    LineModel {
                        depth,
                        pieces: spaced(
                            "… ("@ + decimal((all.len() - LINE_LIMIT) as nat) + " more lines)"@,
                            Ink::DarkGrey,
                        ),
                    },
                )
            }
        },
        None => Seq::empty(),
    }
}

/// One level further down, as far as levels can be counted.
pub open spec fn deeper(depth: int) -> int {
    if depth < usize::MAX {
        depth + 1
    } else {
        depth
    }
}

/// The lines of a node, and of the nodes below it.
pub open spec fn node_lines(m: MessageModel, depth: int) -> Seq<LineModel>
    decreases m, 0int,
{
    seq![LineModel { depth, pieces: header_of(m) }] + body_of(m, depth) + nodes_lines(
        m.children,
        m.children.len() as int,
        deeper(depth),
    )
}

/// The lines of the first `n` nodes.
pub open spec fn nodes_lines(nodes: Seq<MessageModel>, n: int, depth: int) -> Seq<LineModel>
    decreases nodes, n,
{
    if n <= 0 || n > nodes.len() {
        Seq::empty()
    } else {
        nodes_lines(nodes, n - 1, depth) + node_lines(nodes[n - 1], depth)
    }
}

fn push_piece(pieces: &mut Vec<Piece>, text: String, ink: Ink)
    ensures
        piece_views(final(pieces)@) == piece_views(old(pieces)@) + spaced(text@, ink),
{
    let ghost before = pieces@;
    pieces.push(Piece { text: "  ".to_owned(), ink: Ink::Plain, bold: false });
    pieces.push(Piece { text, ink, bold: false });
    assert(piece_views(pieces@) =~= piece_views(before) + spaced(text@, ink));
}

fn list_flags(node: &MessageState) -> (r: Vec<String>)
    ensures
        views(r@) == flags_of(node@),
{
    let mut flags: Vec<String> = Vec::new();
    if node.expanded {
        flags.push("expanded".to_owned());
    }
    if node.show_more {
        flags.push("show_more".to_owned());
    }
    if node.group {
        flags.push("group".to_owned());
    }
    if node.hidden.is_hidden() {
        flags.push("hidden".to_owned());
    }
    assert(views(flags@) =~= flags_of(node@));
    flags
}

fn make_header(node: &MessageState) -> (r: Vec<Piece>)
    ensures
        piece_views(r@) == header_of(node@),
{
    let ghost m = node@;
    let mut pieces: Vec<Piece> = Vec::new();
    pieces.push(
        Piece {
            text: node.message_type.variant_name().to_owned(),
            ink: type_color(node.message_type),
            bold: true,
        },
    );
    let ghost parts0 = seq![
        PieceModel { text: m.message_type.name(), ink: ink_of(m.message_type), bold: true },
    ];
    assert(piece_views(pieces@) =~= parts0);
    let flags = list_flags(node);
    let ghost flag_part = if flags_of(m).len() == 0 {
        Seq::empty()
    } else {
        spaced("["@ + joined(flags_of(m), ", "@) + "]"@, Ink::DarkGrey)
    };
    assert(views(flags@).len() == flags@.len());
    if flags.len() > 0 {
        push_piece(&mut pieces, concat3("[", join(&flags, ", ").as_str(), "]"), Ink::DarkGrey);
    }
    assert(piece_views(pieces@) =~= parts0 + flag_part);
    push_piece(&mut pieces, concat2("id=", node.id.as_str()), Ink::DarkGrey);
    let ghost parts1 = parts0 + flag_part + spaced("id="@ + m.id, Ink::DarkGrey);
    let ghost ui_part = match m.ui_state {
        Some(full) => spaced("ui="@ + short_name(full), Ink::Cyan),
        None => Seq::empty(),
    };
    if let Some(full) = &node.ui_state {
        push_piece(
            &mut pieces,
            concat2("ui=", make_short_name(full.as_str()).as_str()),
            Ink::Cyan,
        );
    }
    assert(piece_views(pieces@) =~= parts1 + ui_part);
    let ghost brief_part = match m.brief {
        Some(b) => spaced("\""@ + beginning(b, 80) + "\""@, Ink::Yellow),
        None => Seq::empty(),
    };
    if let Some(b) = &node.brief {
        push_piece(
            &mut pieces,
            concat3("\"", truncate_str(b.as_str(), 80).as_str(), "\""),
            Ink::Yellow,
        );
    }
    assert(piece_views(pieces@) =~= parts1 + ui_part + brief_part);
    assert(m.children.len() == node.children@.len());
    if node.children.len() > 0 {
        push_piece(
            &mut pieces,
            concat3("(", decimal_text(node.children.len() as u64).as_str(), " children)"),
            Ink::DarkGrey,
        );
    }
    assert(piece_views(pieces@) =~= header_of(m));
    pieces
}

fn push_text_line(out: &mut Vec<PrintLine>, depth: usize, text: String, ink: Ink)
    ensures
        line_views(final(out)@) == line_views(old(out)@).push(
            LineModel { depth: depth as int, pieces: spaced(text@, ink) },
        ),
{
    let ghost before = out@;
    let mut pieces: Vec<Piece> = Vec::new();
    push_piece(&mut pieces, text, ink);
    let line = PrintLine { depth, pieces };
    assert(line@.pieces =~= spaced(text@, ink));
    out.push(line);
    assert(line_views(out@) =~= line_views(before).push(line@));
}

fn push_body(out: &mut Vec<PrintLine>, node: &MessageState, depth: usize)
    ensures
        line_views(final(out)@) == line_views(old(out)@) + body_of(node@, depth as int),
{
    let ghost start = line_views(out@);
    match &node.text {
        Some(text) => {
            let found = lines(text.as_str());
            let ghost all = lines_of(text@);
            assert(views(found@).len() == found@.len());
            let limit = if found.len() <= LINE_LIMIT {
                found.len()
            } else {
                LINE_LIMIT
            };
            let mut i: usize = 0;
            assert(line_views(out@) =~= start + text_lines(all, 0, depth as int));
            while i < limit
                invariant
                    i <= limit <= found@.len(),
                    all == views(found@),
                    line_views(out@) == start + text_lines(all, i as int, depth as int),
                decreases limit - i,
            {
                let s = truncate_str(found[i].as_str(), 120);
                assert(all[i as int] == found@[i as int]@);
                let ghost before = text_lines(all, i as int, depth as int);
                if !s.as_str().is_empty() {
                    push_text_line(out, depth, s, Ink::Plain);
                    assert(line_views(out@) =~= start + text_lines(all, i + 1, depth as int));
                }
                i = i + 1;
            }
            if found.len() > LINE_LIMIT {
                let ghost before = line_views(out@);
                let more = concat3(
                    "… (",
                    decimal_text((found.len() - LINE_LIMIT) as u64).as_str(),
                    " more lines)",
                );
                push_text_line(out, depth, more, Ink::DarkGrey);
            }
            assert(line_views(out@) =~= start + body_of(node@, depth as int));
        },
        None => {
            assert(line_views(out@) =~= start + body_of(node@, depth as int));
        },
    }
}

fn push_node(out: &mut Vec<PrintLine>, node: &MessageState, depth: usize)
    ensures
        line_views(final(out)@) == line_views(old(out)@) + node_lines(node@, depth as int),
    decreases node,
{
    let ghost start = line_views(out@);
    let next: usize = if depth < usize::MAX {
        depth + 1
    } else {
        depth
    };
    let header = PrintLine { depth, pieces: make_header(node) };
    let ghost head = header@;
    let ghost before = out@;
    out.push(header);
    assert(line_views(out@) =~= start.push(head));
    push_body(out, node, depth);
    let ghost m = node@;
    let ghost top = start + (seq![head] + body_of(m, depth as int));
    assert(line_views(out@) =~= top);
    let mut i: usize = 0;
    assert(line_views(out@) =~= top + nodes_lines(m.children, 0, next as int));
    while i < node.children.len()
        invariant
            i <= node.children@.len(),
            m == node@,
            m.children == message_views(node.children@),
            next == deeper(depth as int),
            line_views(out@) == top + nodes_lines(m.children, i as int, next as int),
        decreases node.children@.len() - i,
    {
        proof {
            assert(m.children[i as int] == node.children@[i as int]@);
            assert(decreases_to!(*node => node.children));
            assert(decreases_to!(node.children => node.children[i as int]));
        }
        let ghost done = line_views(out@);
        push_node(out, &node.children[i], next);
        proof {
            assert(top + nodes_lines(m.children, i + 1, next as int) =~= top + nodes_lines(
                m.children,
                i as int,
                next as int,
            ) + node_lines(m.children[i as int], next as int));
        }
        i = i + 1;
    }
    assert(line_views(out@) =~= start + node_lines(m, depth as int));
}

/// The lines of a node, and of the nodes below it.
pub fn print_node(node: &MessageState, depth: usize) -> (r: Vec<PrintLine>)
    ensures
        line_views(r@) == node_lines(node@, depth as int),
{
    let mut out: Vec<PrintLine> = Vec::new();
    push_node(&mut out, node, depth);
    assert(line_views(out@) =~= node_lines(node@, depth as int));
    out
}

} // verus!
