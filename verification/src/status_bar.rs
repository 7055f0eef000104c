//! The line at the bottom of the screen.
use crate::app::mode::{AppMode, ConfirmKind, ConfirmModel, ModeModel};
use crate::text::{chars_of, concat2, concat3, decimal, decimal_text, join, joined, views};
use crate::tree::text_opt;
use vstd::prelude::*;
use vstd::string::*;

verus! {

broadcast use vstd::string::group_string_axioms;

/// The rows of the tool's screen that are shown while it is folded.
#[derive(Clone, Copy, Debug, PartialEq, Eq, Structural)]
pub struct CollapsedCrop {
    pub start_row: u16,
    pub height: u16,
}

/// What the line tells of the transcript.
#[derive(Debug, PartialEq)]
pub struct TreeStatus {
    pub top_index: Vec<usize>,
    pub top_offset: usize,
    pub selection_index: Vec<usize>,
    pub at_bottom: bool,
    /// Whether the selection, rather than the top of the screen, is held in place.
    pub selection_first: bool,
    pub node_type: String,
    pub node_id: String,
    /// Whether the tool is selected.
    pub terminal_selected: bool,
    /// The keys of a sequence that is not complete.
    pub pending_prefix: Option<String>,
    /// Whether what is looked for is not found.
    pub no_match: bool,
}

/// What the line goes by.
#[derive(Debug, PartialEq)]
pub struct StatusBar {
    /// A message, and whether it is a warning.
    pub flash: Option<(String, bool)>,
    pub mode: AppMode,
    pub terminal_live: bool,
    pub terminal_expanded: bool,
    pub data_view_open: bool,
    pub debug: bool,
    pub tree: TreeStatus,
    pub session_label: Option<String>,
    pub collapsed_crop: Option<CollapsedCrop>,
    pub pending_app_key: Option<char>,
    pub prompt_pinned: bool,
}

/// How a piece of the line is shown.
#[derive(Clone, Copy, Debug, PartialEq, Eq, Structural)]
pub enum HintInk {
    Key,
    Text,
    Pending,
    Pinned,
}

/// A piece of the line.
#[derive(Debug, PartialEq)]
pub struct HintSpan {
    pub text: String,
    pub ink: HintInk,
}

/// What a piece holds.
pub open spec fn span_views(spans: Seq<HintSpan>) -> Seq<(Seq<char>, HintInk)> {
    spans.map_values(|s: HintSpan| (s.text@, s.ink))
}

/// The first `i` keys and what they do, as pieces.
pub open spec fn pair_spans(pairs: Seq<(&'static str, &'static str)>, i: int) -> Seq<
    (Seq<char>, HintInk),
>
    decreases i,
{
    if i <= 0 {
        Seq::empty()
    } else {
        let before = pair_spans(pairs, i - 1);
        let gap = if i > 1 {
            seq![("  "@, HintInk::Text)]
        } else {
            Seq::empty()
        };
        before + gap + seq![
            ("["@ + pairs[i - 1].0@ + "]"@, HintInk::Key),
            (" "@ + pairs[i - 1].1@, HintInk::Text),
        ]
    }
}

/// Keys and what they do, with a space at the outer end.
pub open spec fn hint_spans(pairs: Seq<(&'static str, &'static str)>, right: bool) -> Seq<
    (Seq<char>, HintInk),
> {
    let all = pair_spans(pairs, pairs.len() as int);
    if right {
        all + seq![(" "@, HintInk::Text)]
    } else {
        seq![(" "@, HintInk::Text)] + all
    }
}

fn push_span(spans: &mut Vec<HintSpan>, text: String, ink: HintInk)
    ensures
        span_views(final(spans)@) == span_views(old(spans)@) + seq![(text@, ink)],
{
    let ghost before = spans@;
    spans.push(HintSpan { text, ink });
    assert(span_views(spans@) =~= span_views(before) + seq![(text@, ink)]);
}

/// Keys and what they do, as the line shows them.
pub fn hints(pairs: &Vec<(&'static str, &'static str)>, right: bool) -> (r: Vec<HintSpan>)
    ensures
        span_views(r@) == hint_spans(pairs@, right),
{
    let mut spans: Vec<HintSpan> = Vec::new();
    if !right {
        push_span(&mut spans, " ".to_owned(), HintInk::Text);
    }
    let ghost start = span_views(spans@);
    let mut i: usize = 0;
    assert(span_views(spans@) =~= start + pair_spans(pairs@, 0));
    while i < pairs.len()
        invariant
            i <= pairs@.len(),
            span_views(spans@) == start + pair_spans(pairs@, i as int),
        decreases pairs@.len() - i,
    {
        let (key, desc) = pairs[i];
        if i > 0 {
            push_span(&mut spans, "  ".to_owned(), HintInk::Text);
        }
        push_span(&mut spans, concat3("[", key, "]"), HintInk::Key);
        push_span(&mut spans, concat2(" ", desc), HintInk::Text);
        i = i + 1;
        assert(span_views(spans@) =~= start + pair_spans(pairs@, i as int));
    }
    if right {
        push_span(&mut spans, " ".to_owned(), HintInk::Text);
        assert(start =~= Seq::empty());
        assert(span_views(spans@) =~= hint_spans(pairs@, right));
    } else {
        assert(start =~= seq![(" "@, HintInk::Text)]);
    }
    spans
}

/// The cells that pieces take.
pub open spec fn spans_width(spans: Seq<(Seq<char>, HintInk)>) -> nat
    decreases spans.len(),
{
    if spans.len() == 0 {
        0
    } else {
        spans_width(spans.drop_last()) + spans.last().0.len()
    }
}

/// The cells that pieces take, as far as they can be counted.
pub fn line_display_width(spans: &Vec<HintSpan>) -> (r: u16)
    ensures
        r == (if spans_width(span_views(spans@)) <= u16::MAX {
            spans_width(span_views(spans@))
        } else {
            u16::MAX as nat
        }),
{
    let ghost all = span_views(spans@);
    let mut sum: u16 = 0;
    let mut i: usize = 0;
    assert(all.take(0) =~= Seq::empty());
    while i < spans.len()
        invariant
            i <= spans@.len(),
            all == span_views(spans@),
            sum == (if spans_width(all.take(i as int)) <= u16::MAX {
                spans_width(all.take(i as int))
            } else {
                u16::MAX as nat
            }),
        decreases spans@.len() - i,
    {
        proof {
            assert(all.take(i + 1).drop_last() =~= all.take(i as int));
            assert(all.take(i + 1).last() == (spans@[i as int].text@, spans@[i as int].ink));
        }
        let n = chars_of(spans[i].text.as_str()).len();
        let room: u16 = u16::MAX - sum;
        sum = if n >= room as usize {
            u16::MAX
        } else {
            sum + n as u16
        };
        i = i + 1;
    }
    assert(all.take(all.len() as int) =~= all);
    sum
}

/// The widths of the two parts of the line: the right one gets what it takes, where there is room.
pub fn split_width(width: u16, right: u16) -> (r: (u16, u16))
    ensures
        r.1 == (if right <= width {
            right
        } else {
            width
        }),
        r.0 + r.1 == width,
{
    let r = if right <= width {
        right
    } else {
        width
    };
    (width - r, r)
}

/// What the user is asked.
pub open spec fn question(kind: ConfirmModel) -> Seq<char> {
    match kind {
        ConfirmModel::Kill => " Kill session? (Y/n)"@,
        ConfirmModel::SessionSwitch(_) =>
            " The current session will be terminated. Continue? (Y/n)"@,
        ConfirmModel::SessionSwitchAndResume(_) =>
            " The current session will be terminated. Continue? (Y/n)"@,
        ConfirmModel::NewSession(_) =>
            " The current session will be terminated. Start new session? (Y/n)"@,
        ConfirmModel::ReaderRestart => " Restart reader? (Y/n)"@,
        ConfirmModel::DebugLog => " Start writing logs to /tmp/agent-transcript.log? (Y/n)"@,
    }
}

/// What the user is asked.
pub fn confirm_text(kind: &ConfirmKind) -> (r: &'static str)
    ensures
        r@ == question(kind@),
{
    match kind {
        ConfirmKind::Kill => " Kill session? (Y/n)",
        ConfirmKind::SessionSwitch(_) => " The current session will be terminated. Continue? (Y/n)",
        ConfirmKind::SessionSwitchAndResume(_) =>
            " The current session will be terminated. Continue? (Y/n)",
        ConfirmKind::NewSession(_) =>
            " The current session will be terminated. Start new session? (Y/n)",
        ConfirmKind::ReaderRestart => " Restart reader? (Y/n)",
        ConfirmKind::DebugLog => " Start writing logs to /tmp/agent-transcript.log? (Y/n)",
    }
}

/// What the line shows.
#[derive(Debug, PartialEq)]
pub enum BarContent {
    /// A message, and whether it is a warning.
    Message { text: String, warning: bool },
    /// What is looked for, and whether it is not found.
    Search { text: String, no_match: bool },
    /// A question.
    Question(String),
    /// How the transcript stands, and the session.
    Debug { state: String, session: Option<String> },
    /// Keys and what they do, at the left and at the right.
    Hints { left: Vec<HintSpan>, right: Option<Vec<HintSpan>> },
}

/// What a `BarContent` holds.
pub enum BarModel {
    Message { text: Seq<char>, warning: bool },
    Search { text: Seq<char>, no_match: bool },
    Question(Seq<char>),
    Debug { state: Seq<char>, session: Option<Seq<char>> },
    Hints { left: Seq<(Seq<char>, HintInk)>, right: Option<Seq<(Seq<char>, HintInk)>> },
}

impl View for BarContent {
    type V = BarModel;

    open spec fn view(&self) -> BarModel {
        match *self {
            BarContent::Message { text, warning } => BarModel::Message { text: text@, warning },
            BarContent::Search { text, no_match } => BarModel::Search { text: text@, no_match },
            BarContent::Question(text) => BarModel::Question(text@),
            BarContent::Debug { state, session } => BarModel::Debug {
                state: state@,
                session: text_opt(session),
            },
            BarContent::Hints { left, right } => BarModel::Hints {
                left: span_views(left@),
                right: match right {
                    Some(spans) => Some(span_views(spans@)),
                    None => None,
                },
            },
        }
    }
}

/// What Space does to what is selected.
pub open spec fn space_label(bar: StatusBar) -> &'static str {
    if !bar.tree.terminal_selected {
        "Drill down"
    } else if bar.terminal_expanded {
        "Collapse chat"
    } else {
        "Expand chat"
    }
}

/// The keys to tell of, at the left and at the right.
pub open spec fn told_keys(bar: StatusBar) -> (
    Seq<(&'static str, &'static str)>,
    Option<Seq<(&'static str, &'static str)>>,
) {
    if bar.data_view_open || bar.mode@ is MessageInteraction || bar.mode@ is SearchInput {
        (seq![("Esc", "Back")], None)
    } else if bar.mode@ is Terminal {
        (seq![("Ctrl-O", "Normal")], None)
    } else if bar.terminal_live {
        (
            seq![
                ("Esc", "Chat"),
                ("Space", space_label(bar)),
                ("r", "Raw"),
                ("I", "Session info"),
            ],
            Some(seq![("Ctrl-X", "Select chat")]),
        )
    } else {
        (
            seq![("Ctrl-Y", "Resume chat"), ("I", "Session info")],
            Some(seq![("Ctrl-X", "Select chat")]),
        )
    }
}

/// The keys of a sequence that is not complete.
pub open spec fn pending_keys(bar: StatusBar) -> Option<Seq<char>> {
    match bar.pending_app_key {
        Some(c) => Some(seq![c]),
        None => text_opt(bar.tree.pending_prefix),
    }
}

/// The pieces at the right: the mark of a prompt that is held in place, the keys of a sequence that
/// is not complete, and keys with what they do.
pub open spec fn right_spans(bar: StatusBar, pairs: Seq<(&'static str, &'static str)>) -> Seq<
    (Seq<char>, HintInk),
> {
    let pinned = if bar.prompt_pinned {
        seq![(" [P] "@, HintInk::Pinned)]
    } else {
        Seq::empty()
    };
    let pending = match pending_keys(bar) {
        Some(keys) => seq![(" "@ + keys + "…  "@, HintInk::Pending)],
        None => Seq::empty(),
    };
    pinned + pending + hint_spans(pairs, true)
}

/// Numbers, with commas between them.
pub open spec fn numbers_text(ns: Seq<usize>) -> Seq<char> {
    joined(ns.map_values(|n: usize| decimal(n as nat)), ","@)
}

/// The word for a truth value.
pub open spec fn truth_text(b: bool) -> Seq<char> {
    if b {
        "true"@
    } else {
        "false"@
    }
}

/// How the transcript stands.
pub open spec fn debug_text(tree: TreeStatus, crop: Option<CollapsedCrop>) -> Seq<char> {
    " top=["@ + numbers_text(tree.top_index@) + "]+"@ + decimal(tree.top_offset as nat) + " sel=["@
        + numbers_text(tree.selection_index@) + "] bot="@ + truth_text(tree.at_bottom) + " prec="@
        + (if tree.selection_first {
        "Sel"@
    } else {
        "Top"@
    }) + " type="@ + tree.node_type@ + " id="@ + tree.node_id@ + (match crop {
        Some(c) => " crop="@ + decimal(c.start_row as nat) + "+"@ + decimal(c.height as nat),
        None => " crop=none"@,
    })
}

/// What the line shows: a message before all else, then what is looked for, a question, how the
/// transcript stands, and keys last.
pub open spec fn bar_content(bar: StatusBar) -> BarModel {
    match bar.flash {
        Some((text, warning)) => BarModel::Message { text: text@, warning },
        None => match bar.mode@ {
            ModeModel::SearchInput { query, backward } => BarModel::Search {
                text: " "@ + (if backward {
                    "?"@
                } else {
                    "/"@
                }) + query + "▌"@,
                no_match: bar.tree.no_match,
            },
            ModeModel::Confirm(kind) => BarModel::Question(question(kind)),
            _ => if bar.debug {
                BarModel::Debug {
                    state: debug_text(bar.tree, bar.collapsed_crop),
                    session: text_opt(bar.session_label),
                }
            } else {
                BarModel::Hints {
                    left: hint_spans(told_keys(bar).0, false),
                    right: match told_keys(bar).1 {
                        Some(pairs) => Some(right_spans(bar, pairs)),
                        None => None,
                    },
                }
            },
        },
    }
}

fn show_numbers(ns: &Vec<usize>) -> (r: String)
    ensures
        r@ == numbers_text(ns@),
{
    let ghost all = ns@.map_values(|n: usize| decimal(n as nat));
    let mut parts: Vec<String> = Vec::new();
    let mut i: usize = 0;
    while i < ns.len()
        invariant
            i <= ns@.len(),
            all == ns@.map_values(|n: usize| decimal(n as nat)),
            views(parts@) == all.take(i as int),
        decreases ns@.len() - i,
    {
        let ghost before = parts@;
        let text = decimal_text(ns[i] as u64);
        parts.push(text);
        i = i + 1;
        assert(views(parts@) =~= views(before).push(text@));
        assert(all.take(i as int) =~= all.take(i - 1).push(text@));
    }
    assert(all.take(all.len() as int) =~= all);
    join(&parts, ",")
}

fn show_truth(b: bool) -> (r: &'static str)
    ensures
        r@ == truth_text(b),
{
    if b {
        "true"
    } else {
        "false"
    }
}

fn show_debug(tree: &TreeStatus, crop: Option<CollapsedCrop>) -> (r: String)
    ensures
        r@ == debug_text(*tree, crop),
{
    let mut r = concat2(" top=[", show_numbers(&tree.top_index).as_str());
    r.append("]+");
    r.append(decimal_text(tree.top_offset as u64).as_str());
    r.append(" sel=[");
    r.append(show_numbers(&tree.selection_index).as_str());
    r.append("] bot=");
    r.append(show_truth(tree.at_bottom));
    r.append(" prec=");
    r.append(
        if tree.selection_first {
            "Sel"
        } else {
            "Top"
        },
    );
    r.append(" type=");
    r.append(tree.node_type.as_str());
    r.append(" id=");
    r.append(tree.node_id.as_str());
    let crop_text = match crop {
        Some(c) => {
            let mut t = concat2(" crop=", decimal_text(c.start_row as u64).as_str());
            t.append("+");
            t.append(decimal_text(c.height as u64).as_str());
            t
        },
        None => " crop=none".to_owned(),
    };
    r.append(crop_text.as_str());
    r
}

impl StatusBar {
    /// The keys to tell of, at the left and at the right.
    pub fn hint_pairs(&self) -> (r: (
        Vec<(&'static str, &'static str)>,
        Option<Vec<(&'static str, &'static str)>>,
    ))
        ensures
            r.0@ == told_keys(*self).0,
            match r.1 {
                Some(pairs) => told_keys(*self).1 == Some(pairs@),
                None => told_keys(*self).1 is None,
            },
    {
        let back = match &self.mode {
            AppMode::MessageInteraction => true,
            AppMode::SearchInput { .. } => true,
            _ => false,
        };
        let terminal = match &self.mode {
            AppMode::Terminal => true,
            _ => false,
        };
        let mut left: Vec<(&'static str, &'static str)> = Vec::new();
        if self.data_view_open || back {
            left.push(("Esc", "Back"));
            return (left, None);
        }
        if terminal {
            left.push(("Ctrl-O", "Normal"));
            return (left, None);
        }
        if self.terminal_live {
            let label: &'static str = if !self.tree.terminal_selected {
                "Drill down"
            } else if self.terminal_expanded {
                "Collapse chat"
            } else {
                "Expand chat"
            };
            left.push(("Esc", "Chat"));
            left.push(("Space", label));
            left.push(("r", "Raw"));
            left.push(("I", "Session info"));
        } else {
            left.push(("Ctrl-Y", "Resume chat"));
            left.push(("I", "Session info"));
        }
        let mut right: Vec<(&'static str, &'static str)> = Vec::new();
        right.push(("Ctrl-X", "Select chat"));
        (left, Some(right))
    }

    fn make_right(&self, pairs: &Vec<(&'static str, &'static str)>) -> (r: Vec<HintSpan>)
        ensures
            span_views(r@) == right_spans(*self, pairs@),
    {
        let mut spans: Vec<HintSpan> = Vec::new();
        if self.prompt_pinned {
            push_span(&mut spans, " [P] ".to_owned(), HintInk::Pinned);
        }
        let pending = match self.pending_app_key {
            Some(c) => {
                let mut t = String::new();
                t.push(c);
                assert(t@ =~= seq![c]);
                Some(t)
            },
            None => match &self.tree.pending_prefix {
                Some(p) => Some(p.clone()),
                None => None,
            },
        };
        if let Some(keys) = &pending {
            push_span(&mut spans, concat3(" ", keys.as_str(), "…  "), HintInk::Pending);
        }
        let mut more = hints(pairs, true);
        let ghost a = spans@;
        let ghost b = more@;
        spans.append(&mut more);
        assert(span_views(spans@) =~= span_views(a) + span_views(b));
        assert(span_views(spans@) =~= right_spans(*self, pairs@));
        spans
    }

    /// What the line shows.
    pub fn content(&self) -> (r: BarContent)
        ensures
            r@ == bar_content(*self),
    {
        if let Some((text, warning)) = &self.flash {
            return BarContent::Message { text: text.clone(), warning: *warning };
        }
        match &self.mode {
            AppMode::SearchInput { query, backward } => {
                let prefix = if *backward {
                    "?"
                } else {
                    "/"
                };
                let mut text = concat3(" ", prefix, query.as_str());
                text.append("▌");
                BarContent::Search { text, no_match: self.tree.no_match }
            },
            AppMode::Confirm(kind) => BarContent::Question(confirm_text(kind).to_owned()),
            _ => {
                if self.debug {
                    let session = match &self.session_label {
                        Some(l) => Some(l.clone()),
                        None => None,
                    };
                    BarContent::Debug {
                        state: show_debug(&self.tree, self.collapsed_crop),
                        session,
                    }
                } else {
                    let (left, right) = self.hint_pairs();
                    let right_line = match &right {
                        Some(pairs) => Some(self.make_right(pairs)),
                        None => None,
                    };
                    BarContent::Hints { left: hints(&left, false), right: right_line }
                }
            },
        }
    }
}

} // verus!
