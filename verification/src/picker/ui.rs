//! What the list shows.
use crate::clock::{can_show, short_format, show_short, time_text};
use crate::geometry::Rect;
use crate::picker::state::{flash_model, shown_time, PickerState, Tab};
use crate::providers::{EntryModel, ProviderNames, TranscriptEntry};
use crate::text::{
    chars_of, concat2, concat3, decimal, decimal_text, name_in_path, pad, padded, path_name,
    string_of_range,
};
use vstd::prelude::*;
use vstd::string::*;

verus! {

broadcast use vstd::string::group_string_axioms;

/// The cells that stay free on either side.
pub const H_PAD: u16 = 2;

/// The list on a screen.
#[derive(Clone, Copy, Debug, PartialEq, Eq, Structural)]
pub struct PickerUi {
    pub area: Rect,
}

impl PickerUi {
    /// The part of the screen that is written on.
    pub fn content(&self) -> (r: Rect)
        requires
            self.area.x <= u16::MAX - H_PAD,
        ensures
            r.x == self.area.x + H_PAD,
            r.y == self.area.y,
            r.height == self.area.height,
            r.width == (if self.area.width >= 2 * H_PAD {
                self.area.width - 2 * H_PAD
            } else {
                0
            }),
    {
        Rect {
            x: self.area.x + H_PAD,
            y: self.area.y,
            width: if self.area.width >= H_PAD * 2 {
                self.area.width - H_PAD * 2
            } else {
                0
            },
            height: self.area.height,
        }
    }
}

/// A text cut to a number of characters, with an ellipsis in place of the last one where it is too
/// long.
pub open spec fn cut(s: Seq<char>, max: nat) -> Seq<char> {
    if max == 0 {
        Seq::empty()
    } else if s.len() <= max {
        s
    } else {
        s.take(max - 1) + "…"@
    }
}

/// A text cut to a number of characters.
pub fn truncate(s: &str, max_chars: usize) -> (r: String)
    ensures
        r@ == cut(s@, max_chars as nat),
{
    if max_chars == 0 {
        return String::new();
    }
    let v = chars_of(s);
    if v.len() <= max_chars {
        s.to_owned()
    } else {
        assert(v@.subrange(0, max_chars - 1) =~= s@.take(max_chars - 1));
        concat2(string_of_range(&v, 0, max_chars - 1).as_str(), "…")
    }
}

/// A cut text never is longer than it may be.
pub proof fn law_cut_fits(s: Seq<char>, max: nat)
    ensures
        cut(s, max).len() <= max,
        padded(cut(s, max), max).len() == max,
{
    reveal_strlit("…");
}

/// A tab as the bar shows it.
#[derive(Debug, PartialEq)]
pub struct TabLabel {
    pub text: String,
    pub selected: bool,
}

fn tab_label(tab: Tab, current: Tab, names: &ProviderNames) -> (r: TabLabel)
    ensures
        r.text@ == " "@ + tab.named(*names) + " "@,
        r.selected == (tab == current),
{
    TabLabel { text: concat3(" ", tab.label(names).as_str(), " "), selected: tab == current }
}

/// The tabs as the bar shows them.
pub fn tab_labels(current: Tab, names: &ProviderNames) -> (r: Vec<TabLabel>)
    ensures
        r@.len() == 3,
        r@[0].text@ == " "@ + Tab::All.named(*names) + " "@,
        r@[1].text@ == " "@ + Tab::Cursor.named(*names) + " "@,
        r@[2].text@ == " "@ + Tab::Claude.named(*names) + " "@,
        r@[0].selected == (current == Tab::All),
        r@[1].selected == (current == Tab::Cursor),
        r@[2].selected == (current == Tab::Claude),
{
    let mut out: Vec<TabLabel> = Vec::new();
    out.push(tab_label(Tab::All, current, names));
    out.push(tab_label(Tab::Cursor, current, names));
    out.push(tab_label(Tab::Claude, current, names));
    out
}

/// A session as the list shows it, on two lines.
#[derive(Debug, PartialEq)]
pub struct PickerRow {
    pub selected: bool,
    pub caret: String,
    pub title: String,
    pub date: String,
    /// The name of the workspace, where it is shown.
    pub directory: String,
    pub message: String,
    pub counts: String,
}

/// What a `PickerRow` holds.
#[verifier::ext_equal]
pub struct PickerRowModel {
    pub selected: bool,
    pub caret: Seq<char>,
    pub title: Seq<char>,
    pub date: Seq<char>,
    pub directory: Seq<char>,
    pub message: Seq<char>,
    pub counts: Seq<char>,
}

impl View for PickerRow {
    type V = PickerRowModel;

    open spec fn view(&self) -> PickerRowModel {
        PickerRowModel {
            selected: self.selected,
            caret: self.caret@,
            title: self.title@,
            date: self.date@,
            directory: self.directory@,
            message: self.message@,
            counts: self.counts@,
        }
    }
}

/// The mark of a line.
pub open spec fn caret_of(selected: bool) -> Seq<char> {
    if selected {
        "> "@
    } else {
        "  "@
    }
}

/// The mark of a line.
pub fn caret(selected: bool) -> (r: &'static str)
    ensures
        r@ == caret_of(selected),
{
    if selected {
        "> "
    } else {
        "  "
    }
}

/// What is left of a width.
pub open spec fn rest_of(width: u16, used: nat) -> nat {
    if width >= used {
        (width - used) as nat
    } else {
        0
    }
}

/// The name of a session's workspace, where all sessions are shown.
pub open spec fn directory_of(e: EntryModel, show_all: bool) -> Seq<char> {
    if show_all && e.workspace_path is Some && path_name(e.workspace_path->0) is Some {
        path_name(e.workspace_path->0)->0 + "  "@
    } else {
        Seq::empty()
    }
}

/// A session as the list shows it: its title and its time on the first line, the last message and
/// the number of messages on the second. Both lines fill the width.
pub open spec fn row_of(
    e: EntryModel,
    selected: bool,
    show_all: bool,
    width: u16,
    offset: i32,
) -> PickerRowModel {
    let date = time_text(shown_time(e).secs, offset, short_format());
    let title_width = rest_of(width, 2 + date.len() + 1);
    let counts = "≡ "@ + decimal(e.message_count as nat);
    let directory = directory_of(e, show_all);
    let message_width = rest_of(width, 2 + directory.len() + counts.len() + 1);
    let message = match e.last_user_message {
        Some(m) => m,
        None => Seq::empty(),
    };
    PickerRowModel {
        selected,
        caret: caret_of(selected),
        title: padded(cut(e.title, title_width), title_width),
        date,
        directory,
        message: padded(cut(message, message_width), message_width),
        counts,
    }
}

fn left_of(width: u16, used: usize) -> (r: usize)
    ensures
        r == rest_of(width, used as nat),
{
    if width as usize >= used {
        width as usize - used
    } else {
        0
    }
}

fn used_cells(a: usize, b: usize) -> (r: usize)
    ensures
        r == 3 + a + b || (r == usize::MAX && 3 + a + b > usize::MAX),
{
    match a.checked_add(b) {
        Some(n) => match n.checked_add(3) {
            Some(m) => m,
            None => usize::MAX,
        },
        None => usize::MAX,
    }
}

/// A session as the list shows it. `offset` is how many seconds the clock is ahead of UTC at the
/// session's time.
pub fn entry_row(
    entry: &TranscriptEntry,
    selected: bool,
    show_all: bool,
    width: u16,
    offset: i32,
) -> (r: PickerRow)
    requires
        can_show(shown_time(entry@).secs, offset),
    ensures
        r@ == row_of(entry@, selected, show_all, width, offset),
{
    let time = match entry.updated_at {
        Some(t) => t,
        None => entry.mtime,
    };
    let date = show_short(time.secs, offset);
    let date_width = chars_of(date.as_str()).len();
    let title_width = left_of(width, used_cells(date_width, 0));
    let counts = concat2("≡ ", decimal_text(entry.message_count as u64).as_str());
    let name = if show_all {
        match &entry.workspace_path {
            Some(p) => name_in_path(p.as_str()),
            None => None,
        }
    } else {
        None
    };
    let directory = match &name {
        Some(n) => concat2(n.as_str(), "  "),
        None => String::new(),
    };
    let directory_width = chars_of(directory.as_str()).len();
    let counts_width = chars_of(counts.as_str()).len();
    let message_width = left_of(width, used_cells(directory_width, counts_width));
    proof {
        reveal_strlit("");
        assert(""@ =~= Seq::empty());
    }
    let message = match &entry.last_user_message {
        Some(m) => truncate(m.as_str(), message_width),
        None => truncate("", message_width),
    };
    PickerRow {
        selected,
        caret: caret(selected).to_owned(),
        title: pad(truncate(entry.title.as_str(), title_width).as_str(), title_width),
        date,
        directory,
        message: pad(message.as_str(), message_width),
        counts,
    }
}

/// What the list says where it lists nothing.
pub open spec fn empty_note(show_all: bool) -> Seq<char> {
    if show_all {
        "No transcripts found."@
    } else {
        "No transcripts found in this workspace."@
    }
}

/// What the list says where it lists nothing.
pub fn empty_text(show_all: bool) -> (r: &'static str)
    ensures
        r@ == empty_note(show_all),
{
    if show_all {
        "No transcripts found."
    } else {
        "No transcripts found in this workspace."
    }
}

/// The line below the list.
#[derive(Debug, PartialEq)]
pub enum Legend {
    /// A message.
    Message(String),
    /// Keys and what they do.
    Hints(Vec<(&'static str, &'static str)>),
}

/// The line below the list: the message that is shown for a while, else the keys.
pub fn legend(state: &PickerState) -> (r: Legend)
    ensures
        match flash_model(state.flash_message) {
            Some((message, _)) => r is Message && r->Message_0@ == message,
            None => {
                &&& r is Hints
                &&& r->Hints_0@ == seq![
                    ("←→", "Tab"),
                    ("Enter", "Open"),
                    ("Ctrl-Y", "Resume"),
                    ("Ctrl-T", "New"),
                    (
                        "Ctrl-F",
                        if state.show_all {
                            "workspace"
                        } else {
                            "all"
                        },
                    ),
                    ("q", "Quit"),
                ]
            },
        },
{
    match &state.flash_message {
        Some(f) => Legend::Message(f.message.clone()),
        None => {
            let filter_label: &'static str = if state.show_all {
                "workspace"
            } else {
                "all"
            };
            let mut hints: Vec<(&'static str, &'static str)> = Vec::new();
            hints.push(("←→", "Tab"));
            hints.push(("Enter", "Open"));
            hints.push(("Ctrl-Y", "Resume"));
            hints.push(("Ctrl-T", "New"));
            hints.push(("Ctrl-F", filter_label));
            hints.push(("q", "Quit"));
            Legend::Hints(hints)
        },
    }
}

} // verus!
