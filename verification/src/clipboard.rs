//! How text gets to the clipboard.
use crate::text::{chars_of, concat3, trim_end, trimmed_end};
use base64::Engine;
use pulldown_cmark::{Event, Options, Parser, Tag, TagEnd};
use vstd::prelude::*;
use vstd::string::*;

verus! {

broadcast use vstd::string::group_string_axioms;

/// What puts text on the clipboard.
#[derive(Clone, Copy, Debug, PartialEq, Eq, Structural)]
pub enum ClipboardBackend {
    Pbcopy,
    WlCopy,
    Xclip,
    Xsel,
    Osc52,
}

impl ClipboardBackend {
    /// The name to show.
    pub open spec fn shown(self) -> Seq<char> {
        match self {
            ClipboardBackend::Pbcopy => "pbcopy"@,
            ClipboardBackend::WlCopy => "wl-copy"@,
            ClipboardBackend::Xclip => "xclip"@,
            ClipboardBackend::Xsel => "xsel"@,
            ClipboardBackend::Osc52 => "OSC 52"@,
        }
    }

    /// The name to show.
    pub fn display_name(&self) -> (r: &'static str)
        ensures
            r@ == self.shown(),
    {
        match self {
            ClipboardBackend::Pbcopy => "pbcopy",
            ClipboardBackend::WlCopy => "wl-copy",
            ClipboardBackend::Xclip => "xclip",
            ClipboardBackend::Xsel => "xsel",
            ClipboardBackend::Osc52 => "OSC 52",
        }
    }
}

/// What the environment offers to the clipboard.
#[derive(Clone, Copy, Debug, PartialEq, Eq, Structural)]
pub struct ClipboardHost {
    pub is_macos: bool,
    pub has_wayland: bool,
    pub has_x11: bool,
    pub has_wl_copy: bool,
    pub has_xclip: bool,
    pub has_xsel: bool,
}

/// The first backend that the environment offers; the terminal itself where it offers none.
pub open spec fn best_backend(host: ClipboardHost) -> ClipboardBackend {
    if host.is_macos {
        ClipboardBackend::Pbcopy
    } else if host.has_wayland && host.has_wl_copy {
        ClipboardBackend::WlCopy
    } else if host.has_x11 && host.has_xclip {
        ClipboardBackend::Xclip
    } else if host.has_x11 && host.has_xsel {
        ClipboardBackend::Xsel
    } else {
        ClipboardBackend::Osc52
    }
}

/// The backend to use.
pub fn detect(host: &ClipboardHost) -> (r: ClipboardBackend)
    ensures
        r == best_backend(*host),
{
    if host.is_macos {
        return ClipboardBackend::Pbcopy;
    }
    if host.has_wayland && host.has_wl_copy {
        return ClipboardBackend::WlCopy;
    }
    if host.has_x11 {
        if host.has_xclip {
            return ClipboardBackend::Xclip;
        }
        if host.has_xsel {
            return ClipboardBackend::Xsel;
        }
    }
    ClipboardBackend::Osc52
}

/// What has to be done to copy a text.
#[derive(Debug, PartialEq)]
pub enum CopyAction {
    /// Run a command and write the text to its input.
    Run { command: String, args: Vec<String> },
    /// Write a sequence to the terminal.
    Write { sequence: String },
}

/// What a `CopyAction` holds.
#[verifier::ext_equal]
pub enum CopyModel {
    Run { command: Seq<char>, args: Seq<Seq<char>> },
    Write { sequence: Seq<char> },
}

impl View for CopyAction {
    type V = CopyModel;

    open spec fn view(&self) -> CopyModel {
        match *self {
            CopyAction::Run { command, args } => CopyModel::Run {
                command: command@,
                args: crate::text::views(args@),
            },
            CopyAction::Write { sequence } => CopyModel::Write { sequence: sequence@ },
        }
    }
}

/// The text that base64's standard alphabet with padding gives for bytes.
pub uninterp spec fn base64_text(bytes: Seq<u8>) -> Seq<char>;

/// Wraps `base64::engine::general_purpose::STANDARD.encode`, named by `base64_text`.
#[verifier::external_body]
fn base64_encode(bytes: &[u8]) -> (r: String)
    ensures
        r@ == base64_text(bytes@),
{
    base64::engine::general_purpose::STANDARD.encode(bytes)
}

/// What has to be done to copy a text: a command and its arguments, or the terminal's sequence
/// with the text's bytes in base64.
pub open spec fn copy_plan(backend: ClipboardBackend, text: Seq<u8>) -> CopyModel {
    match backend {
        ClipboardBackend::Pbcopy => CopyModel::Run { command: "pbcopy"@, args: seq![] },
        ClipboardBackend::WlCopy => CopyModel::Run { command: "wl-copy"@, args: seq![] },
        ClipboardBackend::Xclip => CopyModel::Run {
            command: "xclip"@,
            args: seq!["-selection"@, "clipboard"@],
        },
        ClipboardBackend::Xsel => CopyModel::Run {
            command: "xsel"@,
            args: seq!["--clipboard"@, "--input"@],
        },
        ClipboardBackend::Osc52 => CopyModel::Write {
            sequence: "\u{1b}]52;c;"@ + base64_text(text) + "\u{7}"@,
        },
    }
}

fn run(command: &str, args: Vec<String>) -> (r: CopyAction)
    ensures
        r@ == (CopyModel::Run { command: command@, args: crate::text::views(args@) }),
{
    CopyAction::Run { command: command.to_owned(), args }
}

fn two(a: &str, b: &str) -> (r: Vec<String>)
    ensures
        crate::text::views(r@) == seq![a@, b@],
{
    let mut r: Vec<String> = Vec::new();
    r.push(a.to_owned());
    r.push(b.to_owned());
    assert(crate::text::views(r@) =~= seq![a@, b@]);
    r
}

fn none() -> (r: Vec<String>)
    ensures
        crate::text::views(r@) == Seq::<Seq<char>>::empty(),
{
    let r: Vec<String> = Vec::new();
    assert(crate::text::views(r@) =~= Seq::<Seq<char>>::empty());
    r
}

/// What has to be done to copy a text.
pub fn copy(backend: &ClipboardBackend, text: &str) -> (r: CopyAction)
    ensures
        r@ == copy_plan(*backend, text.spec_bytes()),
{
    match backend {
        ClipboardBackend::Pbcopy => run("pbcopy", none()),
        ClipboardBackend::WlCopy => run("wl-copy", none()),
        ClipboardBackend::Xclip => run("xclip", two("-selection", "clipboard")),
        ClipboardBackend::Xsel => run("xsel", two("--clipboard", "--input")),
        ClipboardBackend::Osc52 => {
            let encoded = base64_encode(text.as_bytes());
            CopyAction::Write { sequence: concat3("\u{1b}]52;c;", encoded.as_str(), "\u{7}") }
        },
    }
}

// ---------------------------------------------------------------------------
// Markdown
// ---------------------------------------------------------------------------

/// What a Markdown parser finds, as far as the plain text goes by it.
pub enum MarkdownEvent {
    Text(String),
    Code(String),
    SoftBreak,
    HardBreak,
    ParagraphEnd,
    HeadingEnd,
    CodeBlockEnd,
    ItemStart,
    Other,
}

/// What a `MarkdownEvent` holds.
pub enum MarkdownModel {
    Text(Seq<char>),
    Code(Seq<char>),
    SoftBreak,
    HardBreak,
    ParagraphEnd,
    HeadingEnd,
    CodeBlockEnd,
    ItemStart,
    Other,
}

impl View for MarkdownEvent {
    type V = MarkdownModel;

    open spec fn view(&self) -> MarkdownModel {
        match *self {
            MarkdownEvent::Text(t) => MarkdownModel::Text(t@),
            MarkdownEvent::Code(t) => MarkdownModel::Code(t@),
            MarkdownEvent::SoftBreak => MarkdownModel::SoftBreak,
            MarkdownEvent::HardBreak => MarkdownModel::HardBreak,
            MarkdownEvent::ParagraphEnd => MarkdownModel::ParagraphEnd,
            MarkdownEvent::HeadingEnd => MarkdownModel::HeadingEnd,
            MarkdownEvent::CodeBlockEnd => MarkdownModel::CodeBlockEnd,
            MarkdownEvent::ItemStart => MarkdownModel::ItemStart,
            MarkdownEvent::Other => MarkdownModel::Other,
        }
    }
}

/// The views of a sequence of events.
pub open spec fn event_views(events: Seq<MarkdownEvent>) -> Seq<MarkdownModel> {
    events.map_values(|e: MarkdownEvent| e@)
}

/// The events that `pulldown_cmark::Parser` gives for a text, with all its extensions.
pub uninterp spec fn markdown_parsed(text: Seq<char>) -> Seq<MarkdownModel>;

/// Wraps `pulldown_cmark::Parser::new_ext` with `Options::all`, and tells its events apart. The
/// result, where there is one, is named by `markdown_parsed`; nothing more is claimed.
#[verifier::external_body]
fn parse_markdown(md: &str) -> (r: Vec<MarkdownEvent>)
    ensures
        event_views(r@) == markdown_parsed(md@),
{
    Parser::new_ext(md, Options::all()).map(|event| match event {
        Event::Text(t) => MarkdownEvent::Text(t.into_string()),
        Event::Code(t) => MarkdownEvent::Code(t.into_string()),
        Event::SoftBreak => MarkdownEvent::SoftBreak,
        Event::HardBreak => MarkdownEvent::HardBreak,
        Event::End(TagEnd::Paragraph) => MarkdownEvent::ParagraphEnd,
        Event::End(TagEnd::Heading(_)) => MarkdownEvent::HeadingEnd,
        Event::End(TagEnd::CodeBlock) => MarkdownEvent::CodeBlockEnd,
        Event::Start(Tag::Item) => MarkdownEvent::ItemStart,
        _ => MarkdownEvent::Other,
    }).collect()
}

/// `s` with a line feed behind it, where it does not end with one.
pub open spec fn on_new_line(s: Seq<char>) -> Seq<char> {
    if s.len() > 0 && s.last() == '\n' {
        s
    } else {
        s.push('\n')
    }
}

/// The plain text after one more event: a block ends with an empty line, and an item starts on a
/// line of its own, with a dash.
pub open spec fn plain_step(out: Seq<char>, event: MarkdownModel) -> Seq<char> {
    match event {
        MarkdownModel::Text(t) | MarkdownModel::Code(t) => out + t,
        MarkdownModel::SoftBreak | MarkdownModel::HardBreak => out.push('\n'),
        MarkdownModel::ParagraphEnd | MarkdownModel::HeadingEnd | MarkdownModel::CodeBlockEnd => {
            on_new_line(out).push('\n')
        },
        MarkdownModel::ItemStart => (if out.len() == 0 {
            out
        } else {
            on_new_line(out)
        }) + "- "@,
        MarkdownModel::Other => out,
    }
}

/// The plain text of events.
pub open spec fn plain(events: Seq<MarkdownModel>) -> Seq<char>
    decreases events.len(),
{
    if events.len() == 0 {
        Seq::empty()
    } else {
        plain_step(plain(events.drop_last()), events.last())
    }
}

/// The plain text of events, without white space at its end.
pub fn events_to_plain(events: &Vec<MarkdownEvent>) -> (r: String)
    ensures
        r@ == trimmed_end(plain(event_views(events@))),
{
    let ghost all = event_views(events@);
    let mut out = String::new();
    let mut ends_line = false;
    let mut i: usize = 0;
    assert(all.take(0) =~= Seq::<MarkdownModel>::empty());
    while i < events.len()
        invariant
            i <= events@.len(),
            all == event_views(events@),
            out@ == plain(all.take(i as int)),
            ends_line == (out@.len() > 0 && out@.last() == '\n'),
        decreases events@.len() - i,
    {
        proof {
            assert(all.take(i + 1).drop_last() =~= all.take(i as int));
            assert(all.take(i + 1).last() == events@[i as int]@);
        }
        match &events[i] {
            MarkdownEvent::Text(t) | MarkdownEvent::Code(t) => {
                let v = chars_of(t.as_str());
                let ghost before = out@;
                out.append(t.as_str());
                if v.len() > 0 {
                    ends_line = v[v.len() - 1] == '\n';
                } else {
                    assert(out@ =~= before);
                }
            },
            MarkdownEvent::SoftBreak | MarkdownEvent::HardBreak => {
                out.push('\n');
                ends_line = true;
            },
            MarkdownEvent::ParagraphEnd
            | MarkdownEvent::HeadingEnd
            | MarkdownEvent::CodeBlockEnd => {
                if !ends_line {
                    out.push('\n');
                }
                out.push('\n');
                ends_line = true;
            },
            MarkdownEvent::ItemStart => {
                if !out.as_str().is_empty() && !ends_line {
                    out.push('\n');
                }
                proof {
                    reveal_strlit("- ");
                }
                out.append("- ");
                ends_line = false;
            },
            MarkdownEvent::Other => {},
        }
        i = i + 1;
    }
    assert(all.take(events@.len() as int) =~= all);
    trim_end(out.as_str())
}

/// The plain text of a Markdown text.
pub fn markdown_to_plain(md: &str) -> (r: String)
    ensures
        r@ == trimmed_end(plain(markdown_parsed(md@))),
{
    events_to_plain(&parse_markdown(md))
}

} // verus!
