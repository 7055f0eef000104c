use agt::clipboard::{
    copy, detect, events_to_plain, markdown_to_plain, ClipboardBackend, ClipboardHost, CopyAction,
    MarkdownEvent,
};

#[test]
fn plain_text_passthrough() {
    assert_eq!(markdown_to_plain("hello world"), "hello world");
}

#[test]
fn strips_bold_italic() {
    assert_eq!(
        markdown_to_plain("**bold** and *italic*"),
        "bold and italic"
    );
}

#[test]
fn strips_heading() {
    let plain = markdown_to_plain("# Heading\n\nParagraph.");
    assert!(plain.contains("Heading"));
    assert!(plain.contains("Paragraph."));
    assert!(!plain.contains('#'));
}

#[test]
fn inline_code_preserved() {
    assert_eq!(markdown_to_plain("use `foo()` here"), "use foo() here");
}

#[test]
fn fenced_code_block() {
    let md = "```rust\nfn main() {}\n```\n\nafter";
    let plain = markdown_to_plain(md);
    assert!(plain.contains("fn main() {}"));
    assert!(plain.contains("after"));
    assert!(!plain.contains("```"));
}

#[test]
fn list_items_have_prefix() {
    let md = "- item one\n- item two";
    let plain = markdown_to_plain(md);
    assert!(plain.contains("item one"));
    assert!(plain.contains("item two"));
}

fn host() -> ClipboardHost {
    ClipboardHost {
        is_macos: false,
        has_wayland: true,
        has_x11: true,
        has_wl_copy: true,
        has_xclip: true,
        has_xsel: true,
    }
}

#[test]
fn the_first_backend_there_is_taken() {
    let mut h = host();
    h.is_macos = true;
    assert_eq!(detect(&h), ClipboardBackend::Pbcopy);
    h.is_macos = false;
    assert_eq!(detect(&h), ClipboardBackend::WlCopy);
    h.has_wl_copy = false;
    assert_eq!(detect(&h), ClipboardBackend::Xclip);
    h.has_xclip = false;
    assert_eq!(detect(&h), ClipboardBackend::Xsel);
    h.has_x11 = false;
    assert_eq!(detect(&h), ClipboardBackend::Osc52);
}

#[test]
fn backends_have_names() {
    assert_eq!(ClipboardBackend::Pbcopy.display_name(), "pbcopy");
    assert_eq!(ClipboardBackend::WlCopy.display_name(), "wl-copy");
    assert_eq!(ClipboardBackend::Xclip.display_name(), "xclip");
    assert_eq!(ClipboardBackend::Xsel.display_name(), "xsel");
    assert_eq!(ClipboardBackend::Osc52.display_name(), "OSC 52");
}

#[test]
fn a_command_is_run_with_its_arguments() {
    assert_eq!(
        copy(&ClipboardBackend::Xclip, "x"),
        CopyAction::Run {
            command: "xclip".to_string(),
            args: vec!["-selection".to_string(), "clipboard".to_string()],
        }
    );
    assert_eq!(
        copy(&ClipboardBackend::Xsel, "x"),
        CopyAction::Run {
            command: "xsel".to_string(),
            args: vec!["--clipboard".to_string(), "--input".to_string()],
        }
    );
    assert_eq!(
        copy(&ClipboardBackend::Pbcopy, "x"),
        CopyAction::Run { command: "pbcopy".to_string(), args: vec![] }
    );
}

#[test]
fn the_terminal_is_told_in_base64() {
    assert_eq!(
        copy(&ClipboardBackend::Osc52, "hello"),
        CopyAction::Write { sequence: "\x1b]52;c;aGVsbG8=\x07".to_string() }
    );
    assert_eq!(
        copy(&ClipboardBackend::Osc52, "\u{e4}"),
        CopyAction::Write { sequence: "\x1b]52;c;w6Q=\x07".to_string() }
    );
}

#[test]
fn paragraphs_and_items_stand_apart() {
    assert_eq!(markdown_to_plain("# Heading\n\nParagraph."), "Heading\n\nParagraph.");
    assert_eq!(markdown_to_plain("- item one\n- item two"), "- item one\n- item two");
    assert_eq!(
        markdown_to_plain("```rust\nfn main() {}\n```\n\nafter"),
        "fn main() {}\n\nafter"
    );
}

#[test]
fn events_become_plain_text() {
    let events = vec![
        MarkdownEvent::ItemStart,
        MarkdownEvent::Text("one".to_string()),
        MarkdownEvent::SoftBreak,
        MarkdownEvent::Code("two".to_string()),
        MarkdownEvent::Other,
        MarkdownEvent::ItemStart,
        MarkdownEvent::Text("three".to_string()),
        MarkdownEvent::ParagraphEnd,
    ];
    assert_eq!(events_to_plain(&events), "- one\ntwo\n- three");
}
