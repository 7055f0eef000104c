use agt::claude::provider::{
    encode_workspace, extract_message_text, is_session_file, read_session_id, session_file_name,
    ClaudeProvider, ContentBlock, JournalRecord, JournalSummary, MessageContent, UserMessage,
};
use agt::providers::{Moment, ProviderKind, ProviderNames};

#[test]
fn encode_workspace_replaces_non_alphanumeric() {
    // Slashes, underscores, and multi-byte Unicode chars all become '-'.
    assert_eq!(encode_workspace("/home/user/abc_你好"), "-home-user-abc---");
}

#[test]
fn paths_of_transcripts() {
    let names = ProviderNames { claude: "alpha".to_string() };
    assert_eq!(ClaudeProvider::projects_dir("/home/u", &names), "/home/u/.alpha/projects");
    assert_eq!(
        ClaudeProvider::compute_transcript_path("/home/u", &names, "s1", Some("/w")),
        Some("/home/u/.alpha/projects/-w/s1.jsonl".to_string())
    );
    assert_eq!(ClaudeProvider::compute_transcript_path("/home/u", &names, "s1", None), None);
    assert_eq!(session_file_name("s1"), "s1.jsonl");
    assert!(is_session_file("s1.jsonl"));
    assert!(!is_session_file("agent-s1.jsonl"));
    assert!(!is_session_file(".jsonl"));
    assert!(!is_session_file("s1.json"));
    assert_eq!(read_session_id("/home/u/.alpha/projects/-w/s1.jsonl"), "s1");
}

fn text(s: &str) -> UserMessage {
    UserMessage { content: Some(MessageContent::Text(s.to_string())) }
}

fn block(kind: &str, text: Option<&str>) -> ContentBlock {
    ContentBlock { block_type: kind.to_string(), text: text.map(str::to_string) }
}

#[test]
fn the_text_of_a_message() {
    assert_eq!(extract_message_text(&text("hi")).as_deref(), Some("hi"));
    assert_eq!(extract_message_text(&text("")), None);
    let blocks = UserMessage {
        content: Some(MessageContent::Blocks(vec![
            block("text", Some("a")),
            block("image", Some("x")),
            block("text", None),
            block("text", Some("b")),
        ])),
    };
    assert_eq!(extract_message_text(&blocks).as_deref(), Some("a b"));
    assert_eq!(extract_message_text(&UserMessage { content: None }), None);
}

#[test]
fn a_transcript_is_summed_up() {
    let mut s = JournalSummary::new();
    assert_eq!(s.shown_title(), "(untitled)");
    s.absorb(JournalRecord::User {
        cwd: Some("/w".to_string()),
        message: Some(text("first")),
        has_tool_result: false,
    });
    s.absorb(JournalRecord::Assistant);
    s.absorb(JournalRecord::User {
        cwd: Some("/elsewhere".to_string()),
        message: Some(text("a result")),
        has_tool_result: true,
    });
    s.absorb(JournalRecord::AiTitle { ai_title: "made up".to_string() });
    s.absorb(JournalRecord::CustomTitle { title: "chosen".to_string() });
    s.absorb(JournalRecord::Other);
    let t = Moment { secs: 3, nanos: 4 };
    let e = ClaudeProvider::read_entry("/p/s1.jsonl", s, t, Some(10));
    assert_eq!(e.id, "s1");
    assert_eq!(e.title, "chosen");
    assert_eq!(e.message_count, 3);
    assert_eq!(e.workspace_path.as_deref(), Some("/w"));
    assert_eq!(e.last_user_message.as_deref(), Some("first"));
    assert_eq!(e.mtime, t);
    assert_eq!(e.provider, ProviderKind::Claude);
}
