use agt::cmd_parse::{fmt_op, print_node, truncate_str, type_color, Ink};
use agt::tree::{HiddenState, MessageState, MessageType, TreeOperation};

fn node(id: &str) -> MessageState {
    MessageState::new(id.to_string()).message_type(MessageType::ToolCall)
}

fn lines(node: &MessageState) -> Vec<String> {
    print_node(node, 0)
        .iter()
        .map(|l| {
            let text: String = l.pieces.iter().map(|p| p.text.as_str()).collect();
            format!("{}{}", "  ".repeat(l.depth), text)
        })
        .collect()
}

#[test]
fn operations_in_words() {
    let append = TreeOperation::Append { parent_id: None, message: node("x") };
    assert_eq!(
        fmt_op(&append),
        format!("Append  id={:50} type={:20} parent={:?}", "x", "ToolCall", "<root>")
    );
    let append = TreeOperation::Append { parent_id: Some("p\"q".to_string()), message: node("x") };
    assert_eq!(
        fmt_op(&append),
        format!("Append  id={:50} type={:20} parent={:?}", "x", "ToolCall", "p\"q")
    );
    let replace = TreeOperation::Replace { id: "old".to_string(), message: node("new") };
    assert_eq!(
        fmt_op(&replace),
        format!("Replace id={:50} type={:20} new_id={}", "old", "ToolCall", "new")
    );
    assert_eq!(fmt_op(&TreeOperation::Remove { id: "r".to_string() }), "Remove  id=r");
    let update = TreeOperation::Update { id: "u".to_string(), message: node("u") };
    assert_eq!(fmt_op(&update), format!("Update  id={:50} type={}", "u", "ToolCall"));
}

#[test]
fn a_node_is_printed_with_its_children() {
    let child = MessageState::new("c".to_string())
        .message_type(MessageType::AgentMessage)
        .text("one\ntwo");
    let n = node("p").brief("short").hidden(HiddenState::NotHidden).expanded(true).children(vec![child]);
    assert_eq!(
        lines(&n),
        vec![
            "ToolCall  [expanded]  id=p  \"short\"  (1 children)".to_string(),
            "  AgentMessage  id=c".to_string(),
            "    one".to_string(),
            "    two".to_string(),
        ]
    );
}

#[test]
fn long_texts_are_cut_off() {
    let n = node("p").text("1\n2\n3\n\n5\n6\n7\n8");
    assert_eq!(
        lines(&n),
        vec!["ToolCall  id=p", "  1", "  2", "  3", "  5", "  6", "  \u{2026} (2 more lines)"]
    );
    let n = node("p").text(&"x".repeat(200));
    assert_eq!(lines(&n)[1], format!("  {}", "x".repeat(120)));
}

#[test]
fn texts_are_cut_at_characters() {
    assert_eq!(truncate_str("h\u{e9}llo", 2), "h\u{e9}");
    assert_eq!(truncate_str("hi", 2), "hi");
    assert_eq!(type_color(MessageType::UserMessage), Ink::Cyan);
    assert_eq!(type_color(MessageType::System), Ink::DarkGrey);
}
