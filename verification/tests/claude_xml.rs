use agt::claude::xml::process_xml_tags;

#[test]
fn test_process_xml_tags_command_pattern() {
    let text = "<command-message>make-plan</command-message>\n<command-name>/make-plan</command-name>\n<command-args>args go here\ncan be multiple lines</command-args>";
    let (display, tag) = process_xml_tags(text).expect("should parse command pattern");
    assert_eq!(tag, "command-name");
    assert_eq!(display, "/make-plan args go here\ncan be multiple lines");
}

#[test]
fn test_process_xml_tags_command_name_only() {
    let text = "<command-message>foo</command-message>\n<command-name>/foo</command-name>";
    let (display, tag) = process_xml_tags(text).expect("should parse command without args");
    assert_eq!(tag, "command-name");
    assert_eq!(display, "/foo");
}

#[test]
fn test_process_xml_tags_bash_stdout_and_stderr() {
    let text = "<bash-stdout>line 1\nline2</bash-stdout><bash-stderr>err</bash-stderr>";
    let (display, tag) = process_xml_tags(text).expect("should parse bash stdout+stderr");
    assert_eq!(tag, "bash-stdout");
    assert_eq!(display, "line 1\nline2\nerr");
}

#[test]
fn test_process_xml_tags_bash_stdout_only() {
    let text = "<bash-stdout>output</bash-stdout>";
    let (display, tag) = process_xml_tags(text).expect("should parse bash stdout only");
    assert_eq!(tag, "bash-stdout");
    assert_eq!(display, "output");
}

#[test]
fn test_process_xml_tags_bash_stderr_only() {
    let text = "<bash-stderr>err only</bash-stderr>";
    // bash-stderr alone doesn't trigger the bash-stdout branch; falls into general case
    let (display, tag) = process_xml_tags(text).expect("should parse bash stderr only");
    assert_eq!(tag, "bash-stderr");
    assert_eq!(display, "err only");
}

#[test]
fn test_process_xml_tags_general_single() {
    let text = "<local-command-caveat>caveat text</local-command-caveat>";
    let (display, tag) = process_xml_tags(text).expect("should parse single general tag");
    assert_eq!(tag, "local-command-caveat");
    assert_eq!(display, "caveat text");
}

#[test]
fn test_process_xml_tags_general_multiple() {
    let text = "<foo>hello</foo>\n<bar>world</bar>";
    let (display, tag) = process_xml_tags(text).expect("should parse multiple general tags");
    assert_eq!(tag, "foo");
    assert_eq!(display, "hello\nworld");
}

#[test]
fn test_process_xml_tags_general_with_remainder() {
    let text = "<foo>hello</foo>\ntrailing plain text";
    let (display, tag) = process_xml_tags(text).expect("should parse tag with remainder");
    assert_eq!(tag, "foo");
    assert_eq!(display, "hello\ntrailing plain text");
}

#[test]
fn test_process_xml_tags_no_tags() {
    assert!(process_xml_tags("plain text").is_none());
    assert!(process_xml_tags("").is_none());
}
