use agt::app::mode::StartMode;
use agt::args::{
    first_free_arg, has_arg, parse_hook_args, parse_mode_args, parse_plain_args, parse_session_arg,
    scan_args, split_session_arg, ArgScan, HookCommand,
};
use agt::providers::{ProviderKind, ProviderNames};

fn names() -> ProviderNames {
    ProviderNames { claude: "alpha".to_string() }
}

#[test]
fn no_args_is_picker() {
    assert!(matches!(
        parse_mode_args(false, None, &names()).unwrap(),
        StartMode::Picker
    ));
}

#[test]
fn claude_is_new_session() {
    let mode = parse_mode_args(false, Some("alpha"), &names()).unwrap();
    assert!(matches!(
        mode,
        StartMode::NewSession {
            provider: ProviderKind::Claude
        }
    ));
}

#[test]
fn cursor_is_new_session() {
    let mode = parse_mode_args(false, Some("cursor"), &names()).unwrap();
    assert!(matches!(
        mode,
        StartMode::NewSession {
            provider: ProviderKind::Cursor
        }
    ));
}

#[test]
fn session_no_resume() {
    let mode = parse_mode_args(false, Some("alpha:abc123"), &names()).unwrap();
    match mode {
        StartMode::Session {
            provider,
            id,
            resume,
        } => {
            assert_eq!(provider, ProviderKind::Claude);
            assert_eq!(id, "abc123");
            assert!(!resume);
        }
        _ => panic!("expected Session"),
    }
}

#[test]
fn session_with_resume() {
    let mode = parse_mode_args(true, Some("alpha:abc123"), &names()).unwrap();
    match mode {
        StartMode::Session {
            provider,
            id,
            resume,
        } => {
            assert_eq!(provider, ProviderKind::Claude);
            assert_eq!(id, "abc123");
            assert!(resume);
        }
        _ => panic!("expected Session"),
    }
}

#[test]
fn unknown_provider_errors() {
    assert!(parse_mode_args(false, Some("bad"), &names()).is_err());
    assert!(parse_mode_args(false, Some("bad:id"), &names()).is_err());
}

fn args(words: &[&str]) -> Vec<String> {
    words.iter().map(|w| w.to_string()).collect()
}

#[test]
fn the_unknown_provider_is_named() {
    assert_eq!(
        parse_mode_args(false, Some("bad:id"), &names()),
        Err("unknown provider: bad".to_string())
    );
}

#[test]
fn an_id_may_hold_colons() {
    assert_eq!(split_session_arg("a:b:c"), ("a".to_string(), Some("b:c".to_string())));
    assert_eq!(split_session_arg("a:"), ("a".to_string(), Some(String::new())));
    assert_eq!(split_session_arg("a"), ("a".to_string(), None));
}

#[test]
fn a_session_to_parse() {
    assert_eq!(
        parse_session_arg("cursor:x1", &names()),
        Ok((ProviderKind::Cursor, "x1".to_string()))
    );
    assert_eq!(
        parse_session_arg("cursor", &names()),
        Err("usage: agt parse <provider>:<session-id>".to_string())
    );
    assert_eq!(
        parse_session_arg("bad:x1", &names()),
        Err("unknown provider: bad".to_string())
    );
}

#[test]
fn arguments_are_scanned_in_order() {
    assert_eq!(scan_args(&args(&["--resume", "alpha:1", "--debug"])), ArgScan::Fine);
    assert_eq!(scan_args(&args(&["--resume", "-h", "--bad"])), ArgScan::Help);
    assert_eq!(scan_args(&args(&["x", "--help"])), ArgScan::Help);
    assert_eq!(scan_args(&args(&["--bad", "-h"])), ArgScan::Unknown("--bad".to_string()));
}

#[test]
fn arguments_can_be_asked_for() {
    assert!(has_arg(&args(&["a", "--debug"]), "--debug"));
    assert!(!has_arg(&args(&["a", "--debugs"]), "--debug"));
    assert_eq!(first_free_arg(&args(&["--x", "free", "more"])), "free");
    assert_eq!(first_free_arg(&args(&["--x"])), "");
}

#[test]
fn hooks_are_for_a_provider() {
    assert_eq!(parse_hook_args(&args(&["alpha"]), &names()), HookCommand::ExplainClaude);
    assert_eq!(
        parse_hook_args(&args(&["alpha", "--force"]), &names()),
        HookCommand::InstallClaude
    );
    assert_eq!(
        parse_hook_args(&args(&["--force", "cursor"]), &names()),
        HookCommand::InstallCursor
    );
    assert_eq!(
        parse_hook_args(&args(&["bad"]), &names()),
        HookCommand::UnknownProvider("bad".to_string())
    );
    assert_eq!(parse_hook_args(&args(&[]), &names()), HookCommand::UnknownProvider(String::new()));
}

#[test]
fn plain_arguments() {
    assert_eq!(parse_plain_args(args(&[])), Ok((false, None)));
    assert_eq!(
        parse_plain_args(args(&["alpha:1", "--resume"])),
        Ok((true, Some("alpha:1".to_string())))
    );
    assert_eq!(
        parse_plain_args(args(&["--debug", "cursor"])),
        Ok((false, Some("cursor".to_string())))
    );
    assert_eq!(parse_plain_args(args(&["a", "b", "c"])), Err("b, c".to_string()));
}
