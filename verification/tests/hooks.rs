use agt::claude_hooks::{self, hook_present, InstallError};
use agt::cursor_hooks;
use agt::json::parse_json;

#[test]
fn the_hook_is_put_into_settings() {
    let text = claude_hooks::install(None).unwrap();
    assert_eq!(
        text,
        r#"{
  "hooks": {
    "SessionStart": [
      {
        "hooks": [
          {
            "command": "agt hook",
            "type": "command"
          }
        ],
        "matcher": ""
      }
    ]
  }
}"#
    );
    assert!(claude_hooks::is_installed(Some(&text)));
    assert!(hook_present(&parse_json(&text).unwrap()));
}

#[test]
fn a_second_installation_changes_nothing() {
    let once = claude_hooks::install(Some(r#"{"model":"x","hooks":{"Stop":[]}}"#)).unwrap();
    assert_eq!(claude_hooks::install(Some(&once)).unwrap(), once);
    let v = parse_json(&once).unwrap();
    assert_eq!(v.get_str("model"), Some("x"));
    assert!(v.get("hooks").unwrap().get("Stop").is_some());

    let once = cursor_hooks::install(None).unwrap();
    assert_eq!(cursor_hooks::install(Some(&once)).unwrap(), once);
    assert!(cursor_hooks::is_installed(Some(&once)));
}

#[test]
fn other_hooks_stay() {
    let text = cursor_hooks::install(Some(
        r#"{"version":1,"hooks":{"sessionStart":[{"command":"other"}]}}"#,
    ))
    .unwrap();
    let v = parse_json(&text).unwrap();
    let hooks = v.get("hooks").unwrap().get("sessionStart").unwrap().as_array().unwrap();
    assert_eq!(hooks.len(), 2);
    assert_eq!(hooks[0].get_str("command"), Some("other"));
    assert_eq!(hooks[1].get_str("command"), Some("agt hook"));
}

#[test]
fn a_new_hooks_file_has_a_version() {
    assert_eq!(
        cursor_hooks::install(None).unwrap(),
        r#"{
  "hooks": {
    "sessionStart": [
      {
        "command": "agt hook"
      }
    ]
  },
  "version": 1
}"#
    );
}

#[test]
fn settings_that_cannot_hold_the_hook_are_refused() {
    assert_eq!(claude_hooks::install(Some("{")), Err(InstallError::Malformed));
    assert_eq!(claude_hooks::install(Some("[]")), Err(InstallError::NotAnObject));
    assert_eq!(
        claude_hooks::install(Some(r#"{"hooks":{"SessionStart":3}}"#)),
        Err(InstallError::NotAnArray)
    );
    assert_eq!(cursor_hooks::install(Some("x")), Err(InstallError::Malformed));
    assert_eq!(cursor_hooks::install(Some(r#"{"hooks":1}"#)), Err(InstallError::NotAnObject));
    assert_eq!(
        cursor_hooks::install(Some(r#"{"hooks":{"sessionStart":{}}}"#)),
        Err(InstallError::NotAnArray)
    );
}

#[test]
fn a_hook_that_is_not_there_is_not_installed() {
    assert!(!claude_hooks::is_installed(None));
    assert!(!claude_hooks::is_installed(Some("{")));
    assert!(!claude_hooks::is_installed(Some("{}")));
    assert!(!cursor_hooks::is_installed(None));
    assert!(!cursor_hooks::is_installed(Some(r#"{"hooks":{"sessionStart":[{"command":"x"}]}}"#)));
}
