use agt::json::parse_json;
use agt::plugin_install::{
    extract_to, manifest_version, plugin_dir, plugin_info, same_version, system_config_dir, PluginInfo,
};
use agt::providers::{ProviderKind, ProviderNames};

fn info_of(kind: ProviderKind) -> Option<PluginInfo> {
    plugin_info(
        kind,
        &ProviderNames { claude: "alpha".to_string() },
        r#"{"name":"agent-transcript","version":"1.0.0"}"#.to_string(),
        r#"{"hooks":{}}"#.to_string(),
    )
}

#[test]
fn claude_plugin_creates_expected_files() {
    let info = info_of(ProviderKind::Claude).unwrap();
    let files = extract_to(&info.spec, None).unwrap();

    let manifest = files.iter().find(|f| f.path == ".alpha-plugin/plugin.json").unwrap();
    assert!(files.iter().any(|f| f.path == "hooks/hooks.json"));

    let manifest = parse_json(&manifest.content).unwrap();
    assert_eq!(manifest.get_str("version"), Some("1.0.0"));
}

#[test]
fn idempotent_when_version_matches() {
    let info = info_of(ProviderKind::Claude).unwrap();
    let files = extract_to(&info.spec, None).unwrap();

    // The manifest that was written names the version, so nothing is written again.
    assert!(extract_to(&info.spec, Some(files[0].content.as_str())).is_none());
}

#[test]
fn re_extracts_when_version_differs() {
    let info = info_of(ProviderKind::Claude).unwrap();

    let files = extract_to(&info.spec, Some(r#"{"version":"0.9.0"}"#)).unwrap();
    let hooks = files.iter().find(|f| f.path == "hooks/hooks.json").unwrap();
    assert_ne!(hooks.content, "{}");
    assert_eq!(hooks.content, info.spec.hooks_json);
}

#[test]
fn cursor_has_no_plugin() {
    assert!(info_of(ProviderKind::Cursor).is_none());
    assert!(plugin_dir(ProviderKind::Cursor, "/c", "d").is_err());
}

#[test]
fn a_manifest_without_a_version_is_always_written() {
    let mut spec = info_of(ProviderKind::Claude).unwrap().spec;
    spec.manifest_json = "{}".to_string();
    assert!(extract_to(&spec, Some("{}")).is_some());
    assert_eq!(manifest_version("no json"), None);
    assert_eq!(manifest_version(r#"{"version":2}"#), None);
    assert!(!same_version(&None, &None));
    assert!(same_version(&Some("1".to_string()), &Some("1".to_string())));
}

#[test]
fn the_plugin_lies_below_the_settings() {
    assert_eq!(system_config_dir(Some("/x".to_string()), None), "/x");
    assert_eq!(system_config_dir(None, Some("/home/u".to_string())), "/home/u/.config");
    assert_eq!(system_config_dir(None, None), "./.config");
    assert_eq!(
        plugin_dir(ProviderKind::Claude, "/x", "d"),
        Ok("/x/agent-transcript/d".to_string())
    );
}
