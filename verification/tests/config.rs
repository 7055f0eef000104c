use agt::config::{
    default_min_count, merge_toml, with_user_settings, ToolFormatterConfig, ToolFormatterRule,
    ToolGroup, ToolGrouperConfig,
};

fn toml(text: &str) -> toml::Value {
    text.parse::<toml::Table>().map(toml::Value::Table).unwrap()
}

#[test]
fn tables_are_merged_and_values_replaced() {
    let base = toml("a = 1\nlist = [1, 2]\n[t]\nx = 1\ny = 2\n");
    let over = toml("b = 3\nlist = [9]\n[t]\ny = 5\n");
    assert_eq!(
        merge_toml(base, over),
        toml("a = 1\nb = 3\nlist = [9]\n[t]\nx = 1\ny = 5\n")
    );
    assert_eq!(merge_toml(toml("[t]\nx = 1\n"), toml("t = 2\n")), toml("t = 2\n"));
}

#[test]
fn settings_that_cannot_be_read_are_passed_over() {
    let base = toml("a = 1\n");
    assert_eq!(with_user_settings(base.clone(), None), base);
    assert_eq!(with_user_settings(base.clone(), Some("a = ")), base);
    assert_eq!(with_user_settings(base, Some("a = 2\n")), toml("a = 2\n"));
}

fn group(name: &str) -> ToolGroup {
    ToolGroup {
        name: name.to_string(),
        tools: vec!["Read".to_string()],
        min_count: default_min_count(),
        expanded: None,
        shorten_as_glob: false,
    }
}

#[test]
fn the_users_groups_come_first() {
    let mut c = ToolGrouperConfig {
        groups: vec![group("mine")],
        default_groups: vec![group("builtin")],
        disable_defaults: false,
        allow_thinking: false,
    };
    assert_eq!(c.effective_groups(), vec![group("mine"), group("builtin")]);
    c.disable_defaults = true;
    assert_eq!(c.effective_groups(), vec![group("mine")]);
    assert_eq!(default_min_count(), 2);
}

fn rule(template: &str) -> ToolFormatterRule {
    ToolFormatterRule {
        providers: None,
        tools: vec!["*".to_string()],
        template: template.to_string(),
        expanded: Some(true),
    }
}

#[test]
fn the_users_rules_come_first() {
    let mut c = ToolFormatterConfig {
        rules: vec![rule("mine")],
        default_rules: vec![rule("builtin")],
        disable_defaults: false,
    };
    assert_eq!(c.effective_rules(), vec![rule("mine"), rule("builtin")]);
    c.disable_defaults = true;
    assert_eq!(c.effective_rules(), vec![rule("mine")]);
}
