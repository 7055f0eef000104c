//! The configuration and how a user's file changes it.
use crate::text::{same_text, views};
use std::collections::HashMap;
use vstd::prelude::*;

verus! {

broadcast use vstd::string::group_string_axioms;

// ---------------------------------------------------------------------------
// Settings
// ---------------------------------------------------------------------------

/// All settings.
pub struct Config {
    pub transforms: TransformsConfig,
    pub agents: AgentsConfig,
    pub theme: ThemeConfig,
    pub widgets: WidgetsConfig,
}

/// Settings of widgets.
pub struct WidgetsConfig {
    pub tool_result: ToolResultWidgetConfig,
}

/// Settings of the widget of a tool's result.
pub struct ToolResultWidgetConfig {
    pub file_delta: FileDeltaWidgetConfig,
}

/// Settings of the widget of a file's changes.
#[derive(Clone, Copy, Debug, PartialEq, Eq, Structural)]
pub struct FileDeltaWidgetConfig {
    /// How many unchanged lines to show around a change; all where there is no number.
    pub context_lines: Option<usize>,
}

/// Settings of colors.
pub struct ThemeConfig {
    /// `auto`, `light` or `dark`; the terminal's background decides where there is none.
    pub mode: Option<String>,
    /// The palette for dark backgrounds.
    pub dark: Option<String>,
    /// The palette for light backgrounds.
    pub light: Option<String>,
    /// The file of styles.
    pub styles: Option<String>,
}

/// Settings of the agents' command line tools.
pub struct AgentsConfig {
    pub claude: AgentConfig,
    pub cursor: AgentConfig,
}

/// Settings of one command line tool.
pub struct AgentConfig {
    pub binary: String,
    pub extra_args: Vec<String>,
    /// Whether to rely on an installed hook, and not to pass a plugin directory.
    pub disable_plugin: bool,
}

/// Settings of the transforms.
pub struct TransformsConfig {
    pub ui_initializer: UiInitializerConfig,
    pub tool_grouper: ToolGrouperConfig,
    pub tool_formatter: ToolFormatterConfig,
    pub markdown_splitter: MarkdownSplitterConfig,
    pub table_converter: TableConverterConfig,
    pub lua: Option<LuaTransformConfig>,
}

/// Settings of what a node shows at first.
pub struct UiInitializerConfig {
    /// Settings by the name of a message type.
    pub types: HashMap<String, TypeEntry>,
    /// Settings of the other types.
    pub default: UiFlags,
}

/// What a node shows at first.
#[derive(Clone, Copy, Debug, PartialEq, Eq, Structural)]
pub struct UiFlags {
    pub expanded: bool,
    pub show_more: bool,
}

impl Default for UiFlags {
    fn default() -> (r: Self)
        ensures
            r == (UiFlags { expanded: true, show_more: false }),
    {
        UiFlags { expanded: true, show_more: false }
    }
}

/// What nodes of one type show at first.
pub struct TypeEntry {
    pub expanded: bool,
    pub show_more: bool,
    /// Settings by tag.
    pub tags: HashMap<String, TagFlags>,
}

/// What nodes with one tag show at first; what is not given stays.
#[derive(Clone, Copy, Debug, PartialEq, Eq, Structural)]
pub struct TagFlags {
    pub expanded: Option<bool>,
    pub show_more: Option<bool>,
    pub hidden: Option<bool>,
}

/// Settings of the grouping of tool calls.
pub struct ToolGrouperConfig {
    /// The user's groups, which come first.
    pub groups: Vec<ToolGroup>,
    /// The built-in groups.
    pub default_groups: Vec<ToolGroup>,
    /// Whether the built-in groups are left out.
    pub disable_defaults: bool,
    /// Whether thinking between calls joins their group.
    pub allow_thinking: bool,
}

/// A group of tools.
#[derive(Debug, PartialEq)]
pub struct ToolGroup {
    pub name: String,
    pub tools: Vec<String>,
    /// How many calls in a row make a group.
    pub min_count: usize,
    /// Whether the group shows its calls; it shows those with errors where nothing is given.
    pub expanded: Option<bool>,
    /// Whether the group's label joins the calls' arguments as one pattern.
    pub shorten_as_glob: bool,
}

/// What a `ToolGroup` holds.
#[verifier::ext_equal]
pub struct GroupModel {
    pub name: Seq<char>,
    pub tools: Seq<Seq<char>>,
    pub min_count: usize,
    pub expanded: Option<bool>,
    pub shorten_as_glob: bool,
}

impl View for ToolGroup {
    type V = GroupModel;

    open spec fn view(&self) -> GroupModel {
        GroupModel {
            name: self.name@,
            tools: views(self.tools@),
            min_count: self.min_count,
            expanded: self.expanded,
            shorten_as_glob: self.shorten_as_glob,
        }
    }
}

/// How many calls in a row make a group where nothing is given.
pub fn default_min_count() -> (r: usize)
    ensures
        r == 2,
{
    2
}

fn copy_texts(v: &Vec<String>) -> (r: Vec<String>)
    ensures
        views(r@) == views(v@),
{
    let mut out: Vec<String> = Vec::new();
    let mut i: usize = 0;
    while i < v.len()
        invariant
            i <= v@.len(),
            out@.len() == i,
            forall|k: int| 0 <= k < i ==> out@[k]@ == v@[k]@,
        decreases v@.len() - i,
    {
        out.push(v[i].clone());
        i = i + 1;
    }
    assert(views(out@) =~= views(v@));
    out
}

impl Clone for ToolGroup {
    fn clone(&self) -> (r: Self)
        ensures
            r@ == self@,
    {
        ToolGroup {
            name: self.name.clone(),
            tools: copy_texts(&self.tools),
            min_count: self.min_count,
            expanded: self.expanded,
            shorten_as_glob: self.shorten_as_glob,
        }
    }
}

/// The views of a sequence of groups.
pub open spec fn group_views(groups: Seq<ToolGroup>) -> Seq<GroupModel> {
    groups.map_values(|g: ToolGroup| g@)
}

fn append_groups(out: &mut Vec<ToolGroup>, more: &Vec<ToolGroup>)
    ensures
        group_views(final(out)@) == group_views(old(out)@) + group_views(more@),
{
    let ghost start = group_views(out@);
    let ghost all = group_views(more@);
    let mut i: usize = 0;
    assert(start + all.take(0) =~= start);
    while i < more.len()
        invariant
            i <= more@.len(),
            all == group_views(more@),
            group_views(out@) == start + all.take(i as int),
        decreases more@.len() - i,
    {
        let ghost before = out@;
        out.push(more[i].clone());
        assert(group_views(out@) =~= group_views(before).push(all[i as int]));
        assert(start + all.take(i + 1) =~= (start + all.take(i as int)).push(all[i as int]));
        i = i + 1;
    }
    assert(all.take(more@.len() as int) =~= all);
}

impl Default for ToolGrouperConfig {
    fn default() -> (r: Self)
        ensures
            r.groups@.len() == 0,
            r.default_groups@.len() == 0,
            !r.disable_defaults,
            r.allow_thinking,
    {
        ToolGrouperConfig {
            groups: Vec::new(),
            default_groups: Vec::new(),
            disable_defaults: false,
            allow_thinking: true,
        }
    }
}

/// What to go by: the user's own, then what is built in unless that is left out.
pub open spec fn in_effect<T>(own: Seq<T>, built_in: Seq<T>, disable_defaults: bool) -> Seq<T> {
    if disable_defaults {
        own
    } else {
        own + built_in
    }
}

/// The user's own come first, in order, and what is built in behind them, unless it is left out.
pub proof fn law_own_come_first<T>(own: Seq<T>, built_in: Seq<T>)
    ensures
        in_effect(own, built_in, true) == own,
        in_effect(own, built_in, false).len() == own.len() + built_in.len(),
        forall|i: int| 0 <= i < own.len() ==> in_effect(own, built_in, false)[i] == own[i],
        forall|i: int|
            0 <= i < built_in.len() ==> in_effect(own, built_in, false)[own.len() + i]
                == #[trigger] built_in[i],
{
}

impl ToolGrouperConfig {
    /// The groups to go by: the user's, then the built-in ones unless they are left out.
    pub fn effective_groups(&self) -> (r: Vec<ToolGroup>)
        ensures
            group_views(r@) == in_effect(
                group_views(self.groups@),
                group_views(self.default_groups@),
                self.disable_defaults,
            ),
    {
        let mut out: Vec<ToolGroup> = Vec::new();
        append_groups(&mut out, &self.groups);
        assert(group_views(out@) =~= group_views(self.groups@));
        if !self.disable_defaults {
            append_groups(&mut out, &self.default_groups);
        }
        out
    }
}

/// Settings of how tool calls are shown.
pub struct ToolFormatterConfig {
    /// The user's rules, which come first.
    pub rules: Vec<ToolFormatterRule>,
    /// The built-in rules.
    pub default_rules: Vec<ToolFormatterRule>,
    /// Whether the built-in rules are left out.
    pub disable_defaults: bool,
}

/// How calls of some tools are shown.
#[derive(Debug, PartialEq)]
pub struct ToolFormatterRule {
    /// The providers that the rule is for; all where nothing is given.
    pub providers: Option<Vec<String>>,
    /// Patterns of the tools' names.
    pub tools: Vec<String>,
    /// What to show, with places for the call's properties.
    pub template: String,
    /// Whether the call shows its full text.
    pub expanded: Option<bool>,
}

/// What a `ToolFormatterRule` holds.
#[verifier::ext_equal]
pub struct RuleModel {
    pub providers: Option<Seq<Seq<char>>>,
    pub tools: Seq<Seq<char>>,
    pub template: Seq<char>,
    pub expanded: Option<bool>,
}

impl View for ToolFormatterRule {
    type V = RuleModel;

    open spec fn view(&self) -> RuleModel {
        RuleModel {
            providers: match self.providers {
                Some(p) => Some(views(p@)),
                None => None,
            },
            tools: views(self.tools@),
            template: self.template@,
            expanded: self.expanded,
        }
    }
}

impl Clone for ToolFormatterRule {
    fn clone(&self) -> (r: Self)
        ensures
            r@ == self@,
    {
        ToolFormatterRule {
            providers: match &self.providers {
                Some(p) => Some(copy_texts(p)),
                None => None,
            },
            tools: copy_texts(&self.tools),
            template: self.template.clone(),
            expanded: self.expanded,
        }
    }
}

/// The views of a sequence of rules.
pub open spec fn rule_views(rules: Seq<ToolFormatterRule>) -> Seq<RuleModel> {
    rules.map_values(|g: ToolFormatterRule| g@)
}

fn append_rules(out: &mut Vec<ToolFormatterRule>, more: &Vec<ToolFormatterRule>)
    ensures
        rule_views(final(out)@) == rule_views(old(out)@) + rule_views(more@),
{
    let ghost start = rule_views(out@);
    let ghost all = rule_views(more@);
    let mut i: usize = 0;
    assert(start + all.take(0) =~= start);
    while i < more.len()
        invariant
            i <= more@.len(),
            all == rule_views(more@),
            rule_views(out@) == start + all.take(i as int),
        decreases more@.len() - i,
    {
        let ghost before = out@;
        out.push(more[i].clone());
        assert(rule_views(out@) =~= rule_views(before).push(all[i as int]));
        assert(start + all.take(i + 1) =~= (start + all.take(i as int)).push(all[i as int]));
        i = i + 1;
    }
    assert(all.take(more@.len() as int) =~= all);
}

impl ToolFormatterConfig {
    /// The rules to go by: the user's, then the built-in ones unless they are left out.
    pub fn effective_rules(&self) -> (r: Vec<ToolFormatterRule>)
        ensures
            rule_views(r@) == in_effect(
                rule_views(self.rules@),
                rule_views(self.default_rules@),
                self.disable_defaults,
            ),
    {
        let mut out: Vec<ToolFormatterRule> = Vec::new();
        append_rules(&mut out, &self.rules);
        assert(rule_views(out@) =~= rule_views(self.rules@));
        if !self.disable_defaults {
            append_rules(&mut out, &self.default_rules);
        }
        out
    }
}

/// Settings of the splitting of Markdown.
pub struct MarkdownSplitterConfig {
    pub enabled: bool,
    /// The message types that are split.
    pub types: Vec<String>,
}

impl Default for MarkdownSplitterConfig {
    fn default() -> (r: Self)
        ensures
            r.enabled,
            views(r.types@) == seq!["AgentMessage"@],
    {
        let mut types: Vec<String> = Vec::new();
        types.push("AgentMessage".to_owned());
        assert(views(types@) =~= seq!["AgentMessage"@]);
        MarkdownSplitterConfig { enabled: true, types }
    }
}

/// Settings of the making of tables.
#[derive(Clone, Copy, Debug, PartialEq, Eq, Structural)]
pub struct TableConverterConfig {
    pub enabled: bool,
}

impl Default for TableConverterConfig {
    fn default() -> (r: Self)
        ensures
            r.enabled,
    {
        TableConverterConfig { enabled: true }
    }
}

/// A transform that a script does.
pub struct LuaTransformConfig {
    pub script: Option<String>,
    pub script_path: Option<String>,
}

// ---------------------------------------------------------------------------
// Merging
// ---------------------------------------------------------------------------

/// `toml::Value`, a value of a configuration file.
#[verifier::external_type_specification]
#[verifier::external_body]
pub struct ExTomlValue(toml::Value);

/// What a `toml::Value` holds: members by key, or a value that is no table.
pub enum TomlModel {
    Table(Map<Seq<char>, TomlModel>),
    Leaf(toml::Value),
}

/// One level of a `toml::Value`.
pub(crate) enum TomlLayer {
    Table(Vec<(String, toml::Value)>),
    Leaf(toml::Value),
}

/// What a `toml::Value` holds.
pub uninterp spec fn toml_model(v: toml::Value) -> TomlModel;

/// What `toml::from_str` makes of a text; `None` where it reports an error.
pub uninterp spec fn toml_parsed(text: Seq<char>) -> Option<TomlModel>;

/// The members, put into a map one after the other.
pub open spec fn table_model(members: Seq<(String, toml::Value)>) -> Map<Seq<char>, TomlModel>
    decreases members.len(),
{
    if members.len() == 0 {
        Map::empty()
    } else {
        table_model(members.drop_last()).insert(members.last().0@, toml_model(members.last().1))
    }
}

/// No two members have the same key.
pub open spec fn distinct_keys(members: Seq<(String, toml::Value)>) -> bool {
    forall|i: int, k: int|
        0 <= i < k < members.len() ==> (#[trigger] members[i]).0@ != (#[trigger] members[k]).0@
}

/// Tells a table from other values of `toml::Value`. A table's keys are distinct, and its members
/// are moved out.
#[verifier::external_body]
fn open_toml(v: toml::Value) -> (r: TomlLayer)
    ensures
        match r {
            TomlLayer::Table(members) => toml_model(v) == TomlModel::Table(table_model(members@))
                && distinct_keys(members@),
            TomlLayer::Leaf(leaf) => toml_model(v) == TomlModel::Leaf(leaf) && leaf == v,
        },
{
    match v {
        toml::Value::Table(members) => TomlLayer::Table(members.into_iter().collect()),
        leaf => TomlLayer::Leaf(leaf),
    }
}

/// Builds a table of `toml::Value`; of equal keys the last one stays.
#[verifier::external_body]
fn close_toml(members: Vec<(String, toml::Value)>) -> (r: toml::Value)
    ensures
        toml_model(r) == TomlModel::Table(table_model(members@)),
{
    toml::Value::Table(members.into_iter().collect())
}

/// Wraps `toml::from_str::<toml::Value>`. The result is named by `toml_parsed`; the error that a
/// refused text gives is dropped.
#[verifier::external_body]
fn parse_toml(text: &str) -> (r: Option<toml::Value>)
    ensures
        toml_parsed(text@) == (match r {
            Some(v) => Some(toml_model(v)),
            None => None,
        }),
{
    toml::from_str::<toml::Value>(text).ok()
}

/// `base` as `over` changes it: tables are merged key by key, anything else is replaced.
pub open spec fn merged(base: TomlModel, over: TomlModel) -> TomlModel
    decreases over,
{
    match (base, over) {
        (TomlModel::Table(b), TomlModel::Table(o)) => TomlModel::Table(
            Map::new(
                |k: Seq<char>| b.contains_key(k) || o.contains_key(k),
                |k: Seq<char>|
                    if !o.contains_key(k) {
                        b[k]
                    } else if b.contains_key(k) {
                        merged(b[k], over->Table_0[k])
                    } else {
                        o[k]
                    },
            ),
        ),
        _ => over,
    }
}

proof fn lemma_table_has(members: Seq<(String, toml::Value)>, k: Seq<char>)
    requires
        distinct_keys(members),
    ensures
        table_model(members).contains_key(k) <==> exists|i: int|
            0 <= i < members.len() && (#[trigger] members[i]).0@ == k,
        forall|i: int|
            0 <= i < members.len() && (#[trigger] members[i]).0@ == k ==> table_model(members)[k]
                == toml_model(members[i].1),
    decreases members.len(),
{
    if members.len() > 0 {
        let front = members.drop_last();
        assert forall|i: int, j: int| 0 <= i < j < front.len() implies (#[trigger] front[i]).0@ != (
        #[trigger] front[j]).0@ by {
            assert(members[i].0@ != members[j].0@);
        }
        lemma_table_has(front, k);
        if table_model(members).contains_key(k) && members.last().0@ != k {
            let i = choose|i: int| 0 <= i < front.len() && (#[trigger] front[i]).0@ == k;
            assert(members[i].0@ == k);
        }
        if exists|i: int| 0 <= i < members.len() && (#[trigger] members[i]).0@ == k {
            let i = choose|i: int| 0 <= i < members.len() && (#[trigger] members[i]).0@ == k;
            if i < front.len() {
                assert(front[i].0@ == k);
            } else {
                assert(members.last().0@ == k);
            }
        }
        assert forall|i: int|
            0 <= i < members.len() && (#[trigger] members[i]).0@ == k implies table_model(
            members,
        )[k] == toml_model(members[i].1) by {
            if i < front.len() {
                assert(front[i].0@ == k);
                assert(members[i].0@ != members[members.len() - 1].0@);
            }
        }
    }
}

proof fn lemma_table_remove(members: Seq<(String, toml::Value)>, i: int)
    requires
        distinct_keys(members),
        0 <= i < members.len(),
    ensures
        distinct_keys(members.remove(i)),
        table_model(members.remove(i)) == table_model(members).remove(members[i].0@),
{
    let rest = members.remove(i);
    let key = members[i].0@;
    assert forall|a: int, b: int| 0 <= a < b < rest.len() implies (#[trigger] rest[a]).0@ != (
    #[trigger] rest[b]).0@ by {
        let x = if a < i {
            a
        } else {
            a + 1
        };
        let y = if b < i {
            b
        } else {
            b + 1
        };
        assert(members[x].0@ != members[y].0@);
    }
    let cut = table_model(members).remove(key);
    assert forall|k: Seq<char>| #[trigger]
        table_model(rest).dom().contains(k) == cut.dom().contains(k) by {
        lemma_table_has(members, k);
        lemma_table_has(rest, k);
        if table_model(rest).contains_key(k) {
            let a = choose|a: int| 0 <= a < rest.len() && (#[trigger] rest[a]).0@ == k;
            let x = if a < i {
                a
            } else {
                a + 1
            };
            assert(rest[a] == members[x]);
            assert(members[x].0@ != members[i].0@);
        }
        if cut.contains_key(k) {
            let x = choose|x: int| 0 <= x < members.len() && (#[trigger] members[x]).0@ == k;
            let a = if x < i {
                x
            } else {
                x - 1
            };
            assert(rest[a] == members[x]);
        }
    }
    assert forall|k: Seq<char>| table_model(rest).dom().contains(k) implies #[trigger] table_model(
        rest,
    )[k] == cut[k] by {
        lemma_table_has(members, k);
        lemma_table_has(rest, k);
        let a = choose|a: int| 0 <= a < rest.len() && (#[trigger] rest[a]).0@ == k;
        let x = if a < i {
            a
        } else {
            a + 1
        };
        assert(rest[a] == members[x]);
        assert(members[x].0@ != members[i].0@);
    }
    assert(table_model(rest) =~= table_model(members).remove(key));
}

proof fn lemma_table_push(members: Seq<(String, toml::Value)>, key: String, v: toml::Value)
    requires
        distinct_keys(members),
        !table_model(members).contains_key(key@),
    ensures
        distinct_keys(members.push((key, v))),
        table_model(members.push((key, v))) == table_model(members).insert(key@, toml_model(v)),
{
    let all = members.push((key, v));
    assert(all.drop_last() =~= members);
    lemma_table_has(members, key@);
    assert forall|a: int, b: int| 0 <= a < b < all.len() implies (#[trigger] all[a]).0@ != (
    #[trigger] all[b]).0@ by {
        if b < members.len() {
            assert(members[a].0@ != members[b].0@);
        } else {
            assert(members[a].0@ != key@);
        }
    }
}

fn find_key(members: &Vec<(String, toml::Value)>, key: &str) -> (r: Option<usize>)
    requires
        distinct_keys(members@),
    ensures
        match r {
            Some(i) => i < members@.len() && members@[i as int].0@ == key@,
            None => !table_model(members@).contains_key(key@),
        },
{
    let mut i: usize = 0;
    while i < members.len()
        invariant
            i <= members@.len(),
            forall|k: int| 0 <= k < i ==> (#[trigger] members@[k]).0@ != key@,
        decreases members@.len() - i,
    {
        if same_text(members[i].0.as_str(), key) {
            return Some(i);
        }
        i = i + 1;
    }
    proof {
        lemma_table_has(members@, key@);
    }
    None
}

/// What the members of `o` that `seen` holds make of the table `b`.
spec fn merged_so_far(
    b: Map<Seq<char>, TomlModel>,
    seen: Map<Seq<char>, TomlModel>,
    out: Map<Seq<char>, TomlModel>,
) -> bool {
    TomlModel::Table(out) == merged(TomlModel::Table(b), TomlModel::Table(seen))
}

/// `base` as `over` changes it: tables are merged key by key, anything else is replaced.
pub fn merge_toml(base: toml::Value, over: toml::Value) -> (r: toml::Value)
    ensures
        toml_model(r) == merged(toml_model(base), toml_model(over)),
    decreases toml_model(over),
{
    let ghost m = toml_model(over);
    match (open_toml(base), open_toml(over)) {
        (TomlLayer::Table(b), TomlLayer::Table(o)) => {
            let ghost bm = table_model(b@);
            let ghost all = o@;
            let ghost om = table_model(all);
            let mut out = b;
            proof {
                let none = table_model(all.take(0));
                assert(merged(TomlModel::Table(bm), TomlModel::Table(none))->Table_0 =~= bm);
            }
            for member in it: o
                invariant
                    it.seq() == all,
                    m == toml_model(over),
                    m == TomlModel::Table(om),
                    om == table_model(all),
                    distinct_keys(all),
                    distinct_keys(out@),
                    merged_so_far(
                        bm,
                        table_model(all.take(it.index() as int)),
                        table_model(out@),
                    ),
            {
                let ghost i = it.index() as int;
                let ghost seen = table_model(all.take(i));
                let ghost more = table_model(all.take(i + 1));
                let (key, v) = member;
                proof {
                    assert(all[i] == (key, v));
                    assert(all.take(i + 1).drop_last() =~= all.take(i));
                    assert(more == seen.insert(key@, toml_model(v)));
                    assert(!seen.contains_key(key@)) by {
                        let front = all.take(i);
                        assert(distinct_keys(front)) by {
                            assert forall|a: int, c: int| 0 <= a < c < front.len() implies (
                            #[trigger] front[a]).0@ != (#[trigger] front[c]).0@ by {
                                assert(all[a].0@ != all[c].0@);
                            }
                        }
                        lemma_table_has(front, key@);
                        if seen.contains_key(key@) {
                            let a = choose|a: int|
                                0 <= a < front.len() && (#[trigger] front[a]).0@ == key@;
                            assert(all[a].0@ != all[i].0@);
                        }
                    }
                    lemma_table_has(all, key@);
                    assert(om.contains_key(key@) && om[key@] == toml_model(v));
                    assert(decreases_to!(m => m->Table_0[key@]));
                }
                let ghost before = table_model(out@);
                match find_key(&out, key.as_str()) {
                    Some(at) => {
                        proof {
                            lemma_table_has(out@, key@);
                            lemma_table_remove(out@, at as int);
                        }
                        let (_, old_value) = out.remove(at);
                        let ghost old_model = toml_model(old_value);
                        let value = merge_toml(old_value, v);
                        proof {
                            lemma_table_push(out@, key, value);
                            assert(before[key@] == old_model);
                            assert(bm.contains_key(key@) && bm[key@] == old_model);
                        }
                        out.push((key, value));
                        proof {
                            assert(merged(TomlModel::Table(bm), TomlModel::Table(more))->Table_0
                                =~= table_model(out@));
                        }
                    },
                    None => {
                        proof {
                            lemma_table_push(out@, key, v);
                        }
                        out.push((key, v));
                        proof {
                            assert(merged(TomlModel::Table(bm), TomlModel::Table(more))->Table_0
                                =~= table_model(out@));
                        }
                    },
                }
            }
            proof {
                assert(all.take(all.len() as int) =~= all);
            }
            close_toml(out)
        },
        (_, TomlLayer::Table(o)) => close_toml(o),
        (_, TomlLayer::Leaf(leaf)) => leaf,
    }
}

/// The settings with the text of a user's file merged in. A text that is no TOML changes nothing.
pub fn with_user_settings(base: toml::Value, user: Option<&str>) -> (r: toml::Value)
    ensures
        toml_model(r) == (match user {
            Some(text) => match toml_parsed(text@) {
                Some(over) => merged(toml_model(base), over),
                None => toml_model(base),
            },
            None => toml_model(base),
        }),
{
    match user {
        Some(text) => match parse_toml(text) {
            Some(over) => merge_toml(base, over),
            None => base,
        },
        None => base,
    }
}

// ---------------------------------------------------------------------------
// Laws
// ---------------------------------------------------------------------------

/// A key that the user's table does not name keeps its value; one that only the user's table names
/// gets it; one that both name gets the user's value, or both tables merged.
pub proof fn law_merge_by_key(
    b: Map<Seq<char>, TomlModel>,
    o: Map<Seq<char>, TomlModel>,
    k: Seq<char>,
)
    ensures
        ({
            let m = merged(TomlModel::Table(b), TomlModel::Table(o));
            &&& m is Table
            &&& m->Table_0.contains_key(k) <==> b.contains_key(k) || o.contains_key(k)
            &&& b.contains_key(k) && !o.contains_key(k) ==> m->Table_0[k] == b[k]
            &&& o.contains_key(k) && !b.contains_key(k) ==> m->Table_0[k] == o[k]
            &&& o.contains_key(k) && o[k] is Leaf ==> m->Table_0[k] == o[k]
            &&& b.contains_key(k) && o.contains_key(k) ==> m->Table_0[k] == merged(b[k], o[k])
        }),
{
}

/// Merging the same settings twice is merging them once.
pub proof fn law_merge_idempotent(base: TomlModel, over: TomlModel)
    ensures
        merged(merged(base, over), over) == merged(base, over),
    decreases over,
{
    match (base, over) {
        (TomlModel::Table(b), TomlModel::Table(o)) => {
            let once = merged(base, over);
            let twice = merged(once, over);
            assert forall|k: Seq<char>| o.contains_key(k) implies #[trigger] twice->Table_0[k]
                == once->Table_0[k] by {
                assert(decreases_to!(over => over->Table_0[k]));
                if b.contains_key(k) {
                    law_merge_idempotent(b[k], o[k]);
                } else {
                    law_merge_self(o[k]);
                }
            }
            assert(twice->Table_0 =~= once->Table_0);
        },
        (TomlModel::Leaf(_), TomlModel::Table(o)) => {
            law_merge_self(over);
        },
        _ => {},
    }
}

/// Settings merged with themselves are what they were.
pub proof fn law_merge_self(v: TomlModel)
    ensures
        merged(v, v) == v,
    decreases v,
{
    match v {
        TomlModel::Table(t) => {
            let m = merged(v, v);
            assert forall|k: Seq<char>| t.contains_key(k) implies #[trigger] m->Table_0[k]
                == t[k] by {
                assert(decreases_to!(v => v->Table_0[k]));
                law_merge_self(t[k]);
            }
            assert(m->Table_0 =~= t);
        },
        TomlModel::Leaf(_) => {},
    }
}

} // verus!
