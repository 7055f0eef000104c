//! The plugin that a tool is started with.
use crate::json::{json_parsed, parse_json, str_field};
use crate::providers::{ProviderKind, ProviderNames};
use crate::text::{below, concat2, concat3, path_below, same_text};
use crate::tree::text_opt;
use vstd::prelude::*;
use vstd::string::*;

verus! {

broadcast use vstd::string::group_string_axioms;

/// The files of a plugin.
#[derive(Debug, PartialEq)]
pub struct PluginSpec {
    /// The directory of the manifest.
    pub manifest_subdir: String,
    pub manifest_json: String,
    pub hooks_json: String,
}

/// A plugin.
#[derive(Debug, PartialEq)]
pub struct PluginInfo {
    pub spec: PluginSpec,
    /// The name of the directory that the plugin is put into. A tool shows it when it lists its
    /// plugins.
    pub dir_name: String,
}

/// The plugin of a provider, with the texts of its files; only the first provider has one.
pub fn plugin_info(
    provider: ProviderKind,
    names: &ProviderNames,
    manifest_json: String,
    hooks_json: String,
) -> (r: Option<PluginInfo>)
    ensures
        match r {
            Some(info) => {
                &&& provider == ProviderKind::Claude
                &&& info.spec.manifest_subdir@ == "."@ + names.claude@ + "-plugin"@
                &&& info.spec.manifest_json == manifest_json
                &&& info.spec.hooks_json == hooks_json
                &&& info.dir_name@ == "agent-transcript-"@ + names.claude@
            },
            None => provider == ProviderKind::Cursor,
        },
{
    match provider {
        ProviderKind::Claude => Some(
            PluginInfo {
                spec: PluginSpec {
                    manifest_subdir: concat3(".", names.claude.as_str(), "-plugin"),
                    manifest_json,
                    hooks_json,
                },
                dir_name: concat2("agent-transcript-", names.claude.as_str()),
            },
        ),
        ProviderKind::Cursor => None,
    }
}

/// Where configuration stands, by what the environment names.
pub open spec fn config_dir(xdg: Option<Seq<char>>, home: Option<Seq<char>>) -> Seq<char> {
    match xdg {
        Some(dir) => dir,
        None => match home {
            Some(h) => below(h, ".config"@),
            None => "./.config"@,
        },
    }
}

/// Where configuration stands.
pub fn system_config_dir(xdg: Option<String>, home: Option<String>) -> (r: String)
    ensures
        r@ == config_dir(text_opt(xdg), text_opt(home)),
{
    match xdg {
        Some(dir) => dir,
        None => match home {
            Some(h) => path_below(h.as_str(), ".config"),
            None => "./.config".to_owned(),
        },
    }
}

/// The version that a manifest tells.
pub open spec fn version_in(json: Seq<char>) -> Option<Seq<char>> {
    match json_parsed(json) {
        Some(v) => str_field(v, "version"@),
        None => None,
    }
}

/// The version that a manifest tells.
pub fn manifest_version(json: &str) -> (r: Option<String>)
    ensures
        text_opt(r) == version_in(json@),
{
    match parse_json(json) {
        Some(v) => match v.get_str("version") {
            Some(version) => Some(version.to_owned()),
            None => None,
        },
        None => None,
    }
}

/// Whether the plugin is there in the version that is to be there. A version that is not known is
/// never there.
pub open spec fn up_to_date(wanted: Option<Seq<char>>, there: Option<Seq<char>>) -> bool {
    wanted is Some && wanted == there
}

/// Whether the plugin is there in the version that is to be there.
pub fn same_version(wanted: &Option<String>, there: &Option<String>) -> (r: bool)
    ensures
        r == up_to_date(text_opt(*wanted), text_opt(*there)),
{
    match (wanted, there) {
        (Some(a), Some(b)) => same_text(a.as_str(), b.as_str()),
        _ => false,
    }
}

/// A file to write, by its path below the plugin's directory.
#[derive(Debug, PartialEq)]
pub struct PluginFile {
    pub path: String,
    pub content: String,
}

/// What to write into the plugin's directory, after it was emptied; nothing where the manifest
/// that is there tells the version that is to be there.
pub fn extract_to(spec: &PluginSpec, deployed: Option<&str>) -> (r: Option<Vec<PluginFile>>)
    ensures
        ({
            let there = match deployed {
                Some(text) => version_in(text@),
                None => None,
            };
            if up_to_date(version_in(spec.manifest_json@), there) {
                r is None
            } else {
                &&& r is Some
                &&& r->0@.len() == 2
                &&& r->0@[0].path@ == spec.manifest_subdir@ + "/"@ + "plugin.json"@
                &&& r->0@[0].content@ == spec.manifest_json@
                &&& r->0@[1].path@ == "hooks/hooks.json"@
                &&& r->0@[1].content@ == spec.hooks_json@
            }
        }),
{
    let there = match deployed {
        Some(text) => manifest_version(text),
        None => None,
    };
    let wanted = manifest_version(spec.manifest_json.as_str());
    if same_version(&wanted, &there) {
        return None;
    }
    let mut files: Vec<PluginFile> = Vec::new();
    files.push(
        PluginFile {
            path: concat3(spec.manifest_subdir.as_str(), "/", "plugin.json"),
            content: spec.manifest_json.clone(),
        },
    );
    files.push(
        PluginFile { path: "hooks/hooks.json".to_owned(), content: spec.hooks_json.clone() },
    );
    Some(files)
}

/// A plugin that was written is not written again, as long as its version stays.
pub proof fn law_written_once(manifest: Seq<char>)
    requires
        version_in(manifest) is Some,
    ensures
        up_to_date(version_in(manifest), version_in(manifest)),
{
}

/// A plugin of another version is written anew.
pub proof fn law_other_version_is_written(manifest: Seq<char>, there: Seq<char>)
    requires
        version_in(manifest) != version_in(there),
    ensures
        !up_to_date(version_in(manifest), version_in(there)),
{
}

/// The directory of a provider's plugin; the other provider has none.
pub fn plugin_dir(provider: ProviderKind, config_dir: &str, dir_name: &str) -> (r: Result<
    String,
    String,
>)
    ensures
        match provider {
            ProviderKind::Claude => r is Ok && r->Ok_0@ == below(
                below(config_dir@, "agent-transcript"@),
                dir_name@,
            ),
            ProviderKind::Cursor => r is Err && r->Err_0@
                == "no plugin defined for provider Cursor"@,
        },
{
    match provider {
        ProviderKind::Claude => Ok(
            path_below(path_below(config_dir, "agent-transcript").as_str(), dir_name),
        ),
        ProviderKind::Cursor => Err("no plugin defined for provider Cursor".to_owned()),
    }
}

} // verus!
