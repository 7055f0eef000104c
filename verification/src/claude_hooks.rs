//! The session hook in a tool's settings, which list hooks in groups.
use crate::claude::message::at;
use crate::json::{
    field, items_field, json_parsed, law_set_member, members_of, parse_json, pretty, set_member,
    str_field, Json, JsonModel,
};
use crate::text::same_text;
use vstd::prelude::*;
use vstd::string::*;

verus! {

broadcast use vstd::string::group_string_axioms;

/// Why a hook cannot be put into settings.
#[derive(Clone, Copy, Debug, PartialEq, Eq, Structural)]
pub enum InstallError {
    /// The settings are no JSON.
    Malformed,
    /// The settings, or their hooks, are no object.
    NotAnObject,
    /// The hooks of the start of a session are no array.
    NotAnArray,
}

/// The command of the hook.
pub open spec fn hook_command() -> Seq<char> {
    "agt hook"@
}

/// Whether a hook runs the command.
pub open spec fn runs_command(hook: JsonModel) -> bool {
    str_field(hook, "command"@) == Some(hook_command())
}

/// Whether one of the hooks runs the command.
pub open spec fn some_runs(hooks: Seq<JsonModel>) -> bool {
    exists|i: int| 0 <= i < hooks.len() && runs_command(#[trigger] hooks[i])
}

/// Whether a group holds a hook that runs the command.
pub open spec fn group_runs(group: JsonModel) -> bool {
    match items_field(group, "hooks"@) {
        Some(hooks) => some_runs(hooks),
        None => false,
    }
}

/// Whether one of the groups holds a hook that runs the command.
pub open spec fn some_group_runs(groups: Seq<JsonModel>) -> bool {
    exists|i: int| 0 <= i < groups.len() && group_runs(#[trigger] groups[i])
}

/// Whether settings hold the hook.
pub open spec fn holds_hook(v: JsonModel) -> bool {
    match items_field(at(v, "hooks"@), "SessionStart"@) {
        Some(groups) => some_group_runs(groups),
        None => false,
    }
}

/// Whether one of the hooks runs the command.
pub fn any_runs(hooks: &Vec<Json>) -> (r: bool)
    ensures
        r == some_runs(Json::Array(*hooks)@->Array_0),
{
    let ghost all = Json::Array(*hooks)@->Array_0;
    let mut i: usize = 0;
    while i < hooks.len()
        invariant
            i <= hooks@.len(),
            all == Json::Array(*hooks)@->Array_0,
            all.len() == hooks@.len(),
            forall|k: int| 0 <= k < i ==> !runs_command(#[trigger] all[k]),
        decreases hooks@.len() - i,
    {
        assert(all[i as int] == hooks@[i as int]@);
        let runs = match hooks[i].get_str("command") {
            Some(c) => same_text(c, "agt hook"),
            None => false,
        };
        if runs {
            return true;
        }
        i = i + 1;
    }
    false
}

/// Whether settings hold the hook.
pub fn hook_present(v: &Json) -> (r: bool)
    ensures
        r == holds_hook(v@),
{
    let start = match v.get("hooks") {
        Some(hooks) => hooks.get("SessionStart"),
        None => None,
    };
    let groups = match start {
        Some(Json::Array(groups)) => groups,
        _ => {
            return false;
        },
    };
    let ghost all = Json::Array(*groups)@->Array_0;
    let mut i: usize = 0;
    while i < groups.len()
        invariant
            i <= groups@.len(),
            all == Json::Array(*groups)@->Array_0,
            all.len() == groups@.len(),
            holds_hook(v@) == some_group_runs(all),
            forall|k: int| 0 <= k < i ==> !group_runs(#[trigger] all[k]),
        decreases groups@.len() - i,
    {
        assert(all[i as int] == groups@[i as int]@);
        let runs = match groups[i].get("hooks") {
            Some(Json::Array(hooks)) => any_runs(hooks),
            _ => false,
        };
        if runs {
            return true;
        }
        i = i + 1;
    }
    false
}

/// Whether the hook is installed, by the text of the settings, where they can be read.
pub fn is_installed(data: Option<&str>) -> (r: bool)
    ensures
        r == (match data {
            Some(text) => match json_parsed(text@) {
                Some(v) => holds_hook(v),
                None => false,
            },
            None => false,
        }),
{
    match data {
        Some(text) => match parse_json(text) {
            Some(v) => hook_present(&v),
            None => false,
        },
        None => false,
    }
}

/// The group that holds the hook.
pub open spec fn new_group() -> JsonModel {
    JsonModel::Object(
        seq![
            ("matcher"@, JsonModel::Str(""@)),
            (
                "hooks"@,
                JsonModel::Array(
                    seq![
                        JsonModel::Object(
                            seq![
                                ("type"@, JsonModel::Str("command"@)),
                                ("command"@, JsonModel::Str(hook_command())),
                            ],
                        ),
                    ],
                ),
            ),
        ],
    )
}

/// The settings with the hook in them. What is missing, or null, on the way is made.
pub open spec fn with_hook(v: JsonModel) -> Result<JsonModel, InstallError> {
    let hooks = at(v, "hooks"@);
    let start = at(hooks, "SessionStart"@);
    if !(v is Object || v is Null) || !(hooks is Object || hooks is Null) {
        Err(InstallError::NotAnObject)
    } else if !(start is Array || start is Null) {
        Err(InstallError::NotAnArray)
    } else {
        let groups = match start {
            JsonModel::Array(items) => items,
            _ => Seq::empty(),
        };
        let all = if some_group_runs(groups) {
            groups
        } else {
            groups.push(new_group())
        };
        Ok(
            JsonModel::Object(
                set_member(
                    members_of(v),
                    "hooks"@,
                    JsonModel::Object(
                        set_member(members_of(hooks), "SessionStart"@, JsonModel::Array(all)),
                    ),
                ),
            ),
        )
    }
}

fn make_group() -> (r: Json)
    ensures
        r@ == new_group(),
{
    let mut hook: Vec<(String, Json)> = Vec::new();
    hook.push(("type".to_owned(), Json::Str("command".to_owned())));
    hook.push(("command".to_owned(), Json::Str("agt hook".to_owned())));
    let hook = Json::Object(hook);
    let ghost hook_model = hook@;
    proof {
        reveal_with_fuel(crate::json::json_model, 2);
        assert(hook_model->Object_0 =~= seq![
            ("type"@, JsonModel::Str("command"@)),
            ("command"@, JsonModel::Str(hook_command())),
        ]);
    }
    let mut hooks: Vec<Json> = Vec::new();
    hooks.push(hook);
    let list = Json::Array(hooks);
    let ghost list_model = list@;
    assert(list_model->Array_0 =~= seq![hook_model]);
    let mut group: Vec<(String, Json)> = Vec::new();
    group.push(("matcher".to_owned(), Json::Str("".to_owned())));
    group.push(("hooks".to_owned(), list));
    let r = Json::Object(group);
    proof {
        reveal_with_fuel(crate::json::json_model, 2);
        assert(r@->Object_0 =~= seq![
            ("matcher"@, JsonModel::Str(""@)),
            ("hooks"@, list_model),
        ]);
    }
    r
}

/// The value of a member, or null.
pub fn member_or_null(v: &Json, key: &str) -> (r: Json)
    ensures
        r@ == at(v@, key@),
{
    match v.get(key) {
        Some(m) => m.clone(),
        None => Json::Null,
    }
}

/// Puts the hook into settings.
pub fn install_into(v: Json) -> (r: Result<Json, InstallError>)
    ensures
        match r {
            Ok(after) => with_hook(v@) == Ok::<JsonModel, InstallError>(after@),
            Err(e) => with_hook(v@) == Err::<JsonModel, InstallError>(e),
        },
{
    let hooks = member_or_null(&v, "hooks");
    let start = member_or_null(&hooks, "SessionStart");
    match &v {
        Json::Object(_) => {},
        Json::Null => {},
        _ => {
            return Err(InstallError::NotAnObject);
        },
    }
    match &hooks {
        Json::Object(_) => {},
        Json::Null => {},
        _ => {
            return Err(InstallError::NotAnObject);
        },
    }
    let ghost start_model = start@;
    let mut groups: Vec<Json> = match start {
        Json::Array(groups) => groups,
        Json::Null => Vec::new(),
        _ => {
            return Err(InstallError::NotAnArray);
        },
    };
    let ghost known = Json::Array(groups)@->Array_0;
    assert(start_model is Null ==> known =~= Seq::empty());
    let present = hook_present(&v);
    assert(present == some_group_runs(known)) by {
        if start_model is Null {
            assert(!holds_hook(v@));
        }
    }
    if !present {
        let group = make_group();
        groups.push(group);
        assert(Json::Array(groups)@->Array_0 =~= known.push(new_group()));
    }
    Ok(v.with("hooks", hooks.with("SessionStart", Json::Array(groups))))
}

/// The text of the settings with the hook in them, from the text that there was.
pub fn install(data: Option<&str>) -> (r: Result<String, InstallError>)
    ensures
        ({
            let before = match data {
                Some(text) => json_parsed(text@),
                None => Some(JsonModel::Object(Seq::empty())),
            };
            match before {
                None => r == Err::<String, InstallError>(InstallError::Malformed),
                Some(v) => match with_hook(v) {
                    Ok(after) => r is Ok && r->Ok_0@ == pretty(after),
                    Err(e) => r == Err::<String, InstallError>(e),
                },
            }
        }),
{
    let v = match data {
        Some(text) => match parse_json(text) {
            Some(v) => v,
            None => {
                return Err(InstallError::Malformed);
            },
        },
        None => {
            let v = Json::Object(Vec::new());
            assert(v@->Object_0 =~= Seq::empty());
            v
        },
    };
    match install_into(v) {
        Ok(after) => Ok(after.to_pretty()),
        Err(e) => Err(e),
    }
}

proof fn lemma_new_group_runs()
    ensures
        group_runs(new_group()),
{
    let hook = JsonModel::Object(
        seq![
            ("type"@, JsonModel::Str("command"@)),
            ("command"@, JsonModel::Str(hook_command())),
        ],
    );
    reveal_strlit("type");
    reveal_strlit("command");
    reveal_strlit("matcher");
    reveal_strlit("hooks");
    let ms = hook->Object_0;
    assert(ms[0].0.len() != "command"@.len());
    assert(ms.skip(1)[0] == ("command"@, JsonModel::Str(hook_command())));
    reveal_with_fuel(crate::json::member, 3);
    assert(field(hook, "command"@) == Some(JsonModel::Str(hook_command())));
    assert(runs_command(hook));
    let hooks = seq![hook];
    assert(runs_command(hooks[0]));
    let gs = new_group()->Object_0;
    assert(gs[0].0.len() != "hooks"@.len());
    assert(gs.skip(1)[0] == ("hooks"@, JsonModel::Array(hooks)));
    assert(field(new_group(), "hooks"@) == Some(JsonModel::Array(hooks)));
}

/// Once installed, the hook is there; to install it again changes nothing, and no other setting is
/// ever touched.
pub proof fn law_install(v: JsonModel, other: Seq<char>)
    requires
        with_hook(v) is Ok,
        other != "hooks"@,
    ensures
        holds_hook(with_hook(v)->Ok_0),
        with_hook(with_hook(v)->Ok_0) == with_hook(v),
        field(with_hook(v)->Ok_0, other) == field(v, other),
{
    let after = with_hook(v)->Ok_0;
    let hooks = at(v, "hooks"@);
    let start = at(hooks, "SessionStart"@);
    let groups = match start {
        JsonModel::Array(items) => items,
        _ => Seq::empty(),
    };
    let all = if some_group_runs(groups) {
        groups
    } else {
        groups.push(new_group())
    };
    let hooks2 = JsonModel::Object(
        set_member(members_of(hooks), "SessionStart"@, JsonModel::Array(all)),
    );
    law_set_member(members_of(v), "hooks"@, hooks2, other);
    law_set_member(members_of(hooks), "SessionStart"@, JsonModel::Array(all), other);
    assert(at(after, "hooks"@) == hooks2);
    assert(at(hooks2, "SessionStart"@) == JsonModel::Array(all));
    assert(some_group_runs(all)) by {
        if !some_group_runs(groups) {
            lemma_new_group_runs();
            assert(all[groups.len() as int] == new_group());
        }
    }
    law_set_member(members_of(hooks2), "SessionStart"@, JsonModel::Array(all), other);
    law_set_member(members_of(after), "hooks"@, hooks2, other);
    reveal_with_fuel(crate::json::member, 2);
    if v is Null {
        assert(members_of(v) =~= Seq::empty());
    }
}

} // verus!
