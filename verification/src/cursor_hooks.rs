//! The session hook in a tool's hooks file.
use crate::claude::message::at;
use crate::claude_hooks::{
    any_runs, hook_command, member_or_null, runs_command, some_runs, InstallError,
};
use crate::json::{
    field, items_field, json_parsed, law_set_member, members_of, parse_json, pretty, set_member,
    Json, JsonModel,
};
use vstd::prelude::*;
use vstd::string::*;

verus! {

broadcast use vstd::string::group_string_axioms;

/// Whether the hooks file holds the hook.
pub open spec fn holds_hook(v: JsonModel) -> bool {
    match items_field(at(v, "hooks"@), "sessionStart"@) {
        Some(hooks) => some_runs(hooks),
        None => false,
    }
}

/// Whether the hook is installed, by the text of the hooks file, where it can be read.
pub fn is_installed(data: Option<&str>) -> (r: bool)
    ensures
        r == (match data {
            Some(text) => match json_parsed(text@) {
                Some(v) => holds_hook(v),
                None => false,
            },
            None => false,
        }),
{
    let v = match data {
        Some(text) => match parse_json(text) {
            Some(v) => v,
            None => {
                return false;
            },
        },
        None => {
            return false;
        },
    };
    let start = match v.get("hooks") {
        Some(hooks) => hooks.get("sessionStart"),
        None => None,
    };
    match start {
        Some(Json::Array(hooks)) => any_runs(hooks),
        _ => false,
    }
}

/// The hook.
pub open spec fn new_hook() -> JsonModel {
    JsonModel::Object(seq![("command"@, JsonModel::Str(hook_command()))])
}

/// The hooks file with the hook in it. What is missing, or null, on the way is made.
pub open spec fn with_hook(v: JsonModel) -> Result<JsonModel, InstallError> {
    let hooks = at(v, "hooks"@);
    let start = at(hooks, "sessionStart"@);
    if !(v is Object || v is Null) || !(hooks is Object || hooks is Null) {
        Err(InstallError::NotAnObject)
    } else if !(start is Array || start is Null) {
        Err(InstallError::NotAnArray)
    } else {
        let known = match start {
            JsonModel::Array(items) => items,
            _ => Seq::empty(),
        };
        let all = if some_runs(known) {
            known
        } else {
            known.push(new_hook())
        };
        Ok(
            JsonModel::Object(
                set_member(
                    members_of(v),
                    "hooks"@,
                    JsonModel::Object(
                        set_member(members_of(hooks), "sessionStart"@, JsonModel::Array(all)),
                    ),
                ),
            ),
        )
    }
}

/// Puts the hook into a hooks file.
pub fn install_into(v: Json) -> (r: Result<Json, InstallError>)
    ensures
        match r {
            Ok(after) => with_hook(v@) == Ok::<JsonModel, InstallError>(after@),
            Err(e) => with_hook(v@) == Err::<JsonModel, InstallError>(e),
        },
{
    let hooks = member_or_null(&v, "hooks");
    let start = member_or_null(&hooks, "sessionStart");
    match &v {
        Json::Object(_) => {},
        Json::Null => {},
        _ => {
            return Err(InstallError::NotAnObject);
        },
    }
    match &hooks {
        Json::Object(_) => {},
        Json::Null => {},
        _ => {
            return Err(InstallError::NotAnObject);
        },
    }
    let ghost start_model = start@;
    let mut list: Vec<Json> = match start {
        Json::Array(list) => list,
        Json::Null => Vec::new(),
        _ => {
            return Err(InstallError::NotAnArray);
        },
    };
    let ghost known = Json::Array(list)@->Array_0;
    assert(start_model is Null ==> known =~= Seq::empty());
    if !any_runs(&list) {
        let mut hook: Vec<(String, Json)> = Vec::new();
        hook.push(("command".to_owned(), Json::Str("agt hook".to_owned())));
        let hook = Json::Object(hook);
        proof {
            reveal_with_fuel(crate::json::json_model, 2);
            assert(hook@->Object_0 =~= seq![("command"@, JsonModel::Str(hook_command()))]);
        }
        list.push(hook);
        assert(Json::Array(list)@->Array_0 =~= known.push(new_hook()));
    }
    Ok(v.with("hooks", hooks.with("sessionStart", Json::Array(list))))
}

/// An empty hooks file.
pub open spec fn empty_file() -> JsonModel {
    JsonModel::Object(
        seq![
            ("version"@, JsonModel::Unsigned(1)),
            ("hooks"@, JsonModel::Object(Seq::empty())),
        ],
    )
}

/// The text of the hooks file with the hook in it, from the text that there was.
pub fn install(data: Option<&str>) -> (r: Result<String, InstallError>)
    ensures
        ({
            let before = match data {
                Some(text) => json_parsed(text@),
                None => Some(empty_file()),
            };
            match before {
                None => r == Err::<String, InstallError>(InstallError::Malformed),
                Some(v) => match with_hook(v) {
                    Ok(after) => r is Ok && r->Ok_0@ == pretty(after),
                    Err(e) => r == Err::<String, InstallError>(e),
                },
            }
        }),
{
    let v = match data {
        Some(text) => match parse_json(text) {
            Some(v) => v,
            None => {
                return Err(InstallError::Malformed);
            },
        },
        None => {
            let hooks = Json::Object(Vec::new());
            let ghost hooks_model = hooks@;
            assert(hooks_model->Object_0 =~= Seq::empty());
            let mut members: Vec<(String, Json)> = Vec::new();
            members.push(("version".to_owned(), Json::Unsigned(1)));
            members.push(("hooks".to_owned(), hooks));
            let v = Json::Object(members);
            proof {
                reveal_with_fuel(crate::json::json_model, 2);
                assert(v@->Object_0 =~= seq![
                    ("version"@, JsonModel::Unsigned(1)),
                    ("hooks"@, hooks_model),
                ]);
            }
            v
        },
    };
    match install_into(v) {
        Ok(after) => Ok(after.to_pretty()),
        Err(e) => Err(e),
    }
}

/// Once installed, the hook is there; to install it again changes nothing, and nothing else of the
/// file is ever touched.
pub proof fn law_install(v: JsonModel, other: Seq<char>)
    requires
        with_hook(v) is Ok,
        other != "hooks"@,
    ensures
        holds_hook(with_hook(v)->Ok_0),
        with_hook(with_hook(v)->Ok_0) == with_hook(v),
        field(with_hook(v)->Ok_0, other) == field(v, other),
{
    let after = with_hook(v)->Ok_0;
    let hooks = at(v, "hooks"@);
    let start = at(hooks, "sessionStart"@);
    let known = match start {
        JsonModel::Array(items) => items,
        _ => Seq::empty(),
    };
    let all = if some_runs(known) {
        known
    } else {
        known.push(new_hook())
    };
    let hooks2 = JsonModel::Object(
        set_member(members_of(hooks), "sessionStart"@, JsonModel::Array(all)),
    );
    law_set_member(members_of(v), "hooks"@, hooks2, other);
    law_set_member(members_of(hooks), "sessionStart"@, JsonModel::Array(all), other);
    assert(at(after, "hooks"@) == hooks2);
    assert(at(hooks2, "sessionStart"@) == JsonModel::Array(all));
    assert(some_runs(all)) by {
        if !some_runs(known) {
            reveal_with_fuel(crate::json::member, 2);
            assert(runs_command(new_hook()));
            assert(all[known.len() as int] == new_hook());
        }
    }
    law_set_member(members_of(hooks2), "sessionStart"@, JsonModel::Array(all), other);
    law_set_member(members_of(after), "hooks"@, hooks2, other);
    reveal_with_fuel(crate::json::member, 2);
    if v is Null {
        assert(members_of(v) =~= Seq::empty());
    }
}

} // verus!
