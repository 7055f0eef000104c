//! What holds of arguments, hooks, plugins, sockets and settings.
use crate::app::mode::StartModel;
use crate::args::{
    colon_parts, first_free, last_other, named_session, plain_args, scan, start_mode,
    without_first, HookCommandModel, ScanModel,
};
use crate::claude_hooks::{group_runs, new_group, runs_command, some_group_runs, some_runs};
use crate::config::{merged, TomlModel};
use crate::cursor::provider::scan_place;
use crate::json::{field, items_field, json_parsed, members_of, str_field, JsonModel};
use crate::log_buffer::{written, LogLevel};
use crate::number::{digit_value, digits_value, int_value, natural, small_number};
use crate::plugin_install::{config_dir, up_to_date, version_in};
use crate::providers::{moment_at, recency, Moment, ProviderKind, ProviderNames};
use crate::session_socket::{
    argument_end, first_argument, heard, nearest, parent_in, parent_in_line, program_name,
    socket_path, Ancestor,
};
use crate::text::{
    below, capitalized, decimal, joined, lossy_text, next_char, path_name, starts, trimmed,
};
use crate::text_laws::{law_prefixes, law_split_and_joined};
use crate::tree::text_opt;
use crate::watch::{first_there, next_read, watch_plan};
use vstd::prelude::*;

verus! {

// ---------------------------------------------------------------------------
// Providers
// ---------------------------------------------------------------------------

/// Each provider has its own word, command and name; the word of neither names the other.
pub proof fn law_names_of_providers(names: ProviderNames, word: Seq<char>)
    ensures
        names.word_of(ProviderKind::Cursor) == "cursor"@,
        names.word_of(ProviderKind::Claude) == names.claude@,
        names.command_of(ProviderKind::Cursor) == "agent"@,
        names.command_of(ProviderKind::Claude) == names.claude@,
        names.display_of(ProviderKind::Cursor) == "Cursor Agent"@,
        names.display_of(ProviderKind::Claude) == capitalized(names.claude@) + " Code"@,
        word != names.claude@ && word != "cursor"@ ==> names.kind_of(word) is None,
        names.kind_of(names.claude@) == Some(ProviderKind::Claude),
        names.claude@ != "cursor"@ ==> names.kind_of("cursor"@) == Some(ProviderKind::Cursor),
{
}

/// A time in milliseconds is its seconds, rounded down, and the rest.
pub proof fn law_moments(millis: i64)
    ensures
        moment_at(millis) is Some ==> moment_at(millis)->0.millis() == millis && moment_at(
            millis,
        )->0.nanos < 1_000_000_000 && moment_at(millis)->0.nanos % 1_000_000 == 0,
{
}

/// Newer files come earlier in the order of reading, and those from before the epoch last.
pub proof fn law_recency(a: Moment, b: Moment)
    ensures
        0 <= a.secs < b.secs ==> recency(b) < recency(a),
        a.secs < 0 ==> recency(a) == 0,
        a.secs >= 0 ==> recency(a) == -(a.secs as int),
{
}

// ---------------------------------------------------------------------------
// Arguments
// ---------------------------------------------------------------------------

/// An argument is split at its first colon; without one, all of it is the first part.
pub proof fn law_colon(a: Seq<char>, b: Seq<char>)
    requires
        !a.contains(':'),
    ensures
        colon_parts(a + seq![':'] + b) == (a, Some(b)),
        colon_parts(a) == (a, None::<Seq<char>>),
{
    let all = a + seq![':'] + b;
    crate::text::lemma_next_char(all, ':', 0);
    crate::text::lemma_next_char(a, ':', 0);
    let i = next_char(all, ':', 0);
    assert(all[a.len() as int] == ':');
    if i < a.len() {
        assert(a.contains(a[i]));
    }
    assert(i == a.len());
    let j = next_char(a, ':', 0);
    if j < a.len() {
        assert(a.contains(a[j]));
    }
    assert(all.take(i) =~= a);
    assert(all.skip(i + 1) =~= b);
}

/// Without an argument the list comes first. A provider's word alone asks for a new session of that
/// provider, with an id for that session; another word is an error that names it.
pub proof fn law_ways_to_start(
    word: Seq<char>,
    id: Seq<char>,
    provider: ProviderKind,
    resume: bool,
    names: ProviderNames,
)
    requires
        !word.contains(':'),
    ensures
        start_mode(resume, None, names) == Ok::<StartModel, Seq<char>>(StartModel::Picker),
        names.kind_of(word) == Some(provider) ==> start_mode(resume, Some(word), names) == Ok::<
            StartModel,
            Seq<char>,
        >(StartModel::NewSession { provider }),
        names.kind_of(word) == Some(provider) ==> start_mode(
            resume,
            Some(word + seq![':'] + id),
            names,
        ) == Ok::<StartModel, Seq<char>>(StartModel::Session { provider, id, resume }),
        names.kind_of(word) is None ==> start_mode(resume, Some(word), names) == Err::<
            StartModel,
            Seq<char>,
        >("unknown provider: "@ + word),
        names.kind_of(word) is None ==> start_mode(resume, Some(word + seq![':'] + id), names)
            == Err::<StartModel, Seq<char>>("unknown provider: "@ + word),
{
    law_colon(word, id);
}

/// Whether an argument asks for the usage.
pub open spec fn asks_for_help(arg: Seq<char>) -> bool {
    arg == "-h"@ || arg == "--help"@
}

/// Whether an argument is a flag that is not known.
pub open spec fn is_unknown_flag(arg: Seq<char>) -> bool {
    starts(arg, "-"@) && !asks_for_help(arg) && arg != "--resume"@ && arg != "--debug"@
}

/// Of the flags, the first one that asks for the usage or is not known decides; where there is none,
/// all is fine.
pub proof fn law_flags(args: Seq<Seq<char>>, i: int)
    requires
        0 <= i <= args.len(),
        forall|j: int|
            0 <= j < i ==> !asks_for_help(#[trigger] args[j]) && !is_unknown_flag(args[j]),
    ensures
        i == args.len() ==> scan(args) is Fine,
        i < args.len() && asks_for_help(args[i]) ==> scan(args) is Help,
        i < args.len() && is_unknown_flag(args[i]) ==> scan(args) == ScanModel::Unknown(args[i]),
    decreases args.len(),
{
    if i > 0 {
        assert(!asks_for_help(args[0]) && !is_unknown_flag(args[0]));
        let rest = args.skip(1);
        assert forall|j: int| 0 <= j < i - 1 implies !asks_for_help(#[trigger] rest[j])
            && !is_unknown_flag(rest[j]) by {
            assert(rest[j] == args[j + 1]);
        }
        law_flags(rest, i - 1);
    }
}

/// The argument that is no flag is the first one of that kind, and empty where there is none.
pub proof fn law_first_free(args: Seq<Seq<char>>, i: int)
    requires
        0 <= i <= args.len(),
        forall|j: int| 0 <= j < i ==> starts(#[trigger] args[j], "-"@),
    ensures
        i == args.len() ==> first_free(args).len() == 0,
        i < args.len() && !starts(args[i], "-"@) ==> first_free(args) == args[i],
    decreases args.len(),
{
    if i > 0 {
        assert(starts(args[0], "-"@));
        let rest = args.skip(1);
        assert forall|j: int| 0 <= j < i - 1 implies starts(#[trigger] rest[j], "-"@) by {
            assert(rest[j] == args[j + 1]);
        }
        law_first_free(rest, i - 1);
    }
}

/// The provider for a hook is the last argument that is not the flag that forces.
pub proof fn law_last_other(args: Seq<Seq<char>>, i: int)
    requires
        0 <= i < args.len(),
        args[i] != "--force"@,
        forall|j: int| i < j < args.len() ==> #[trigger] args[j] == "--force"@,
    ensures
        last_other(args) == args[i],
    decreases args.len(),
{
    if i < args.len() - 1 {
        assert(args[args.len() - 1] == "--force"@);
        let front = args.drop_last();
        assert forall|j: int| i < j < front.len() implies #[trigger] front[j] == "--force"@ by {
            assert(args[j] == "--force"@);
        }
        law_last_other(front, i);
    }
}

/// For one provider a hook is installed only where that is forced, and else it is explained; for the
/// other it is installed in any case. Another word is told.
pub proof fn law_hook_commands(args: Seq<Seq<char>>, names: ProviderNames)
    ensures
        ({
            let command = crate::args::hook_command(args, names);
            let kind = names.kind_of(last_other(args));
            &&& kind == Some(ProviderKind::Cursor) ==> command is InstallCursor
            &&& kind == Some(ProviderKind::Claude) && args.contains("--force"@)
                ==> command is InstallClaude
            &&& kind == Some(ProviderKind::Claude) && !args.contains("--force"@)
                ==> command is ExplainClaude
            &&& kind is None ==> command == HookCommandModel::UnknownProvider(last_other(args))
        }),
{
}

/// A flag is taken out where it first stands, and nothing else is.
pub proof fn law_without_first(a: Seq<Seq<char>>, flag: Seq<char>, b: Seq<Seq<char>>)
    requires
        !a.contains(flag),
    ensures
        without_first(a + seq![flag] + b, flag) == a + b,
        without_first(a, flag) == a,
    decreases a.len(),
{
    let all = a + seq![flag] + b;
    if a.len() == 0 {
        assert(all.skip(1) =~= b);
        assert(a + b =~= b);
    } else {
        let rest = a.skip(1);
        assert(a.contains(a[0]));
        assert(!rest.contains(flag)) by {
            if rest.contains(flag) {
                let i = choose|i: int| 0 <= i < rest.len() && rest[i] == flag;
                assert(a[i + 1] == flag);
            }
        }
        law_without_first(rest, flag, b);
        assert(all.skip(1) =~= rest + seq![flag] + b);
        assert(all[0] == a[0]);
        assert(seq![a[0]] + (rest + b) =~= a + b);
        assert(seq![a[0]] + rest =~= a);
    }
}

/// Besides the flags there is one argument or none; more are an error that lists them. Whether to
/// resume is whether that flag is given.
pub proof fn law_plain_arguments(args: Seq<Seq<char>>)
    ensures
        ({
            let rest = without_first(without_first(args, "--resume"@), "--debug"@);
            &&& rest.len() == 0 ==> plain_args(args) == Ok::<(bool, Option<Seq<char>>), Seq<char>>(
                (args.contains("--resume"@), None),
            )
            &&& rest.len() == 1 ==> plain_args(args) == Ok::<(bool, Option<Seq<char>>), Seq<char>>(
                (args.contains("--resume"@), Some(rest[0])),
            )
            &&& rest.len() > 1 ==> plain_args(args) is Err
        }),
{
}

// ---------------------------------------------------------------------------
// Hooks
// ---------------------------------------------------------------------------

/// A hook is ours where it runs our command, and a group holds it where one of its hooks does.
pub proof fn law_our_hook(hook: JsonModel, hooks: Seq<JsonModel>, i: int)
    ensures
        runs_command(hook) <==> field(hook, "command"@) == Some(JsonModel::Str("agt hook"@)),
        0 <= i < hooks.len() && field(hooks[i], "command"@) == Some(JsonModel::Str("agt hook"@))
            ==> some_runs(hooks),
        (forall|k: int|
            0 <= k < hooks.len() ==> field(#[trigger] hooks[k], "command"@) != Some(
                JsonModel::Str("agt hook"@),
            )) ==> !some_runs(hooks),
{
    if 0 <= i < hooks.len() && field(hooks[i], "command"@) == Some(JsonModel::Str("agt hook"@)) {
        assert(runs_command(hooks[i]));
    }
    if forall|k: int|
        0 <= k < hooks.len() ==> field(#[trigger] hooks[k], "command"@) != Some(
            JsonModel::Str("agt hook"@),
        ) {
        assert forall|k: int| 0 <= k < hooks.len() implies !runs_command(#[trigger] hooks[k]) by {
            assert(field(hooks[k], "command"@) != Some(JsonModel::Str("agt hook"@)));
        }
    }
}

/// A group holds our hook where one of its hooks is ours; the group that is added does.
pub proof fn law_groups_of_hooks(group: JsonModel)
    ensures
        items_field(group, "hooks"@) is None ==> !group_runs(group),
        items_field(group, "hooks"@) is Some ==> group_runs(group) == some_runs(
            items_field(group, "hooks"@)->0,
        ),
        field(new_group(), "matcher"@) == Some(JsonModel::Str(""@)),
        items_field(new_group(), "hooks"@) is Some,
        items_field(new_group(), "hooks"@)->0.len() == 1,
        field(items_field(new_group(), "hooks"@)->0[0], "type"@) == Some(
            JsonModel::Str("command"@),
        ),
        field(items_field(new_group(), "hooks"@)->0[0], "command"@) == Some(
            JsonModel::Str("agt hook"@),
        ),
{
    reveal_with_fuel(crate::json::member, 4);
    reveal_strlit("matcher");
    reveal_strlit("hooks");
    reveal_strlit("type");
    reveal_strlit("command");
    assert("matcher"@.len() == 7 && "hooks"@.len() == 5 && "type"@.len() == 4 && "command"@.len()
        == 7);
}

/// Installing leaves the hooks that are there where they are, and adds one behind them only where
/// ours is missing; both files keep their hooks under their own word for the start of a session.
pub proof fn law_installing_keeps_hooks(v: JsonModel, hooks: JsonModel, there: Seq<JsonModel>)
    requires
        field(v, "hooks"@) == Some(hooks),
        v is Object,
        hooks is Object,
    ensures
        field(hooks, "SessionStart"@) == Some(JsonModel::Array(there)) ==> ({
            let after = crate::claude_hooks::with_hook(v);
            let now = items_field(field(after->Ok_0, "hooks"@)->0, "SessionStart"@);
            &&& after is Ok
            &&& now is Some
            &&& some_group_runs(there) ==> now->0 == there
            &&& !some_group_runs(there) ==> now->0 == there.push(new_group())
        }),
        field(hooks, "sessionStart"@) == Some(JsonModel::Array(there)) ==> ({
            let after = crate::cursor_hooks::with_hook(v);
            let now = items_field(field(after->Ok_0, "hooks"@)->0, "sessionStart"@);
            &&& after is Ok
            &&& now is Some
            &&& some_runs(there) ==> now->0 == there
            &&& !some_runs(there) ==> now->0.len() == there.len() + 1 && now->0.take(
                there.len() as int,
            ) == there && field(now->0.last(), "command"@) == Some(JsonModel::Str("agt hook"@))
        }),
{
    let groups = if some_group_runs(there) {
        there
    } else {
        there.push(new_group())
    };
    let new_hook = crate::cursor_hooks::new_hook();
    let all = if some_runs(there) {
        there
    } else {
        there.push(new_hook)
    };
    let m = members_of(hooks);
    crate::json::law_set_member(m, "SessionStart"@, JsonModel::Array(groups), ""@);
    crate::json::law_set_member(m, "sessionStart"@, JsonModel::Array(all), ""@);
    let a = JsonModel::Object(
        crate::json::set_member(m, "SessionStart"@, JsonModel::Array(groups)),
    );
    let b = JsonModel::Object(crate::json::set_member(m, "sessionStart"@, JsonModel::Array(all)));
    crate::json::law_set_member(members_of(v), "hooks"@, a, ""@);
    crate::json::law_set_member(members_of(v), "hooks"@, b, ""@);
    reveal_with_fuel(crate::json::member, 2);
    assert(there.push(new_hook).take(there.len() as int) =~= there);
}

/// Settings that are no object, or whose hooks are none, are refused, and so are hooks of the start
/// of a session that are no list.
pub proof fn law_odd_settings(v: JsonModel)
    ensures
        v is Array || v is Str || v is Bool || v is Unsigned ==> crate::claude_hooks::with_hook(v)
            is Err && crate::cursor_hooks::with_hook(v) is Err,
        v is Object && field(v, "hooks"@) is Some && field(v, "hooks"@)->0 is Array
            ==> crate::claude_hooks::with_hook(v) is Err && crate::cursor_hooks::with_hook(v) is Err,
        v is Object && field(v, "hooks"@) is None ==> crate::claude_hooks::with_hook(v) is Ok
            && crate::cursor_hooks::with_hook(v) is Ok,
        v is Object && field(v, "hooks"@) is Some && field(v, "hooks"@)->0 is Object && field(
            field(v, "hooks"@)->0,
            "SessionStart"@,
        ) is Some && field(field(v, "hooks"@)->0, "SessionStart"@)->0 is Str
            ==> crate::claude_hooks::with_hook(v) is Err,
{
}

// ---------------------------------------------------------------------------
// Plugins
// ---------------------------------------------------------------------------

/// Configuration stands where the environment says, else below the home directory, else below the
/// current one.
pub proof fn law_config_directory(xdg: Seq<char>, home: Seq<char>)
    ensures
        config_dir(Some(xdg), Some(home)) == xdg,
        config_dir(Some(xdg), None) == xdg,
        config_dir(None, Some(home)) == below(home, ".config"@),
        config_dir(None, None) == "./.config"@,
{
}

/// The version of a manifest is the one that it tells; one that is no JSON tells none. A plugin
/// whose version is not known is never up to date.
pub proof fn law_versions(json: Seq<char>, there: Option<Seq<char>>)
    ensures
        json_parsed(json) is None ==> version_in(json) is None,
        json_parsed(json) is Some ==> version_in(json) == str_field(
            json_parsed(json)->0,
            "version"@,
        ),
        !up_to_date(None, there),
{
}

// ---------------------------------------------------------------------------
// The socket
// ---------------------------------------------------------------------------

/// The parent of a process is the number behind the first line of its status that tells it.
pub proof fn law_parent_of_a_process(lines: Seq<Seq<char>>, i: int, rest: Seq<char>)
    requires
        0 <= i <= lines.len(),
        forall|j: int| 0 <= j < i ==> parent_in_line(#[trigger] lines[j]) is None,
    ensures
        parent_in_line("PPid:"@ + rest) == natural(trimmed(rest), u32::MAX as nat),
        i == lines.len() ==> parent_in(lines) is None,
        i < lines.len() && parent_in_line(lines[i]) is Some ==> parent_in(lines) == parent_in_line(
            lines[i],
        ),
    decreases lines.len(),
{
    law_prefixes("PPid:"@, rest, rest);
    if i > 0 {
        assert(parent_in_line(lines[0]) is None);
        let tail = lines.skip(1);
        assert forall|j: int| 0 <= j < i - 1 implies parent_in_line(#[trigger] tail[j]) is None by {
            assert(tail[j] == lines[j + 1]);
        }
        law_parent_of_a_process(tail, i - 1, rest);
    }
}

/// A line that does not begin with the right word tells no parent.
pub proof fn law_other_status_lines(line: Seq<char>)
    requires
        !starts(line, "PPid:"@),
    ensures
        parent_in_line(line) is None,
{
}

proof fn lemma_argument_end(bytes: Seq<u8>, from: int, end: int)
    requires
        0 <= from <= end <= bytes.len(),
        end < bytes.len() ==> bytes[end] == 0,
        forall|j: int| from <= j < end ==> bytes[j] != 0,
    ensures
        argument_end(bytes, from) == end,
    decreases end - from,
{
    if from < end {
        lemma_argument_end(bytes, from + 1, end);
    }
}

/// The program of a command line is its first argument, up to the first zero byte; zero bytes before
/// it are passed over.
pub proof fn law_first_argument(arg: Seq<u8>, rest: Seq<u8>)
    requires
        arg.len() > 0,
        forall|j: int| 0 <= j < arg.len() ==> arg[j] != 0,
    ensures
        first_argument(arg + seq![0u8] + rest) == Some(arg),
        first_argument(arg) == Some(arg),
        first_argument(seq![0u8] + rest) == first_argument(rest),
        first_argument(Seq::empty()) is None,
        program_name(arg + seq![0u8] + rest) == path_name(lossy_text(arg)),
{
    let all = arg + seq![0u8] + rest;
    assert(all[0] == arg[0]);
    assert forall|j: int| 0 <= j < arg.len() implies all[j] != 0 by {
        assert(all[j] == arg[j]);
    }
    assert(all[arg.len() as int] == 0);
    lemma_argument_end(all, 0, arg.len() as int);
    lemma_argument_end(arg, 0, arg.len() as int);
    assert(all.take(arg.len() as int) =~= arg);
    assert(arg.take(arg.len() as int) =~= arg);
    assert((seq![0u8] + rest).skip(1) =~= rest);
}

/// The nearest process that runs a program is the first of the chain that does, as far as the chain
/// is looked at; there is none where none does.
pub proof fn law_nearest(chain: Seq<Ancestor>, binary: Seq<char>, n: int, i: int)
    requires
        0 <= i <= chain.len(),
        forall|j: int| 0 <= j < i ==> text_opt((#[trigger] chain[j]).name) != Some(binary),
    ensures
        i < chain.len() && i < n && text_opt(chain[i].name) == Some(binary) ==> nearest(
            chain,
            binary,
            n,
        ) == Some(chain[i].pid),
        i == chain.len() || i >= n ==> nearest(chain, binary, n) is None,
    decreases chain.len(),
{
    if i > 0 && n > 0 {
        assert(text_opt(chain[0].name) != Some(binary));
        let rest = chain.skip(1);
        assert forall|j: int| 0 <= j < i - 1 implies text_opt((#[trigger] rest[j]).name) != Some(
            binary,
        ) by {
            assert(rest[j] == chain[j + 1]);
        }
        law_nearest(rest, binary, n - 1, i - 1);
    }
}

/// A teller is heard from the expected process, and wherever it cannot be told which process it is;
/// from another one it is not.
pub proof fn law_heard(expected: u32, ancestor: u32)
    ensures
        heard(Some(expected), Some(expected)),
        heard(None, Some(ancestor)),
        heard(Some(expected), None),
        heard(None, None),
        ancestor != expected ==> !heard(Some(expected), Some(ancestor)),
{
}

/// The path of a socket tells the process and its number.
pub proof fn law_socket_path(pid: u32, n: u32)
    ensures
        starts(socket_path(pid, n), "/tmp/agt-"@),
        socket_path(pid, n) == "/tmp/agt-"@ + (decimal(pid as nat) + "-"@ + decimal(n as nat)
            + ".sock"@),
{
    let rest = decimal(pid as nat) + "-"@ + decimal(n as nat) + ".sock"@;
    assert(socket_path(pid, n) =~= "/tmp/agt-"@ + rest);
    law_prefixes("/tmp/agt-"@, rest, rest);
}

// ---------------------------------------------------------------------------
// Settings, numbers and watching
// ---------------------------------------------------------------------------

/// What is no table replaces whatever there was, and a table replaces what is none.
pub proof fn law_merge_replaces(base: TomlModel, over: TomlModel)
    requires
        base is Leaf || over is Leaf,
    ensures
        merged(base, over) == over,
{
}

/// A number is read digit by digit, each place worth ten times the next; what is no digit makes it
/// no number.
pub proof fn law_digits(s: Seq<char>, c: char)
    ensures
        digits_value(Seq::empty()) == Some(0nat),
        '0' <= c <= '9' && digits_value(s) is Some ==> digits_value(s.push(c)) == Some(
            10 * digits_value(s)->0 + (c as u32 - '0' as u32) as nat,
        ),
        !('0' <= c <= '9') ==> digits_value(s.push(c)) is None,
        digits_value(s) is None ==> digits_value(s.push(c)) is None,
{
    assert(s.push(c).drop_last() =~= s);
}

/// A sign before the digits makes the number negative or leaves it; a number that does not fit is
/// none, and neither is a sign alone.
pub proof fn law_signed_numbers(s: Seq<char>, n: nat)
    requires
        s.len() > 0,
        s[0] != '+' && s[0] != '-',
        digits_value(s) == Some(n),
    ensures
        n <= i32::MAX ==> int_value(s) == Some(n as int),
        n <= i32::MAX ==> int_value(seq!['+'] + s) == Some(n as int),
        n <= i32::MAX ==> int_value(seq!['-'] + s) == Some(-(n as int)),
        n > i32::MAX + 1 ==> int_value(s) is None && int_value(seq!['-'] + s) is None,
        int_value(seq!['-']) is None && int_value(seq!['+']) is None && int_value(
            Seq::empty(),
        ) is None,
{
    assert((seq!['+'] + s).skip(1) =~= s);
    assert((seq!['-'] + s).skip(1) =~= s);
    assert(seq!['-'].skip(1).len() == 0);
    assert(seq!['+'].skip(1).len() == 0);
}

/// An unsigned number is its digits, behind a plus sign or none, as far as it is not too great.
pub proof fn law_unsigned_numbers(s: Seq<char>, n: nat, max: nat)
    requires
        s.len() > 0,
        s[0] != '+',
        digits_value(s) == Some(n),
    ensures
        n <= max ==> natural(s, max) == Some(n),
        n > max ==> natural(s, max) is None,
        natural(seq!['+'] + s, max) == natural(s, max),
        natural(Seq::empty(), max) is None,
        n <= 255 ==> small_number(s) == Some(n),
        n > 255 ==> small_number(s) is None,
{
    assert((seq!['+'] + s).skip(1) =~= s);
}

/// The path to watch is the nearest one that is there.
pub proof fn law_nearest_there(there: Seq<bool>)
    ensures
        0 <= first_there(there) <= there.len(),
        first_there(there) < there.len() ==> there[first_there(there)],
        forall|j: int| 0 <= j < first_there(there) ==> !there[j],
    decreases there.len(),
{
    if there.len() > 0 && !there[0] {
        let rest = there.skip(1);
        law_nearest_there(rest);
        assert forall|j: int| 0 <= j < first_there(there) implies !there[j] by {
            if j > 0 {
                assert(there[j] == rest[j - 1]);
            }
        }
    }
}

/// A session to print is named by its provider's word, a colon and its id; without a colon the usage
/// is told, and a word that names no provider is.
pub proof fn law_session_to_print(
    word: Seq<char>,
    id: Seq<char>,
    provider: ProviderKind,
    names: ProviderNames,
)
    requires
        !word.contains(':'),
    ensures
        names.kind_of(word) == Some(provider) ==> named_session(word + seq![':'] + id, names) == Ok::<
            (ProviderKind, Seq<char>),
            Seq<char>,
        >((provider, id)),
        names.kind_of(word) is None ==> named_session(word + seq![':'] + id, names) == Err::<
            (ProviderKind, Seq<char>),
            Seq<char>,
        >("unknown provider: "@ + word),
        named_session(word, names) == Err::<(ProviderKind, Seq<char>), Seq<char>>(
            "usage: agt parse <provider>:<session-id>"@,
        ),
{
    law_colon(word, id);
}

/// A reader that follows waits after each reading. One that takes a snapshot goes on only while
/// entries come one at a time and one has come, and ends after that.
pub proof fn law_after_reading(waterfall: bool, advanced: bool)
    ensures
        next_read(false, waterfall, advanced) is Wait,
        next_read(true, true, true) is Again,
        next_read(true, true, false) is Stop,
        next_read(true, false, advanced) is Stop,
{
}

/// Nothing is written while no log is; while one is, all is but the finest events and those of the
/// renderer.
pub proof fn law_written_events(target: Seq<char>, rest: Seq<char>, level: LogLevel)
    ensures
        !written(false, target, level),
        !written(true, target, LogLevel::Trace),
        !written(true, "tui_markdown"@ + rest, level),
        !(level is Trace) && !starts(target, "tui_markdown"@) ==> written(true, target, level),
{
    law_prefixes("tui_markdown"@, rest, target);
}

/// A path that is there is watched itself, and else the nearest one above it that is; all below it is
/// watched where it is more than the given number of steps up. Where none is there, nothing is.
pub proof fn law_what_to_watch(there: Seq<bool>, flat: usize)
    requires
        there.len() <= usize::MAX,
    ensures
        watch_plan(there, flat) is None <==> forall|j: int| 0 <= j < there.len() ==> !there[j],
        watch_plan(there, flat) is Some ==> ({
            let w = watch_plan(there, flat)->0;
            &&& w.up < there.len() && there[w.up as int]
            &&& forall|j: int| 0 <= j < w.up ==> !there[j]
            &&& w.recursive == (w.up > flat)
        }),
{
    law_nearest_there(there);
}

/// A session that is being written comes at 0 whatever its time; without that, sessions come by their
/// time, the newer first.
pub proof fn law_order_of_reading(written: u64, a: Moment, b: Moment)
    ensures
        written > 0 ==> scan_place(Some(written), a) == 0,
        scan_place(Some(0), a) == scan_place(None, a),
        0 <= a.secs < b.secs ==> scan_place(None, b) < scan_place(None, a),
        a.secs >= 0 ==> scan_place(None, a) == -(a.secs as int),
        a.secs < 0 ==> scan_place(None, a) == 0,
{
}

} // verus!
