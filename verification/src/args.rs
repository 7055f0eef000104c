//! The arguments of the program.
use crate::app::mode::{StartMode, StartModel};
use crate::providers::{ProviderKind, ProviderNames};
use crate::text::{
    chars_of, concat2, join, joined, next_char, same_text, seek_char, starts, starts_with,
    string_of_range, views,
};
use crate::tree::text_opt;
use vstd::prelude::*;
use vstd::string::*;

verus! {

broadcast use vstd::string::group_string_axioms;

/// The provider that a word names.
pub open spec fn provider_of(word: Seq<char>, names: ProviderNames) -> Option<ProviderKind> {
    names.kind_of(word)
}

fn find_provider(word: &str, names: &ProviderNames) -> (r: Option<ProviderKind>)
    ensures
        r == provider_of(word@, *names),
{
    ProviderKind::parse(word, names)
}

/// What stands before the first colon, and what stands behind it, where there is one.
pub open spec fn colon_parts(arg: Seq<char>) -> (Seq<char>, Option<Seq<char>>) {
    let i = next_char(arg, ':', 0);
    if i < arg.len() {
        (arg.take(i), Some(arg.skip(i + 1)))
    } else {
        (arg, None)
    }
}

/// Splits an argument at its first colon.
pub fn split_session_arg(arg: &str) -> (r: (String, Option<String>))
    ensures
        (r.0@, text_opt(r.1)) == colon_parts(arg@),
{
    let v = chars_of(arg);
    let i = seek_char(&v, ':', 0);
    if i < v.len() {
        assert(v@.subrange(0, i as int) =~= arg@.take(i as int));
        assert(v@.subrange(i + 1, v@.len() as int) =~= arg@.skip(i + 1));
        (string_of_range(&v, 0, i), Some(string_of_range(&v, i + 1, v.len())))
    } else {
        (arg.to_owned(), None)
    }
}

/// How to start: a provider alone asks for a new session, and one with an id for that session.
pub open spec fn start_mode(
    resume: bool,
    free_arg: Option<Seq<char>>,
    names: ProviderNames,
) -> Result<StartModel, Seq<char>> {
    match free_arg {
        None => Ok(StartModel::Picker),
        Some(arg) => {
            let (word, id) = colon_parts(arg);
            match (provider_of(word, names), id) {
                (None, _) => Err("unknown provider: "@ + word),
                (Some(provider), Some(id)) => Ok(StartModel::Session { provider, id, resume }),
                (Some(provider), None) => Ok(StartModel::NewSession { provider }),
            }
        },
    }
}

/// How to start, by the flag and the argument that were given.
pub fn parse_mode_args(resume: bool, free_arg: Option<&str>, names: &ProviderNames) -> (r: Result<
    StartMode,
    String,
>)
    ensures
        ({
            let arg = match free_arg {
                Some(a) => Some(a@),
                None => None,
            };
            match start_mode(resume, arg, *names) {
                Ok(mode) => r is Ok && r->Ok_0@ == mode,
                Err(e) => r is Err && r->Err_0@ == e,
            }
        }),
{
    match free_arg {
        None => Ok(StartMode::Picker),
        Some(arg) => {
            let (word, id) = split_session_arg(arg);
            match find_provider(word.as_str(), names) {
                None => Err(concat2("unknown provider: ", word.as_str())),
                Some(provider) => match id {
                    Some(id) => Ok(StartMode::Session { provider, id, resume }),
                    None => Ok(StartMode::NewSession { provider }),
                },
            }
        },
    }
}

/// Which session to print, by the argument that names it: a provider's word, a colon and an id.
pub open spec fn named_session(arg: Seq<char>, names: ProviderNames) -> Result<
    (ProviderKind, Seq<char>),
    Seq<char>,
> {
    let (word, id) = colon_parts(arg);
    match (id, provider_of(word, names)) {
        (None, _) => Err("usage: agt parse <provider>:<session-id>"@),
        (Some(_), None) => Err("unknown provider: "@ + word),
        (Some(id), Some(provider)) => Ok((provider, id)),
    }
}

/// Which session to print, by the argument that names it.
pub fn parse_session_arg(arg: &str, names: &ProviderNames) -> (r: Result<
    (ProviderKind, String),
    String,
>)
    ensures
        match r {
            Ok((p, i)) => named_session(arg@, *names) == Ok::<(ProviderKind, Seq<char>), Seq<char>>(
                (p, i@),
            ),
            Err(e) => named_session(arg@, *names) == Err::<(ProviderKind, Seq<char>), Seq<char>>(e@),
        },
{
    let (word, id) = split_session_arg(arg);
    match id {
        None => Err("usage: agt parse <provider>:<session-id>".to_owned()),
        Some(id) => match find_provider(word.as_str(), names) {
            None => Err(concat2("unknown provider: ", word.as_str())),
            Some(provider) => Ok((provider, id)),
        },
    }
}

/// The argument that opens a session names that session.
pub proof fn law_session_arg(provider: ProviderKind, id: Seq<char>, resume: bool, names: ProviderNames)
    requires
        names.claude@ != "cursor"@,
        forall|i: int| 0 <= i < names.claude@.len() ==> names.claude@[i] != ':',
    ensures
        start_mode(resume, Some(names.word_of(provider) + seq![':'] + id), names) == Ok::<
            StartModel,
            Seq<char>,
        >(StartModel::Session { provider, id, resume }),
{
    reveal_strlit("cursor");
    let word = names.word_of(provider);
    let arg = word + seq![':'] + id;
    lemma_colon_at(arg, word.len() as int, 0);
    assert(arg.take(word.len() as int) =~= word);
    assert(arg.skip((word.len() + 1) as int) =~= id);
}

proof fn lemma_colon_at(arg: Seq<char>, i: int, from: int)
    requires
        0 <= from <= i < arg.len(),
        arg[i] == ':',
        forall|k: int| from <= k < i ==> arg[k] != ':',
    ensures
        next_char(arg, ':', from) == i,
    decreases i - from,
{
    if from < i {
        lemma_colon_at(arg, i, from + 1);
    }
}

// ---------------------------------------------------------------------------
// Flags
// ---------------------------------------------------------------------------

/// What the flags among the arguments come to.
#[derive(Debug, PartialEq)]
pub enum ArgScan {
    /// All are known.
    Fine,
    /// The usage is asked for.
    Help,
    /// One is not known.
    Unknown(String),
}

/// What a `ArgScan` holds.
pub enum ScanModel {
    Fine,
    Help,
    Unknown(Seq<char>),
}

impl View for ArgScan {
    type V = ScanModel;

    open spec fn view(&self) -> ScanModel {
        match *self {
            ArgScan::Fine => ScanModel::Fine,
            ArgScan::Help => ScanModel::Help,
            ArgScan::Unknown(s) => ScanModel::Unknown(s@),
        }
    }
}

/// What the flags come to: the first one that asks for the usage or is not known decides.
pub open spec fn scan(args: Seq<Seq<char>>) -> ScanModel
    decreases args.len(),
{
    if args.len() == 0 {
        ScanModel::Fine
    } else if args[0] == "-h"@ || args[0] == "--help"@ {
        ScanModel::Help
    } else if args[0] != "--resume"@ && args[0] != "--debug"@ && starts(args[0], "-"@) {
        ScanModel::Unknown(args[0])
    } else {
        scan(args.skip(1))
    }
}

/// What the flags among the arguments come to.
pub fn scan_args(args: &Vec<String>) -> (r: ArgScan)
    ensures
        r@ == scan(views(args@)),
{
    let ghost all = views(args@);
    let mut i: usize = 0;
    assert(all.skip(0) =~= all);
    while i < args.len()
        invariant
            i <= args@.len(),
            all == views(args@),
            scan(all) == scan(all.skip(i as int)),
        decreases args@.len() - i,
    {
        proof {
            assert(all.skip(i as int)[0] == args@[i as int]@);
            assert(all.skip(i as int).skip(1) =~= all.skip(i + 1));
        }
        let arg = args[i].as_str();
        if same_text(arg, "-h") || same_text(arg, "--help") {
            return ArgScan::Help;
        }
        if !same_text(arg, "--resume") && !same_text(arg, "--debug") && starts_with(arg, "-") {
            return ArgScan::Unknown(arg.to_owned());
        }
        i = i + 1;
    }
    ArgScan::Fine
}

/// Whether an argument is given.
pub fn has_arg(args: &Vec<String>, wanted: &str) -> (r: bool)
    ensures
        r == views(args@).contains(wanted@),
{
    let ghost all = views(args@);
    let mut i: usize = 0;
    while i < args.len()
        invariant
            i <= args@.len(),
            all == views(args@),
            forall|k: int| 0 <= k < i ==> #[trigger] all[k] != wanted@,
        decreases args@.len() - i,
    {
        assert(all[i as int] == args@[i as int]@);
        if same_text(args[i].as_str(), wanted) {
            return true;
        }
        i = i + 1;
    }
    false
}

/// The first argument that is no flag, or the empty text.
pub open spec fn first_free(args: Seq<Seq<char>>) -> Seq<char>
    decreases args.len(),
{
    if args.len() == 0 {
        Seq::empty()
    } else if !starts(args[0], "-"@) {
        args[0]
    } else {
        first_free(args.skip(1))
    }
}

/// The first argument that is no flag.
pub fn first_free_arg(args: &Vec<String>) -> (r: String)
    ensures
        r@ == first_free(views(args@)),
{
    let ghost all = views(args@);
    let mut i: usize = 0;
    assert(all.skip(0) =~= all);
    while i < args.len()
        invariant
            i <= args@.len(),
            all == views(args@),
            first_free(all) == first_free(all.skip(i as int)),
        decreases args@.len() - i,
    {
        proof {
            assert(all.skip(i as int)[0] == args@[i as int]@);
            assert(all.skip(i as int).skip(1) =~= all.skip(i + 1));
        }
        if !starts_with(args[i].as_str(), "-") {
            return args[i].clone();
        }
        i = i + 1;
    }
    String::new()
}

/// What to do about hooks.
#[derive(Debug, PartialEq)]
pub enum HookCommand {
    /// Put the hook into the first provider's settings.
    InstallClaude,
    /// Say that the first provider needs none.
    ExplainClaude,
    /// Put the hook into the second provider's hooks file.
    InstallCursor,
    /// The provider is not known.
    UnknownProvider(String),
}

/// What a `HookCommand` holds.
pub enum HookCommandModel {
    InstallClaude,
    ExplainClaude,
    InstallCursor,
    UnknownProvider(Seq<char>),
}

impl View for HookCommand {
    type V = HookCommandModel;

    open spec fn view(&self) -> HookCommandModel {
        match *self {
            HookCommand::InstallClaude => HookCommandModel::InstallClaude,
            HookCommand::ExplainClaude => HookCommandModel::ExplainClaude,
            HookCommand::InstallCursor => HookCommandModel::InstallCursor,
            HookCommand::UnknownProvider(s) => HookCommandModel::UnknownProvider(s@),
        }
    }
}

/// The last argument other than the flag that forces, or the empty text.
pub open spec fn last_other(args: Seq<Seq<char>>) -> Seq<char>
    decreases args.len(),
{
    if args.len() == 0 {
        Seq::empty()
    } else if args.last() != "--force"@ {
        args.last()
    } else {
        last_other(args.drop_last())
    }
}

/// What to do about hooks, by the arguments of the command.
pub open spec fn hook_command(args: Seq<Seq<char>>, names: ProviderNames) -> HookCommandModel {
    let word = last_other(args);
    match provider_of(word, names) {
        Some(ProviderKind::Claude) => if args.contains("--force"@) {
            HookCommandModel::InstallClaude
        } else {
            HookCommandModel::ExplainClaude
        },
        Some(ProviderKind::Cursor) => HookCommandModel::InstallCursor,
        None => HookCommandModel::UnknownProvider(word),
    }
}

/// What to do about hooks, by the arguments of the command.
pub fn parse_hook_args(args: &Vec<String>, names: &ProviderNames) -> (r: HookCommand)
    ensures
        r@ == hook_command(views(args@), *names),
{
    let ghost all = views(args@);
    let force = has_arg(args, "--force");
    let mut word = String::new();
    let mut i: usize = 0;
    assert(word@ =~= last_other(all.take(0)));
    while i < args.len()
        invariant
            i <= args@.len(),
            all == views(args@),
            word@ == last_other(all.take(i as int)),
        decreases args@.len() - i,
    {
        proof {
            assert(all.take(i + 1).drop_last() =~= all.take(i as int));
            assert(all.take(i + 1).last() == args@[i as int]@);
        }
        if !same_text(args[i].as_str(), "--force") {
            word = args[i].clone();
        }
        i = i + 1;
    }
    assert(all.take(all.len() as int) =~= all);
    match find_provider(word.as_str(), names) {
        Some(ProviderKind::Claude) => {
            if force {
                HookCommand::InstallClaude
            } else {
                HookCommand::ExplainClaude
            }
        },
        Some(ProviderKind::Cursor) => HookCommand::InstallCursor,
        None => HookCommand::UnknownProvider(word),
    }
}

// ---------------------------------------------------------------------------
// The parser of arguments
// ---------------------------------------------------------------------------

/// The arguments that are left to be taken.
#[verifier::external_type_specification]
#[verifier::external_body]
pub struct ExArguments(pico_args::Arguments);

/// The arguments that a parser still holds.
pub uninterp spec fn held(args: pico_args::Arguments) -> Seq<Seq<char>>;

/// Wraps `pico_args::Arguments::from_vec`: the parser holds the arguments in order.
#[verifier::external_body]
fn hold_args(args: Vec<String>) -> (r: pico_args::Arguments)
    ensures
        held(r) == views(args@),
{
    pico_args::Arguments::from_vec(args.into_iter().map(|a| a.into()).collect())
}

/// The arguments without the first one that is `flag`.
pub open spec fn without_first(args: Seq<Seq<char>>, flag: Seq<char>) -> Seq<Seq<char>>
    decreases args.len(),
{
    if args.len() == 0 {
        args
    } else if args[0] == flag {
        args.skip(1)
    } else {
        seq![args[0]] + without_first(args.skip(1), flag)
    }
}

/// Wraps `pico_args::Arguments::contains`: takes the first argument away that is the flag, and
/// tells whether there was one.
#[verifier::external_body]
fn take_flag(args: &mut pico_args::Arguments, flag: &'static str) -> (r: bool)
    requires
        flag@ == "--resume"@ || flag@ == "--debug"@,
    ensures
        r == held(*old(args)).contains(flag@),
        held(*final(args)) == without_first(held(*old(args)), flag@),
{
    args.contains(flag)
}

/// Wraps `pico_args::Arguments::opt_free_from_str` for a `String`: takes the first argument.
#[verifier::external_body]
fn take_free(args: &mut pico_args::Arguments) -> (r: Option<String>)
    ensures
        text_opt(r) == (if held(*old(args)).len() == 0 {
            None
        } else {
            Some(held(*old(args))[0])
        }),
        held(*final(args)) == (if held(*old(args)).len() == 0 {
            held(*old(args))
        } else {
            held(*old(args)).skip(1)
        }),
{
    args.opt_free_from_str().unwrap()
}

/// Wraps `pico_args::Arguments::finish`: the arguments that are left.
#[verifier::external_body]
fn left_over(args: pico_args::Arguments) -> (r: Vec<String>)
    ensures
        views(r@) == held(args),
{
    args.finish().into_iter().map(|a| a.to_string_lossy().into_owned()).collect()
}

/// What the arguments say, once the flags among them are known: whether to resume, and the
/// argument that is no flag. More arguments than that are an error.
pub open spec fn plain_args(args: Seq<Seq<char>>) -> Result<(bool, Option<Seq<char>>), Seq<char>> {
    let rest = without_first(without_first(args, "--resume"@), "--debug"@);
    if rest.len() > 1 {
        Err(joined(rest.skip(1), ", "@))
    } else {
        Ok(
            (
                args.contains("--resume"@),
                if rest.len() == 0 {
                    None
                } else {
                    Some(rest[0])
                },
            ),
        )
    }
}

/// What the arguments say, once the flags among them are known.
pub fn parse_plain_args(args: Vec<String>) -> (r: Result<(bool, Option<String>), String>)
    ensures
        match plain_args(views(args@)) {
            Ok((resume, free)) => match r {
                Ok((a, b)) => a == resume && text_opt(b) == free,
                Err(_) => false,
            },
            Err(e) => r is Err && r->Err_0@ == e,
        },
{
    let mut parser = hold_args(args);
    let resume = take_flag(&mut parser, "--resume");
    let debug = take_flag(&mut parser, "--debug");
    let free = take_free(&mut parser);
    let rest = left_over(parser);
    if rest.len() > 0 {
        assert(views(rest@).len() == rest@.len());
        return Err(join(&rest, ", "));
    }
    assert(views(rest@).len() == 0);
    Ok((resume, free))
}

} // verus!
