//! What holds of the application.
use crate::app::effect::EffectModel;
use crate::app::keys::{
    app_key, confirm_key, copy_request, message_key, normal_key, terminal_key, tree_action,
    view_tree_action, MessageResult, TreeAction, TreeFacts,
};
use crate::app::mode::{AppScreen, ConfirmModel, ModeModel};
use crate::app::session::{info_for, InfoModel, PanelModel};
use crate::app::state::{AppModel, HookStatus, LastModel, Surroundings};
use crate::clipboard::{markdown_parsed, plain, ClipboardBackend};
use crate::config::{AgentConfig, AgentsConfig};
use crate::key::{Key, KeyCode};
use crate::picker::handler::{picker_key, PickerActionModel};
use crate::picker::laws::law_new_session_of_the_tab;
use crate::picker::state::{faded, listed, PickerModel, Tab};
use crate::providers::{EntryModel, Moment, ProviderKind};
use crate::text::{capitalized, trimmed_end, views};
use crate::tree::text_opt;
use vstd::prelude::*;

verus! {

/// When the tool ends, the panel keeps its session and holds how it ended.
pub proof fn law_exit_keeps_session(s: AppModel, code: Option<i32>)
    requires
        s.panel is Live,
    ensures
        s.exited(s.terminal_id, code).0.panel == (PanelModel::Exited {
            info: s.panel->Live_0,
            code,
        }),
        !(s.exited(s.terminal_id, code).0.mode is Terminal),
{
}

/// What is told of an earlier tool changes nothing.
pub proof fn law_earlier_tool_is_passed_over(s: AppModel, terminal_id: u64, code: Option<i32>)
    requires
        terminal_id != s.terminal_id,
    ensures
        s.exited(terminal_id, code) == (s, Seq::<EffectModel>::empty()),
{
}

/// A tool that ended can be started again, in the same session.
pub proof fn law_exited_tool_starts_again(s: AppModel)
    requires
        s.panel is Exited,
        s.terminal_id < u64::MAX,
    ensures
        ({
            let (waiting, effects) = s.relaunching(false);
            &&& effects == seq![
                EffectModel::Relaunch { id: waiting.terminal_id, always_focus: false },
            ]
            &&& waiting.relaunched(true, false).0.panel == PanelModel::Live(s.panel->info)
            &&& waiting.relaunched(true, false).0.mode is Terminal
        }),
{
}

/// Where the user means to quit, the application ends with the tool.
pub proof fn law_quits_with_tool(s: AppModel, code: Option<i32>)
    requires
        s.quit_intent,
    ensures
        !s.exited(s.terminal_id, code).0.running,
{
}

/// Where the user does not, it goes on.
pub proof fn law_goes_on_without_tool(s: AppModel, terminal_id: u64, code: Option<i32>)
    requires
        !s.quit_intent,
    ensures
        s.exited(terminal_id, code).0.running == s.running,
{
}

/// Ctrl-O takes the keys back from the tool, and takes the wish to quit back too.
pub proof fn law_ctrl_o_takes_back(s: AppModel)
    ensures
        ({
            let key = Key { code: KeyCode::Char('o'), ctrl: true, press: true };
            let next = terminal_key(s, key).0;
            next.mode is Normal && !next.quit_intent
        }),
{
}

/// Esc and Ctrl-O give the keys back to a tool that runs.
pub proof fn law_back_to_tool(s: AppModel, key: Key, facts: TreeFacts, now_ms: u64)
    requires
        s.panel is Live,
        s.pending_app_key != Some('!'),
        !facts.pending,
        key == (Key { code: KeyCode::Esc, ctrl: false, press: true }) || key == (Key {
            code: KeyCode::Char('o'),
            ctrl: true,
            press: true,
        }),
    ensures
        normal_key(s, key, facts, now_ms) == s.activated(),
        s.activated().0.mode is Terminal,
{
}

/// Quitting while the tool runs does not end the application before the tool.
pub proof fn law_quit_waits_for_tool(
    s: AppModel,
    facts: TreeFacts,
    text: Seq<char>,
    data: Seq<char>,
    now_ms: u64,
    code: Option<i32>,
)
    requires
        s.panel is Live,
        s.running,
    ensures
        ({
            let next = tree_action(s, TreeAction::Quit, facts, text, data, now_ms).0;
            &&& next.running
            &&& next.quit_intent
            &&& !next.exited(next.terminal_id, code).0.running
        }),
{
}

/// No key in the list of sessions kills a tool, starts another one or loads another session while
/// a tool runs in a session whose id is known: the user is asked first.
pub proof fn law_asks_before_leaving(s: AppModel, key: Key, facts: TreeFacts, around: Surroundings)
    requires
        s.screen == AppScreen::Picker,
        s.panel.must_ask(),
    ensures
        ({
            let (next, effects) = app_key(s, key, facts, around);
            &&& next.panel == s.panel
            &&& forall|i: int|
                0 <= i < effects.len() ==> (#[trigger] effects[i]) is StartRefresh
                    || effects[i] is AbortRefresh
        }),
{
}

/// A no leaves everything as it was.
pub proof fn law_no_changes_nothing(s: AppModel, kind: ConfirmModel, key: Key, around: Surroundings)
    requires
        key.types('n') || key.code == KeyCode::Esc,
    ensures
        confirm_key(s, kind, key, around) == (
            AppModel { mode: ModeModel::Normal, ..s },
            Seq::<EffectModel>::empty(),
        ),
{
}

/// An answer that is neither yes nor no is not taken.
pub proof fn law_other_answers_wait(s: AppModel, kind: ConfirmModel, key: Key, around: Surroundings)
    requires
        !key.types('n'),
        !key.types('y'),
        !key.types('Y'),
        key.code != KeyCode::Esc,
        key.code != KeyCode::Enter,
    ensures
        confirm_key(s, kind, key, around) == (s, Seq::<EffectModel>::empty()),
{
}

/// The second key of a sequence is always used up: it never reaches the transcript, and the
/// sequence is over.
pub proof fn law_second_key_is_used_up(s: AppModel, key: Key, facts: TreeFacts, now_ms: u64)
    requires
        s.pending_app_key == Some('!'),
        !facts.pending,
    ensures
        ({
            let (next, effects) = normal_key(s, key, facts, now_ms);
            &&& next.pending_app_key is None
            &&& forall|i: int| 0 <= i < effects.len() ==> !((#[trigger] effects[i]) is TreeKey)
        }),
{
}

/// Closing the list of sessions and opening it again leaves it as it was, but for reading it anew.
pub proof fn law_picker_is_kept(s: AppModel, facts: TreeFacts, around: Surroundings)
    requires
        s.screen == AppScreen::Picker,
        s.mode is Normal,
        !s.data_view_open,
        !facts.pending,
        s.pending_app_key is None,
    ensures
        ({
            let closed = s.picker_closed().0;
            let key = Key { code: KeyCode::Char('x'), ctrl: true, press: true };
            let again = app_key(closed, key, facts, around).0;
            &&& again.screen == AppScreen::Picker
            &&& again.picker == (PickerModel { is_loading: true, ..s.picker })
        }),
{
}

/// A key that is pressed.
pub open spec fn pressed(code: KeyCode, ctrl: bool) -> Key {
    Key { code, ctrl, press: true }
}

/// Whether a tool runs in a session whose id is known.
pub open spec fn runs_in_known_session(s: AppModel) -> bool {
    s.panel is Live && s.panel->Live_0.session_id is Some
}

/// Whether the selected line of the list is that of an entry.
pub open spec fn selects(s: AppModel, e: EntryModel) -> bool {
    &&& s.picker.selected is Some
    &&& 0 < s.picker.selected->0 <= s.picker.filtered.len()
    &&& s.picker.filtered[s.picker.selected->0 - 1] == e
}

/// Whether the answer is yes.
pub open spec fn says_yes(key: Key) -> bool {
    key.code == KeyCode::Enter || key.code == KeyCode::Char('y') || key.code == KeyCode::Char('Y')
}

/// Whether a panel holds an entry's session, its tool not started: the session's id, its provider
/// and its directory, and how that provider's tool is configured.
pub open spec fn holds_entry(
    panel: PanelModel,
    e: EntryModel,
    agents: AgentsConfig,
    cwd: Option<String>,
) -> bool {
    let agent = match e.provider {
        ProviderKind::Claude => agents.claude,
        ProviderKind::Cursor => agents.cursor,
    };
    &&& panel is Uninitialized
    &&& panel->Uninitialized_0.provider == e.provider
    &&& panel->Uninitialized_0.session_id == Some(e.id)
    &&& e.workspace_path is Some ==> panel->Uninitialized_0.directory == e.workspace_path->0
    &&& e.workspace_path is None && cwd is Some ==> panel->Uninitialized_0.directory == cwd->0@
    &&& e.workspace_path is None && cwd is None ==> panel->Uninitialized_0.directory.len() == 0
    &&& panel->Uninitialized_0.binary == agent.binary@
    &&& panel->Uninitialized_0.extra_args == views(agent.extra_args@)
    &&& panel->Uninitialized_0.disable_plugin == agent.disable_plugin
}

/// The effect of reading an entry's transcript.
pub open spec fn loads(e: EntryModel) -> EffectModel {
    EffectModel::LoadSession { provider: e.provider, path: e.path, workspace: e.workspace_path }
}

/// The settings that a tool is started with are those of its provider.
pub proof fn law_own_settings(
    agents: AgentsConfig,
    session_id: Option<Seq<char>>,
    directory: Seq<char>,
    provider: ProviderKind,
)
    ensures
        ({
            let info = info_for(agents, provider, session_id, directory);
            let agent: AgentConfig = if provider == ProviderKind::Cursor {
                agents.cursor
            } else {
                agents.claude
            };
            &&& info.provider == provider
            &&& info.session_id == session_id
            &&& info.directory == directory
            &&& info.binary == agent.binary@
            &&& info.extra_args == views(agent.extra_args@)
            &&& info.disable_plugin == agent.disable_plugin
        }),
{
}

/// Where nothing has to be asked, Enter on a session reads that session and starts no tool, and
/// Ctrl-Y reads it and then starts its tool, with the next number and the keys going to it.
pub proof fn law_session_is_opened(
    s: AppModel,
    e: EntryModel,
    facts: TreeFacts,
    around: Surroundings,
)
    requires
        s.screen == AppScreen::Picker,
        selects(s, e),
        !runs_in_known_session(s),
        s.terminal_id < u64::MAX,
    ensures
        ({
            let (next, effects) = app_key(s, pressed(KeyCode::Enter, false), facts, around);
            &&& effects == seq![EffectModel::AbortRefresh, loads(e)]
            &&& next.terminal_id == s.terminal_id
            &&& next.screen == AppScreen::Transcript && next.transcript_open && !next.expanded
            &&& holds_entry(next.panel, e, s.agents, around.cwd)
            &&& next.last_session == Some(
                LastModel { provider: e.provider, path: e.path, workspace: e.workspace_path },
            )
            &&& !(next.mode is Terminal)
        }),
        ({
            let (next, effects) = app_key(s, pressed(KeyCode::Char('y'), true), facts, around);
            &&& effects == seq![
                EffectModel::AbortRefresh,
                loads(e),
                EffectModel::Relaunch { id: (s.terminal_id + 1) as u64, always_focus: true },
            ]
            &&& next.terminal_id == s.terminal_id + 1
            &&& next.screen == AppScreen::Transcript && next.transcript_open && !next.expanded
            &&& holds_entry(next.panel, e, s.agents, around.cwd)
            &&& next.last_session == Some(
                LastModel { provider: e.provider, path: e.path, workspace: e.workspace_path },
            )
        }),
{
    let first = app_key(s, pressed(KeyCode::Enter, false), facts, around).1;
    assert(first =~= seq![EffectModel::AbortRefresh, loads(e)]);
    let second = app_key(s, pressed(KeyCode::Char('y'), true), facts, around).1;
    assert(second =~= seq![
        EffectModel::AbortRefresh,
        loads(e),
        EffectModel::Relaunch { id: (s.terminal_id + 1) as u64, always_focus: true },
    ]);
}

/// Where a tool runs in a known session, Enter and Ctrl-Y on a session only ask; a yes then kills
/// the tool and reads the session, and after Ctrl-Y starts the session's tool, with the next number
/// and the keys going to it.
pub proof fn law_session_is_opened_after_yes(
    s: AppModel,
    e: EntryModel,
    yes: Key,
    facts: TreeFacts,
    around: Surroundings,
    later: Surroundings,
)
    requires
        s.screen == AppScreen::Picker,
        selects(s, e),
        runs_in_known_session(s),
        s.terminal_id < u64::MAX,
        says_yes(yes),
    ensures
        ({
            let (asked, told) = app_key(s, pressed(KeyCode::Enter, false), facts, around);
            let (next, effects) = app_key(asked, yes, facts, later);
            &&& told == seq![EffectModel::AbortRefresh]
            &&& asked.panel == s.panel && asked.terminal_id == s.terminal_id
            &&& asked.mode is Confirm
            &&& effects == seq![EffectModel::KillTerminal, loads(e)]
            &&& next.terminal_id == s.terminal_id
            &&& next.mode is Normal
            &&& next.screen == AppScreen::Transcript
            &&& holds_entry(next.panel, e, s.agents, later.cwd)
        }),
        ({
            let (asked, told) = app_key(s, pressed(KeyCode::Char('y'), true), facts, around);
            let (next, effects) = app_key(asked, yes, facts, later);
            &&& told == seq![EffectModel::AbortRefresh]
            &&& asked.panel == s.panel && asked.terminal_id == s.terminal_id
            &&& asked.mode is Confirm
            &&& effects == seq![
                EffectModel::KillTerminal,
                loads(e),
                EffectModel::Relaunch { id: (s.terminal_id + 1) as u64, always_focus: true },
            ]
            &&& next.terminal_id == s.terminal_id + 1
            &&& next.mode is Normal
            &&& next.screen == AppScreen::Transcript
            &&& holds_entry(next.panel, e, s.agents, later.cwd)
        }),
{
    let first = app_key(s, pressed(KeyCode::Enter, false), facts, around).0;
    assert(app_key(first, yes, facts, later).1 =~= seq![EffectModel::KillTerminal, loads(e)]);
    let second = app_key(s, pressed(KeyCode::Char('y'), true), facts, around).0;
    assert(app_key(second, yes, facts, later).1 =~= seq![
        EffectModel::KillTerminal,
        loads(e),
        EffectModel::Relaunch { id: (s.terminal_id + 1) as u64, always_focus: true },
    ]);
}

/// The provider whose sessions a tab lists.
pub open spec fn provider_of_tab(tab: Tab) -> ProviderKind
    recommends
        tab != Tab::All,
{
    if tab == Tab::Cursor {
        ProviderKind::Cursor
    } else {
        ProviderKind::Claude
    }
}

/// Whether an effect starts a provider's tool in a new session, in the directory.
pub open spec fn launches_new(
    effect: EffectModel,
    s: AppModel,
    provider: ProviderKind,
    cwd: Option<String>,
) -> bool {
    let agent = if provider == ProviderKind::Cursor {
        s.agents.cursor
    } else {
        s.agents.claude
    };
    &&& effect is Launch
    &&& effect->Launch_id == s.terminal_id + 1
    &&& effect->Launch_info.provider == provider
    &&& effect->Launch_info.session_id is None
    &&& cwd is Some ==> effect->Launch_info.directory == cwd->0@
    &&& cwd is None ==> effect->Launch_info.directory.len() == 0
    &&& effect->Launch_info.binary == agent.binary@
    &&& effect->Launch_info.extra_args == views(agent.extra_args@)
    &&& effect->Launch_info.disable_plugin == agent.disable_plugin
}

proof fn lemma_new_session(
    s: AppModel,
    provider: ProviderKind,
    cwd: Option<String>,
    hooks: HookStatus,
    now_ms: u64,
)
    requires
        s.terminal_id < u64::MAX,
    ensures
        ({
            let (next, effects) = s.new_session(provider, text_opt(cwd), hooks, now_ms);
            &&& effects.len() == 2
            &&& effects[0] is ClearTranscript
            &&& launches_new(effects[1], s, provider, cwd)
            &&& next.terminal_id == s.terminal_id + 1
            &&& next.screen == AppScreen::Transcript && next.transcript_open
            &&& next.panel == s.panel && next.mode == s.mode
        }),
{
}

/// Where nothing has to be asked, Ctrl-T, and Enter on the first line, on a provider's tab empty the
/// transcript and start that provider's tool in a new session, with the next number.
pub proof fn law_new_session_is_started(
    s: AppModel,
    key: Key,
    facts: TreeFacts,
    around: Surroundings,
)
    requires
        s.screen == AppScreen::Picker,
        s.picker.tab != Tab::All,
        key == pressed(KeyCode::Char('t'), true) || (key == pressed(KeyCode::Enter, false)
            && s.picker.selected == Some(0usize)),
        !runs_in_known_session(s),
        s.terminal_id < u64::MAX,
    ensures
        ({
            let (next, effects) = app_key(s, key, facts, around);
            &&& effects.len() == 3
            &&& effects[0] is AbortRefresh
            &&& effects[1] is ClearTranscript
            &&& launches_new(effects[2], s, provider_of_tab(s.picker.tab), around.cwd)
            &&& next.terminal_id == s.terminal_id + 1
            &&& next.screen == AppScreen::Transcript && next.transcript_open
            &&& next.panel == s.panel && next.mode == s.mode
        }),
{
    let provider = provider_of_tab(s.picker.tab);
    law_new_session_of_the_tab(s.picker, key, around.now_ms);
    assert(picker_key(s.picker, key, around.now_ms) == (
        s.picker,
        PickerActionModel::NewSession(provider),
    ));
    let closed = s.picker_closed().0;
    lemma_new_session(closed, provider, around.cwd, around.hooks, around.now_ms);
    let (next, more) = closed.new_session(
        provider,
        text_opt(around.cwd),
        around.hooks,
        around.now_ms,
    );
    assert(app_key(s, key, facts, around) == (next, seq![EffectModel::AbortRefresh] + more));
}

/// Where a tool runs in a known session, starting a new one asks first; a yes kills the tool before
/// the new one is started.
pub proof fn law_new_session_is_started_after_yes(
    s: AppModel,
    key: Key,
    yes: Key,
    facts: TreeFacts,
    around: Surroundings,
    later: Surroundings,
)
    requires
        s.screen == AppScreen::Picker,
        s.picker.tab != Tab::All,
        key == pressed(KeyCode::Char('t'), true) || (key == pressed(KeyCode::Enter, false)
            && s.picker.selected == Some(0usize)),
        runs_in_known_session(s),
        s.terminal_id < u64::MAX,
        says_yes(yes),
    ensures
        ({
            let (asked, told) = app_key(s, key, facts, around);
            let (next, effects) = app_key(asked, yes, facts, later);
            &&& told == seq![EffectModel::AbortRefresh]
            &&& asked.panel == s.panel && asked.mode is Confirm
            &&& effects.len() == 3
            &&& effects[0] is KillTerminal
            &&& effects[1] is ClearTranscript
            &&& launches_new(effects[2], s, provider_of_tab(s.picker.tab), later.cwd)
            &&& next.terminal_id == s.terminal_id + 1
            &&& next.mode is Normal
        }),
{
    let provider = provider_of_tab(s.picker.tab);
    law_new_session_of_the_tab(s.picker, key, around.now_ms);
    assert(picker_key(s.picker, key, around.now_ms) == (
        s.picker,
        PickerActionModel::NewSession(provider),
    ));
    let kind = ConfirmModel::NewSession(provider);
    let asked = app_key(s, key, facts, around).0;
    assert(asked == (AppModel {
        screen: AppScreen::Transcript,
        mode: ModeModel::Confirm(kind),
        ..s
    }));
    let normal = AppModel { mode: ModeModel::Normal, ..asked };
    lemma_new_session(normal, provider, later.cwd, later.hooks, later.now_ms);
    let (next, more) = normal.new_session(
        provider,
        text_opt(later.cwd),
        later.hooks,
        later.now_ms,
    );
    assert(app_key(asked, yes, facts, later) == (next, seq![EffectModel::KillTerminal] + more));
}

/// A new session of a provider whose hook is missing is started with a warning, and one whose hook
/// is there is not. The provider whose tool can load a plugin needs its hook only without it.
pub proof fn law_hook_warnings(
    s: AppModel,
    provider: ProviderKind,
    cwd: Option<Seq<char>>,
    hooks: HookStatus,
    now_ms: u64,
)
    ensures
        ({
            let next = s.new_session(provider, cwd, hooks, now_ms).0;
            let missing = if provider == ProviderKind::Cursor {
                !hooks.cursor
            } else {
                !hooks.claude && s.agents.claude.disable_plugin
            };
            &&& !missing ==> next.flash == s.flash
            &&& missing ==> next.flash is Some && (next.flash->0).1 && (next.flash->0).2 == now_ms
            &&& missing && provider == ProviderKind::Cursor ==> (next.flash->0).0
                == " Cursor session hook not installed. Run: agt install-hooks cursor"@
            &&& missing && provider == ProviderKind::Claude ==> (next.flash->0).0 == " "@
                + capitalized(s.names.claude@)
                + " session hook not installed. Run: agt install-hooks --force "@ + s.names.claude@
            &&& next.panel == s.panel && next.mode == s.mode && next.last_session == s.last_session
            &&& next.running == s.running
        }),
{
}

/// Ctrl-F in the list shows all sessions, which are read anew, or filters what is there by the
/// directory.
pub proof fn law_list_is_widened(s: AppModel, facts: TreeFacts, around: Surroundings)
    requires
        s.screen == AppScreen::Picker,
    ensures
        ({
            let (next, effects) = app_key(s, pressed(KeyCode::Char('f'), true), facts, around);
            &&& next.picker.show_all == !s.picker.show_all
            &&& !s.picker.show_all ==> effects == seq![EffectModel::StartRefresh(None)]
            &&& s.picker.show_all ==> effects.len() == 0
            &&& s.picker.show_all ==> next.picker.filtered == listed(
                s.picker.all,
                false,
                s.picker.cwd,
                s.picker.tab,
            )
            &&& next == (AppModel { picker: next.picker, ..s })
        }),
{
}

/// Esc and `q` in the list go back to the transcript where there is one, and end the application
/// where there is none.
pub proof fn law_list_is_left(s: AppModel, key: Key, facts: TreeFacts, around: Surroundings)
    requires
        s.screen == AppScreen::Picker,
        key.press,
        key.code == KeyCode::Esc || key.code == KeyCode::Char('q'),
    ensures
        s.transcript_open ==> app_key(s, key, facts, around) == (
            (AppModel { screen: AppScreen::Transcript, ..s }),
            seq![EffectModel::AbortRefresh],
        ),
        !s.transcript_open ==> app_key(s, key, facts, around) == (
            (AppModel { running: false, ..s }),
            Seq::<EffectModel>::empty(),
        ),
{
}

/// What is asked is done at a yes: a tool that runs is killed, the session read last is read anew,
/// and a log is written. The question is gone.
pub proof fn law_yes_does_what_was_asked(
    s: AppModel,
    yes: Key,
    facts: TreeFacts,
    around: Surroundings,
)
    requires
        s.screen == AppScreen::Transcript,
        says_yes(yes),
    ensures
        s.mode == ModeModel::Confirm(ConfirmModel::Kill) && s.panel is Live ==> app_key(
            s,
            yes,
            facts,
            around,
        ) == ((AppModel { mode: ModeModel::Normal, ..s }), seq![EffectModel::KillTerminal]),
        s.mode == ModeModel::Confirm(ConfirmModel::Kill) && !(s.panel is Live) ==> app_key(
            s,
            yes,
            facts,
            around,
        ) == ((AppModel { mode: ModeModel::Normal, ..s }), Seq::<EffectModel>::empty()),
        s.mode == ModeModel::Confirm(ConfirmModel::DebugLog) ==> app_key(s, yes, facts, around) == (
            (AppModel { mode: ModeModel::Normal, ..s }),
            seq![EffectModel::EnableLog],
        ),
        s.mode == ModeModel::Confirm(ConfirmModel::ReaderRestart) && s.last_session is Some
            ==> app_key(s, yes, facts, around) == (
            (AppModel { mode: ModeModel::Normal, ..s }),
            seq![
                EffectModel::LoadSession {
                    provider: s.last_session->0.provider,
                    path: s.last_session->0.path,
                    workspace: s.last_session->0.workspace,
                },
            ],
        ),
{
}

/// Whether keys go to the transcript, and begin no sequence and end none.
pub open spec fn goes_about(s: AppModel, facts: TreeFacts) -> bool {
    &&& s.screen == AppScreen::Transcript
    &&& s.mode is Normal
    &&& !s.data_view_open
    &&& !facts.pending
    &&& s.pending_app_key is None
}

/// Ctrl-X shows the list of sessions and reads it anew, of the list's directory.
pub proof fn law_ctrl_x_lists(s: AppModel, facts: TreeFacts, around: Surroundings)
    requires
        goes_about(s, facts),
    ensures
        app_key(s, pressed(KeyCode::Char('x'), true), facts, around) == (
            (AppModel {
                screen: AppScreen::Picker,
                picker: PickerModel { is_loading: true, ..s.picker },
                ..s
            }),
            seq![EffectModel::StartRefresh(s.picker.cwd)],
        ),
{
}

/// Ctrl-Y starts the tool of the panel's session with the next number, where it does not run; it
/// does nothing where it runs or where there is no session.
pub proof fn law_ctrl_y_starts(s: AppModel, facts: TreeFacts, around: Surroundings)
    requires
        goes_about(s, facts),
        s.terminal_id < u64::MAX,
    ensures
        s.panel is Uninitialized || s.panel is Exited ==> app_key(
            s,
            pressed(KeyCode::Char('y'), true),
            facts,
            around,
        ) == (
            (AppModel { terminal_id: (s.terminal_id + 1) as u64, ..s }),
            seq![
                EffectModel::Relaunch { id: (s.terminal_id + 1) as u64, always_focus: false },
            ],
        ),
        s.panel is Live || s.panel is Absent ==> app_key(
            s,
            pressed(KeyCode::Char('y'), true),
            facts,
            around,
        ) == (s, Seq::<EffectModel>::empty()),
{
}

/// Ctrl-K asks whether to kill a tool that runs, and Ctrl-M hands it Ctrl-O's byte; neither does
/// anything where no tool runs.
pub proof fn law_keys_for_the_tool(s: AppModel, facts: TreeFacts, around: Surroundings)
    requires
        goes_about(s, facts),
    ensures
        s.panel is Live ==> app_key(s, pressed(KeyCode::Char('k'), true), facts, around) == (
            (AppModel { mode: ModeModel::Confirm(ConfirmModel::Kill), ..s }),
            Seq::<EffectModel>::empty(),
        ),
        s.panel is Live ==> app_key(s, pressed(KeyCode::Char('m'), true), facts, around) == (
            s,
            seq![EffectModel::SendBytes(seq![15u8])],
        ),
        !(s.panel is Live) ==> app_key(s, pressed(KeyCode::Char('k'), true), facts, around) == (
            s,
            Seq::<EffectModel>::empty(),
        ),
        !(s.panel is Live) ==> app_key(s, pressed(KeyCode::Char('m'), true), facts, around) == (
            s,
            Seq::<EffectModel>::empty(),
        ),
        s.panel is Live ==> app_key(s, pressed(KeyCode::Char('o'), true), facts, around) == (
            (AppModel { mode: ModeModel::Terminal, ..s }),
            seq![EffectModel::FocusTerminal],
        ),
        s.panel is Live ==> app_key(s, pressed(KeyCode::Esc, false), facts, around) == (
            (AppModel { mode: ModeModel::Terminal, ..s }),
            seq![EffectModel::FocusTerminal],
        ),
        !(s.panel is Live) ==> app_key(s, pressed(KeyCode::Char('o'), true), facts, around) == (
            s,
            seq![EffectModel::TreeKey],
        ),
        !(s.panel is Live) ==> app_key(s, pressed(KeyCode::Esc, false), facts, around) == (
            s,
            seq![EffectModel::TreeKey],
        ),
{
}

/// `r` opens the view of the selected message, `?` that of the keys and `I` that of the session; an
/// exclamation mark begins a sequence.
pub proof fn law_keys_that_open_views(s: AppModel, facts: TreeFacts, around: Surroundings)
    requires
        goes_about(s, facts),
    ensures
        app_key(s, pressed(KeyCode::Char('r'), false), facts, around) == (
            (AppModel { data_view_open: true, ..s }),
            seq![EffectModel::OpenRaw],
        ),
        app_key(s, pressed(KeyCode::Char('?'), false), facts, around) == (
            (AppModel { data_view_open: true, ..s }),
            seq![EffectModel::OpenShortcuts],
        ),
        app_key(s, pressed(KeyCode::Char('I'), false), facts, around) == (
            s,
            seq![EffectModel::OpenInfo],
        ),
        app_key(s, pressed(KeyCode::Char('!'), false), facts, around) == (
            (AppModel { pending_app_key: Some('!'), ..s }),
            Seq::<EffectModel>::empty(),
        ),
{
}

/// Every other key, and every key of a sequence that the transcript waits for, is the transcript's.
pub proof fn law_other_keys_go_to_the_transcript(
    s: AppModel,
    key: Key,
    facts: TreeFacts,
    around: Surroundings,
)
    requires
        s.screen == AppScreen::Transcript,
        s.mode is Normal,
        !s.data_view_open,
        facts.pending || (s.pending_app_key is None && (!key.press || key.code == KeyCode::Up
            || key.code == KeyCode::Down || key.code == KeyCode::Left || key.code == KeyCode::Right
            || key.code == KeyCode::Enter || key.code == KeyCode::Tab || key.code == KeyCode::Other
            || (!key.ctrl && key.code is Char && key.code->Char_0 != 'r' && key.code->Char_0 != 'I'
            && key.code->Char_0 != '?' && key.code->Char_0 != '!'))),
    ensures
        app_key(s, key, facts, around) == (s, seq![EffectModel::TreeKey]),
{
}

/// After an exclamation mark, `l` opens the log, `s` shows or hides more in the status bar, `r`
/// asks whether to read the session anew where one was read, and `L` asks whether to write a log,
/// or tells that one is written.
pub proof fn law_sequences(s: AppModel, facts: TreeFacts, around: Surroundings)
    requires
        s.screen == AppScreen::Transcript,
        s.mode is Normal,
        !s.data_view_open,
        !facts.pending,
        s.pending_app_key == Some('!'),
    ensures
        app_key(s, pressed(KeyCode::Char('l'), false), facts, around) == (
            (AppModel { pending_app_key: None, data_view_open: true, ..s }),
            seq![EffectModel::OpenLogs],
        ),
        app_key(s, pressed(KeyCode::Char('s'), false), facts, around) == (
            (AppModel { pending_app_key: None, status_bar_debug: !s.status_bar_debug, ..s }),
            Seq::<EffectModel>::empty(),
        ),
        s.last_session is Some ==> app_key(
            s,
            pressed(KeyCode::Char('r'), false),
            facts,
            around,
        ) == (
            (AppModel {
                pending_app_key: None,
                mode: ModeModel::Confirm(ConfirmModel::ReaderRestart),
                ..s
            }),
            Seq::<EffectModel>::empty(),
        ),
        s.last_session is None ==> app_key(
            s,
            pressed(KeyCode::Char('r'), false),
            facts,
            around,
        ) == ((AppModel { pending_app_key: None, ..s }), Seq::<EffectModel>::empty()),
        !facts.log_enabled ==> app_key(s, pressed(KeyCode::Char('L'), false), facts, around) == (
            (AppModel {
                pending_app_key: None,
                mode: ModeModel::Confirm(ConfirmModel::DebugLog),
                ..s
            }),
            Seq::<EffectModel>::empty(),
        ),
        facts.log_enabled ==> app_key(s, pressed(KeyCode::Char('L'), false), facts, around) == (
            (AppModel {
                pending_app_key: None,
                flash: Some(
                    (
                        "Already writing logs to /tmp/agent-transcript.log"@,
                        false,
                        around.now_ms,
                    ),
                ),
                ..s
            }),
            Seq::<EffectModel>::empty(),
        ),
{
}

/// While keys go to the tool, each but Ctrl-O is handed to it where it runs, and nothing changes.
pub proof fn law_tool_gets_the_keys(
    s: AppModel,
    key: Key,
    facts: TreeFacts,
    around: Surroundings,
)
    requires
        s.screen == AppScreen::Transcript,
        s.mode is Terminal,
        !s.data_view_open,
    ensures
        key != pressed(KeyCode::Char('o'), true) && s.panel is Live ==> app_key(
            s,
            key,
            facts,
            around,
        ) == (s, seq![EffectModel::SendKey]),
        key != pressed(KeyCode::Char('o'), true) && !(s.panel is Live) ==> app_key(
            s,
            key,
            facts,
            around,
        ) == (s, Seq::<EffectModel>::empty()),
        key == pressed(KeyCode::Char('o'), true) ==> app_key(s, key, facts, around) == (
            (AppModel { mode: ModeModel::Normal, quit_intent: false, ..s }),
            seq![EffectModel::RestoreCursor],
        ),
{
}

/// A message that takes keys gets them all, whether the tool runs or not.
pub proof fn law_message_gets_the_keys(
    s: AppModel,
    key: Key,
    facts: TreeFacts,
    around: Surroundings,
)
    requires
        s.screen == AppScreen::Transcript,
        s.mode is MessageInteraction,
        !s.data_view_open,
    ensures
        facts.interactive ==> app_key(s, key, facts, around) == (s, seq![EffectModel::MessageKey]),
        !facts.interactive ==> app_key(s, key, facts, around) == (s, Seq::<EffectModel>::empty()),
{
}

/// While the view is open, the keys are its own: no tool is started or killed by one, no session
/// is read, and none reaches the transcript or the tool.
pub proof fn law_view_gets_the_keys(
    s: AppModel,
    key: Key,
    facts: TreeFacts,
    around: Surroundings,
)
    requires
        s.screen == AppScreen::Transcript,
        !(s.mode is Confirm),
        s.data_view_open,
    ensures
        ({
            let (next, effects) = app_key(s, key, facts, around);
            &&& next == (AppModel { data_view_open: next.data_view_open, ..s })
            &&& effects.len() <= 1
            &&& effects.len() == 1 ==> next.data_view_open && (effects[0] is ViewKey
                || effects[0] is ToggleDisplay)
        }),
{
}

/// `Y` and `yy` copy the text as it stands, `yr` the raw data, and `yt` the text without its
/// markup; nothing else changes, in the transcript as in the view.
pub proof fn law_copies(
    s: AppModel,
    facts: TreeFacts,
    text: Seq<char>,
    data: Seq<char>,
    now_ms: u64,
)
    ensures
        tree_action(s, TreeAction::CopyMarkdown, facts, text, data, now_ms) == (
            s,
            seq![EffectModel::Copy(text)],
        ),
        tree_action(s, TreeAction::CopyRawData, facts, text, data, now_ms) == (
            s,
            seq![EffectModel::Copy(data)],
        ),
        tree_action(s, TreeAction::CopyPlainText, facts, text, data, now_ms) == (
            s,
            seq![EffectModel::Copy(trimmed_end(plain(markdown_parsed(text))))],
        ),
        view_tree_action(TreeAction::CopyMarkdown, text, data) == seq![EffectModel::Copy(text)],
        view_tree_action(TreeAction::CopyRawData, text, data) == seq![EffectModel::Copy(data)],
        view_tree_action(TreeAction::CopyPlainText, text, data) == seq![
            EffectModel::Copy(trimmed_end(plain(markdown_parsed(text)))),
        ],
        view_tree_action(TreeAction::Other, text, data) == seq![EffectModel::TreeApply],
        view_tree_action(TreeAction::Quit, text, data) == seq![EffectModel::TreeApply],
        view_tree_action(TreeAction::ToggleExpand, text, data) == seq![EffectModel::TreeApply],
        view_tree_action(TreeAction::CycleDisplay, text, data) == seq![EffectModel::TreeApply],
{
}

/// Quitting ends the application where no tool runs. Where one runs, the keys go to it, and the
/// user is told how to end it: twice Ctrl-D for the one provider, once for the other.
pub proof fn law_quitting(
    s: AppModel,
    facts: TreeFacts,
    text: Seq<char>,
    data: Seq<char>,
    now_ms: u64,
)
    ensures
        !(s.panel is Live) ==> tree_action(s, TreeAction::Quit, facts, text, data, now_ms) == (
            (AppModel { running: false, ..s }),
            Seq::<EffectModel>::empty(),
        ),
        s.panel is Live && s.panel->Live_0.provider == ProviderKind::Cursor ==> tree_action(
            s,
            TreeAction::Quit,
            facts,
            text,
            data,
            now_ms,
        ) == (
            (AppModel {
                quit_intent: true,
                mode: ModeModel::Terminal,
                flash: Some((" Ctrl-D to exit"@, false, now_ms)),
                ..s
            }),
            seq![EffectModel::FocusTerminal],
        ),
        s.panel is Live && s.panel->Live_0.provider == ProviderKind::Claude ==> tree_action(
            s,
            TreeAction::Quit,
            facts,
            text,
            data,
            now_ms,
        ) == (
            (AppModel {
                quit_intent: true,
                mode: ModeModel::Terminal,
                flash: Some((" Ctrl-D twice to exit"@, false, now_ms)),
                ..s
            }),
            seq![EffectModel::FocusTerminal],
        ),
{
}

/// What the transcript asks for concerns the tool where the tool is selected, a message that takes
/// keys where one is selected, and else the transcript.
pub proof fn law_requests_of_the_transcript(
    s: AppModel,
    facts: TreeFacts,
    text: Seq<char>,
    data: Seq<char>,
    now_ms: u64,
)
    ensures
        facts.terminal_selected ==> tree_action(
            s,
            TreeAction::CycleDisplay,
            facts,
            text,
            data,
            now_ms,
        ) == ((AppModel { expanded: !s.expanded, ..s }), seq![EffectModel::SyncTerminal]),
        !facts.terminal_selected ==> tree_action(
            s,
            TreeAction::CycleDisplay,
            facts,
            text,
            data,
            now_ms,
        ) == (s, seq![EffectModel::TreeApply]),
        facts.interactive ==> tree_action(
            s,
            TreeAction::ToggleExpand,
            facts,
            text,
            data,
            now_ms,
        ) == (
            (AppModel { mode: ModeModel::MessageInteraction, ..s }),
            seq![EffectModel::FocusMessage],
        ),
        !facts.interactive && facts.terminal_selected && s.panel is Live ==> tree_action(
            s,
            TreeAction::ToggleExpand,
            facts,
            text,
            data,
            now_ms,
        ) == ((AppModel { mode: ModeModel::Terminal, ..s }), seq![EffectModel::FocusTerminal]),
        !facts.interactive && facts.terminal_selected && !(s.panel is Live) ==> tree_action(
            s,
            TreeAction::ToggleExpand,
            facts,
            text,
            data,
            now_ms,
        ) == (s, Seq::<EffectModel>::empty()),
        !facts.interactive && !facts.terminal_selected ==> tree_action(
            s,
            TreeAction::ToggleExpand,
            facts,
            text,
            data,
            now_ms,
        ) == (s, seq![EffectModel::TreeApply]),
        s.panel is Live ==> tree_action(
            s,
            TreeAction::TerminalActivate,
            facts,
            text,
            data,
            now_ms,
        ) == ((AppModel { mode: ModeModel::Terminal, ..s }), seq![EffectModel::FocusTerminal]),
        !(s.panel is Live) ==> tree_action(
            s,
            TreeAction::TerminalActivate,
            facts,
            text,
            data,
            now_ms,
        ) == (s, Seq::<EffectModel>::empty()),
        tree_action(s, TreeAction::Other, facts, text, data, now_ms) == (
            s,
            seq![EffectModel::TreeApply],
        ),
{
}

/// A tool that was started runs in its session and gets the keys; one that was not leaves all as it
/// was.
pub proof fn law_launched(s: AppModel, info: InfoModel)
    ensures
        s.launched(info, true) == (
            (AppModel { panel: PanelModel::Live(info), mode: ModeModel::Terminal, ..s }),
            seq![EffectModel::FocusTerminal],
        ),
        s.launched(info, false) == (s, Seq::<EffectModel>::empty()),
{
}

/// The panel's tool, once started again, runs in the same session and gets the keys. Where it did
/// not start, the panel stays, and it gets the keys only if it was to get them in any case.
pub proof fn law_relaunched(s: AppModel, info: InfoModel, always_focus: bool)
    requires
        s.panel == PanelModel::Uninitialized(info) || (s.panel is Exited && s.panel->info == info),
    ensures
        s.relaunched(true, always_focus) == (
            (AppModel { panel: PanelModel::Live(info), mode: ModeModel::Terminal, ..s }),
            seq![EffectModel::FocusTerminal],
        ),
        s.relaunched(false, true) == (
            (AppModel { mode: ModeModel::Terminal, ..s }),
            seq![EffectModel::FocusTerminal],
        ),
        s.relaunched(false, false) == (s, Seq::<EffectModel>::empty()),
{
}

/// When the tool that runs ends, the cursor gets its usual shape, the keys no longer go to it, and
/// nothing but the panel, the mode and, at a wish to quit, the run of the application changes.
pub proof fn law_exit_of_the_tool(s: AppModel, code: Option<i32>)
    requires
        s.panel is Live,
    ensures
        ({
            let (next, effects) = s.exited(s.terminal_id, code);
            &&& effects == seq![EffectModel::RestoreCursor]
            &&& s.mode is Terminal ==> next.mode is Normal
            &&& !(s.mode is Terminal) ==> next.mode == s.mode
            &&& next.running == (s.running && !s.quit_intent)
            &&& next == (AppModel {
                panel: PanelModel::Exited { info: s.panel->Live_0, code },
                mode: next.mode,
                running: next.running,
                ..s
            })
        }),
{
}

/// Once the tool told of its session, the panel holds that session's id, and its directory where
/// one was told. The transcript that was told is read; where none was, it is looked for. Where no
/// tool runs, nothing happens.
pub proof fn law_detected(
    s: AppModel,
    session_id: Seq<char>,
    transcript: Option<Seq<char>>,
    workspace: Option<Seq<char>>,
)
    ensures
        ({
            let (next, effects) = s.detected(session_id, transcript, workspace);
            let info = s.panel->Live_0;
            &&& !(s.panel is Live) ==> next == s && effects.len() == 0
            &&& s.panel is Live ==> {
                &&& next.panel is Live
                &&& next.panel->Live_0.session_id == Some(session_id)
                &&& workspace is Some ==> next.panel->Live_0.directory == workspace->0
                &&& workspace is None ==> next.panel->Live_0.directory == info.directory
                &&& next.panel->Live_0.provider == info.provider
                &&& next.panel->Live_0.binary == info.binary
                &&& next.panel->Live_0.extra_args == info.extra_args
                &&& next.panel->Live_0.disable_plugin == info.disable_plugin
                &&& effects.len() == 1
                &&& transcript is Some ==> effects[0] == EffectModel::LoadSession {
                    provider: info.provider,
                    path: transcript->0,
                    workspace,
                } && next.last_session == Some(
                    LastModel { provider: info.provider, path: transcript->0, workspace },
                )
                &&& transcript is None ==> effects[0] == EffectModel::FindTranscript {
                    provider: info.provider,
                    session_id,
                    workspace,
                } && next.last_session == s.last_session
                &&& next == (AppModel {
                    panel: next.panel,
                    last_session: next.last_session,
                    ..s
                })
            }
        }),
{
}

/// A message is shown for five seconds.
pub proof fn law_messages_fade(since_ms: u64, now_ms: u64)
    ensures
        faded(since_ms, now_ms) <==> since_ms + 5_000 <= now_ms,
{
}

/// A message goes five seconds after it came up and not before; that of the list only while the list
/// is shown. Nothing else changes with time.
pub proof fn law_ticks(s: AppModel, now_ms: u64)
    ensures
        ({
            let next = s.ticked(now_ms);
            &&& s.flash is None ==> next.flash is None
            &&& s.flash is Some && (s.flash->0).2 + 5_000 <= now_ms ==> next.flash is None
            &&& s.flash is Some && (s.flash->0).2 + 5_000 > now_ms ==> next.flash == s.flash
            &&& s.picker.flash is Some && (s.picker.flash->0).1 + 5_000 <= now_ms && s.screen
                == AppScreen::Picker ==> next.picker.flash is None
            &&& s.picker.flash is Some && (s.picker.flash->0).1 + 5_000 > now_ms
                ==> next.picker.flash == s.picker.flash
            &&& s.screen == AppScreen::Transcript ==> next.picker == s.picker
            &&& next == (AppModel {
                flash: next.flash,
                picker: PickerModel { flash: next.picker.flash, ..s.picker },
                ..s
            })
        }),
{
}

/// The session to name at the end is that of the tool that runs or ended, where its id is known.
pub proof fn law_session_to_resume(s: AppModel, info: InfoModel, code: Option<i32>)
    ensures
        (s.panel == PanelModel::Live(info) || s.panel == (PanelModel::Exited { info, code }))
            && info.session_id is Some ==> s.resumable() == Some(
            (info.provider, info.session_id->0),
        ),
        (s.panel == PanelModel::Live(info) || s.panel == (PanelModel::Exited { info, code }))
            && info.session_id is None ==> s.resumable() is None,
        s.panel is Absent || s.panel is Uninitialized ==> s.resumable() is None,
{
}

/// A session that was asked for is read where its transcript was found, and its tool is started with
/// the next number where it is to be resumed; else the tool can be started later. Where there is no
/// transcript, the error names the session.
pub proof fn law_starting_with_a_session(
    s: AppModel,
    provider: ProviderKind,
    id: Seq<char>,
    path: Seq<char>,
    workspace: Option<Seq<char>>,
    cwd: Option<Seq<char>>,
)
    requires
        s.terminal_id < u64::MAX,
    ensures
        s.session_started(provider, id, true, None, workspace, cwd) is Err,
        s.session_started(provider, id, false, None, workspace, cwd)->Err_0 == "session not found: "@
            + s.names.word_of(provider) + ":"@ + id,
        ({
            let started = s.session_started(provider, id, true, Some(path), workspace, cwd);
            let (next, effects) = started->Ok_0;
            &&& started is Ok
            &&& effects.len() == 2
            &&& effects[0] == (EffectModel::LoadSession { provider, path, workspace })
            &&& effects[1] is Launch && effects[1]->Launch_id == s.terminal_id + 1
            &&& effects[1]->Launch_info.provider == provider
            &&& effects[1]->Launch_info.session_id == Some(id)
            &&& workspace is Some ==> effects[1]->Launch_info.directory == workspace->0
            &&& workspace is None && cwd is Some ==> effects[1]->Launch_info.directory == cwd->0
            &&& next.terminal_id == s.terminal_id + 1 && next.transcript_open
            &&& next.panel == s.panel
            &&& next.last_session == Some(LastModel { provider, path, workspace })
        }),
        ({
            let started = s.session_started(provider, id, false, Some(path), workspace, cwd);
            let (next, effects) = started->Ok_0;
            &&& started is Ok
            &&& effects == seq![EffectModel::LoadSession { provider, path, workspace }]
            &&& next.terminal_id == s.terminal_id && next.transcript_open
            &&& next.panel is Uninitialized
            &&& next.panel->Uninitialized_0.provider == provider
            &&& next.panel->Uninitialized_0.session_id == Some(id)
            &&& workspace is Some ==> next.panel->Uninitialized_0.directory == workspace->0
            &&& next.last_session == Some(LastModel { provider, path, workspace })
        }),
{
}

/// Where a session's own entry cannot be read, it is told of by what was read last and by the panel.
pub proof fn law_known_entry(s: AppModel, now: Moment)
    ensures
        s.last_session is None && s.panel is Absent ==> s.known(now) is None,
        s.last_session is Some ==> ({
            let e = s.known(now);
            &&& e is Some
            &&& e->0.path == s.last_session->0.path
            &&& e->0.provider == s.last_session->0.provider
            &&& s.last_session->0.workspace is Some ==> e->0.workspace_path
                == s.last_session->0.workspace
            &&& e->0.mtime == now && e->0.title.len() == 0 && e->0.message_count == 0
            &&& s.panel is Live && s.panel->Live_0.session_id is Some ==> e->0.id
                == s.panel->Live_0.session_id->0
        }),
        s.last_session is None && s.panel is Live ==> s.known(now) is Some && s.known(
            now,
        )->0.provider == s.panel->Live_0.provider && s.known(now)->0.workspace_path == Some(
            s.panel->Live_0.directory,
        ),
{
}

/// `Y` and `yy` copy the text as it stands, `yt` without its markup and `yr` the raw data; a single
/// `y` waits for the second key, and any other second key copies nothing.
pub proof fn law_keys_that_copy(code: KeyCode)
    ensures
        copy_request(false, KeyCode::Char('y')) == (true, None::<TreeAction>),
        copy_request(false, KeyCode::Char('Y')) == (false, Some(TreeAction::CopyMarkdown)),
        copy_request(true, KeyCode::Char('y')) == (false, Some(TreeAction::CopyMarkdown)),
        copy_request(true, KeyCode::Char('t')) == (false, Some(TreeAction::CopyPlainText)),
        copy_request(true, KeyCode::Char('r')) == (false, Some(TreeAction::CopyRawData)),
        code != KeyCode::Char('y') && code != KeyCode::Char('t') && code != KeyCode::Char('r')
            ==> copy_request(true, code) == (false, None::<TreeAction>),
        code != KeyCode::Char('y') && code != KeyCode::Char('Y') ==> copy_request(false, code) == (
            false,
            None::<TreeAction>,
        ),
{
}

/// The list takes sessions in while it is shown, and is no longer filled once all have come; while it
/// is not shown nothing comes in. Nothing else changes by that.
pub proof fn law_filling_the_list(s: AppModel, entries: Seq<EntryModel>)
    ensures
        s.screen == AppScreen::Transcript ==> s.filled(entries) == s && s.filled_up() == s,
        s.screen == AppScreen::Picker ==> {
            &&& s.filled(entries).picker == s.picker.appended(entries)
            &&& s.filled(entries) == (AppModel { picker: s.filled(entries).picker, ..s })
            &&& !s.filled_up().picker.is_loading
            &&& s.filled_up().picker == (PickerModel { is_loading: false, ..s.picker })
            &&& s.filled_up() == (AppModel { picker: s.filled_up().picker, ..s })
        },
{
}

/// What went wrong is shown as a warning and with its cause, and what went well as a message; nothing
/// else changes by that.
pub proof fn law_messages_of_events(
    s: AppModel,
    backend: ClipboardBackend,
    text: Seq<char>,
    error: Option<Seq<char>>,
    now_ms: u64,
)
    ensures
        s.reader_failed(text, now_ms).flash == Some(("reader error: "@ + text, true, now_ms)),
        s.copied(backend, None, now_ms).flash == Some(
            ("Copied ("@ + backend.shown() + ")"@, false, now_ms),
        ),
        s.copied(backend, Some(text), now_ms).flash == Some(("Copy failed: "@ + text, true, now_ms)),
        s.logging(None, now_ms).flash == Some(
            ("Writing logs to /tmp/agent-transcript.log"@, false, now_ms),
        ),
        s.logging(Some(text), now_ms).flash == Some(
            ("Failed to open log file: "@ + text, true, now_ms),
        ),
        ({
            let told = s.copied(backend, error, now_ms);
            told == (AppModel { flash: told.flash, ..s })
        }),
        ({
            let told = s.logging(error, now_ms);
            told == (AppModel { flash: told.flash, ..s })
        }),
        s.reader_failed(text, now_ms) == (AppModel {
            flash: s.reader_failed(text, now_ms).flash,
            ..s
        }),
{
}

/// A message that gives the keys back leaves them to the transcript, which keeps the selection; a key
/// that it passes on goes to the transcript, and a text that it hands out is copied.
pub proof fn law_answers_of_the_message(s: AppModel, result: MessageResult)
    ensures
        ({
            let (next, effects) = message_key(s, result);
            &&& result is Exit ==> next.mode is Normal && effects == seq![
                EffectModel::HoldSelection,
            ]
            &&& !(result is Exit) ==> next.mode == s.mode
            &&& result is Passthrough ==> effects == seq![EffectModel::TreeApply]
            &&& result is Copy ==> effects == seq![EffectModel::Copy(result->Copy_0@)]
            &&& result is Done ==> effects.len() == 0
            &&& next == (AppModel { mode: next.mode, ..s })
        }),
{
}

/// What a key in the list of sessions leaves alone: the names and settings, the view and its marks,
/// and the wish to quit. It ends the application only where no transcript is open, and then does
/// nothing else.
pub proof fn law_keys_in_the_list_leave_the_rest(
    s: AppModel,
    key: Key,
    facts: TreeFacts,
    around: Surroundings,
)
    requires
        s.screen == AppScreen::Picker,
    ensures
        ({
            let (next, effects) = app_key(s, key, facts, around);
            &&& next.names == s.names && next.agents == s.agents
            &&& next.quit_intent == s.quit_intent
            &&& next.data_view_open == s.data_view_open
            &&& next.status_bar_debug == s.status_bar_debug
            &&& next.pending_app_key == s.pending_app_key
            &&& next.running != s.running ==> !next.running && !s.transcript_open && next.panel
                == s.panel && next.screen == s.screen && effects.len() == 0
        }),
{
}

/// What a key in the transcript leaves alone: the names and settings, and the sessions of the list
/// and the line that is selected there.
pub proof fn law_keys_in_the_transcript_leave_the_list(
    s: AppModel,
    key: Key,
    facts: TreeFacts,
    around: Surroundings,
)
    requires
        s.screen == AppScreen::Transcript,
    ensures
        ({
            let (next, effects) = app_key(s, key, facts, around);
            &&& next.names == s.names && next.agents == s.agents
            &&& next.picker == s.picker || next.picker == (PickerModel {
                is_loading: true,
                ..s.picker
            })
            &&& next.terminal_id == s.terminal_id || next.terminal_id == (s.terminal_id + 1) as u64
        }),
{
}

} // verus!
