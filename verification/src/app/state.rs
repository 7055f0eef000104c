//! The state of the application, and what events do to it.
use crate::app::effect::{
    append_effects, effect_views, no_effects, one_effect, push_effect, Effect, EffectModel,
};
use crate::app::mode::{AppMode, AppScreen, ModeModel};
use crate::app::session::{
    copy_text_opt, info_for, make_info, InfoModel, PanelModel, PanelState, SessionInfo,
};
use crate::clipboard::ClipboardBackend;
use crate::config::AgentsConfig;
use crate::index::refresh::entry_views;
use crate::picker::state::{faded, PickerModel, PickerState, FLASH_MS};
use crate::providers::{EntryModel, Moment, ProviderKind, ProviderNames, TranscriptEntry};
use crate::text::{capitalize, capitalized, concat2, concat3};
use crate::tree::text_opt;
use vstd::prelude::*;
use vstd::string::*;

verus! {

broadcast use vstd::string::group_string_axioms;

/// A message in the line at the bottom, for a while.
#[derive(Debug, PartialEq)]
pub struct AppFlash {
    pub message: String,
    pub warning: bool,
    pub since_ms: u64,
}

/// What a flash holds.
pub open spec fn flash_model(f: Option<AppFlash>) -> Option<(Seq<char>, bool, u64)> {
    match f {
        Some(f) => Some((f.message@, f.warning, f.since_ms)),
        None => None,
    }
}

/// The session that was read last.
#[derive(Debug, PartialEq)]
pub struct LastSession {
    pub provider: ProviderKind,
    pub path: String,
    pub workspace: Option<String>,
}

/// What a `LastSession` holds.
#[verifier::ext_equal]
pub struct LastModel {
    pub provider: ProviderKind,
    pub path: Seq<char>,
    pub workspace: Option<Seq<char>>,
}

/// What a last session holds, where there is one.
pub open spec fn last_model(s: Option<LastSession>) -> Option<LastModel> {
    match s {
        Some(s) => Some(
            LastModel { provider: s.provider, path: s.path@, workspace: text_opt(s.workspace) },
        ),
        None => None,
    }
}

/// The application.
pub struct App {
    pub running: bool,
    pub screen: AppScreen,
    pub mode: AppMode,
    pub panel: PanelState,
    /// Whether the tool is shown with the rows that went by.
    pub expanded: bool,
    pub picker: PickerState,
    /// Whether a transcript was opened.
    pub transcript_open: bool,
    /// Whether the application ends with the tool.
    pub quit_intent: bool,
    pub flash: Option<AppFlash>,
    pub data_view_open: bool,
    /// The number of the tool that was started last.
    pub terminal_id: u64,
    pub status_bar_debug: bool,
    pub last_session: Option<LastSession>,
    /// The first key of a sequence.
    pub pending_app_key: Option<char>,
    pub names: ProviderNames,
    pub agents: AgentsConfig,
}

/// What an `App` holds.
#[verifier::ext_equal]
pub struct AppModel {
    pub running: bool,
    pub screen: AppScreen,
    pub mode: ModeModel,
    pub panel: PanelModel,
    pub expanded: bool,
    pub picker: PickerModel,
    pub transcript_open: bool,
    pub quit_intent: bool,
    pub flash: Option<(Seq<char>, bool, u64)>,
    pub data_view_open: bool,
    pub terminal_id: u64,
    pub status_bar_debug: bool,
    pub last_session: Option<LastModel>,
    pub pending_app_key: Option<char>,
    pub names: ProviderNames,
    pub agents: AgentsConfig,
}

impl View for App {
    type V = AppModel;

    open spec fn view(&self) -> AppModel {
        AppModel {
            running: self.running,
            screen: self.screen,
            mode: self.mode@,
            panel: self.panel@,
            expanded: self.expanded,
            picker: self.picker@,
            transcript_open: self.transcript_open,
            quit_intent: self.quit_intent,
            flash: flash_model(self.flash),
            data_view_open: self.data_view_open,
            terminal_id: self.terminal_id,
            status_bar_debug: self.status_bar_debug,
            last_session: last_model(self.last_session),
            pending_app_key: self.pending_app_key,
            names: self.names,
            agents: self.agents,
        }
    }
}

/// A state, and what is to be done outside.
pub type Outcome = (AppModel, Seq<EffectModel>);

/// Which hooks are installed.
#[derive(Clone, Copy, Debug, PartialEq, Eq, Structural)]
pub struct HookStatus {
    pub claude: bool,
    pub cursor: bool,
}

/// What surrounds an event: the time on a clock of milliseconds, the directory, and the hooks.
#[derive(Debug, PartialEq)]
pub struct Surroundings {
    pub now_ms: u64,
    pub cwd: Option<String>,
    pub hooks: HookStatus,
}

impl AppModel {
    /// With a message to show.
    pub open spec fn flashing(self, message: Seq<char>, warning: bool, now_ms: u64) -> AppModel {
        AppModel { flash: Some((message, warning, now_ms)), ..self }
    }

    /// With the keys going to the tool.
    pub open spec fn activated(self) -> Outcome {
        (AppModel { mode: ModeModel::Terminal, ..self }, seq![EffectModel::FocusTerminal])
    }

    /// With the keys no longer going to the tool.
    pub open spec fn without_terminal_mode(self) -> AppModel {
        if self.mode is Terminal {
            AppModel { mode: ModeModel::Normal, ..self }
        } else {
            self
        }
    }

    /// With the list of sessions closed.
    pub open spec fn picker_closed(self) -> Outcome {
        (AppModel { screen: AppScreen::Transcript, ..self }, seq![EffectModel::AbortRefresh])
    }

    /// With a session being read.
    pub open spec fn loading(
        self,
        provider: ProviderKind,
        path: Seq<char>,
        workspace: Option<Seq<char>>,
    ) -> Outcome {
        (
            AppModel { last_session: Some(LastModel { provider, path, workspace }), ..self },
            seq![EffectModel::LoadSession { provider, path, workspace }],
        )
    }

    /// In another session, whose tool was not started.
    pub open spec fn switched(self, e: EntryModel, cwd: Option<Seq<char>>) -> Outcome {
        let directory = match e.workspace_path {
            Some(w) => w,
            None => match cwd {
                Some(d) => d,
                None => Seq::empty(),
            },
        };
        let info = info_for(self.agents, e.provider, Some(e.id), directory);
        let (s, effects) = self.loading(e.provider, e.path, e.workspace_path);
        (
            AppModel {
                panel: PanelModel::Uninitialized(info),
                expanded: false,
                transcript_open: true,
                screen: AppScreen::Transcript,
                ..s.without_terminal_mode()
            },
            effects,
        )
    }

    /// With the panel's tool being started, where it can be.
    pub open spec fn relaunching(self, always_focus: bool) -> Outcome {
        if !self.panel.can_launch() {
            (self, Seq::empty())
        } else {
            let id = (self.terminal_id + 1) as u64;
            (
                AppModel { terminal_id: id, ..self },
                seq![EffectModel::Relaunch { id, always_focus }],
            )
        }
    }

    /// The warning where a provider's hook is missing.
    pub open spec fn hook_warning(self, provider: ProviderKind, hooks: HookStatus) -> Option<
        Seq<char>,
    > {
        match provider {
            ProviderKind::Cursor => if !hooks.cursor {
                Some(" Cursor session hook not installed. Run: agt install-hooks cursor"@)
            } else {
                None
            },
            ProviderKind::Claude => if self.agents.claude.disable_plugin && !hooks.claude {
                Some(
                    " "@ + capitalized(self.names.claude@)
                        + " session hook not installed. Run: agt install-hooks --force "@
                        + self.names.claude@,
                )
            } else {
                None
            },
        }
    }

    /// With a warning where a provider's hook is missing.
    pub open spec fn warned(self, provider: ProviderKind, hooks: HookStatus, now_ms: u64) -> AppModel {
        match self.hook_warning(provider, hooks) {
            Some(message) => self.flashing(message, true, now_ms),
            None => self,
        }
    }

    /// With a tool being started in a new session.
    pub open spec fn starting(self, provider: ProviderKind, cwd: Option<Seq<char>>) -> Outcome {
        let id = (self.terminal_id + 1) as u64;
        let directory = match cwd {
            Some(d) => d,
            None => Seq::empty(),
        };
        (
            AppModel {
                terminal_id: id,
                transcript_open: true,
                screen: AppScreen::Transcript,
                ..self
            },
            seq![
                EffectModel::Launch { info: info_for(self.agents, provider, None, directory), id },
            ],
        )
    }

    /// In a new session.
    pub open spec fn new_session(
        self,
        provider: ProviderKind,
        cwd: Option<Seq<char>>,
        hooks: HookStatus,
        now_ms: u64,
    ) -> Outcome {
        let (s, effects) = self.warned(provider, hooks, now_ms).starting(provider, cwd);
        (s, seq![EffectModel::ClearTranscript] + effects)
    }

    /// Once a tool was started, or was not.
    pub open spec fn launched(self, info: InfoModel, runs: bool) -> Outcome {
        if runs {
            AppModel { panel: PanelModel::Live(info), ..self }.activated()
        } else {
            (self, Seq::empty())
        }
    }

    /// Once the panel's tool was started, or was not.
    pub open spec fn relaunched(self, runs: bool, always_focus: bool) -> Outcome {
        let s = if runs && self.panel.info() is Some {
            AppModel { panel: PanelModel::Live(self.panel.info()->0), ..self }
        } else {
            self
        };
        if runs || always_focus {
            s.activated()
        } else {
            (s, Seq::empty())
        }
    }

    /// Once a tool ended. What is told of an earlier tool is passed over.
    pub open spec fn exited(self, terminal_id: u64, code: Option<i32>) -> Outcome {
        if terminal_id != self.terminal_id {
            (self, Seq::empty())
        } else {
            let (s, effects) = match self.panel {
                PanelModel::Live(info) => (
                    AppModel {
                        panel: PanelModel::Exited { info, code },
                        ..self.without_terminal_mode()
                    },
                    seq![EffectModel::RestoreCursor],
                ),
                _ => (self, Seq::<EffectModel>::empty()),
            };
            if self.quit_intent {
                (AppModel { running: false, ..s }, effects)
            } else {
                (s, effects)
            }
        }
    }

    /// Once the tool told of its session. The transcript is the one that was told, or is looked for.
    pub open spec fn detected(
        self,
        session_id: Seq<char>,
        transcript: Option<Seq<char>>,
        workspace: Option<Seq<char>>,
    ) -> Outcome {
        match self.panel {
            PanelModel::Live(info) => {
                let s = AppModel {
                    panel: PanelModel::Live(
                        InfoModel {
                            session_id: Some(session_id),
                            directory: match workspace {
                                Some(w) => w,
                                None => info.directory,
                            },
                            ..info
                        },
                    ),
                    ..self
                };
                match transcript {
                    Some(path) => s.loading(info.provider, path, workspace),
                    None => (
                        s,
                        seq![
                            EffectModel::FindTranscript {
                                provider: info.provider,
                                session_id,
                                workspace,
                            },
                        ],
                    ),
                }
            },
            _ => (self, Seq::empty()),
        }
    }
}

impl AppModel {
    /// With more sessions in the list, while it is shown.
    pub open spec fn filled(self, entries: Seq<EntryModel>) -> AppModel {
        if self.screen == AppScreen::Picker {
            AppModel { picker: self.picker.appended(entries), ..self }
        } else {
            self
        }
    }

    /// With all sessions in the list, while it is shown.
    pub open spec fn filled_up(self) -> AppModel {
        if self.screen == AppScreen::Picker {
            AppModel { picker: PickerModel { is_loading: false, ..self.picker }, ..self }
        } else {
            self
        }
    }

    /// With word of what stopped the reader.
    pub open spec fn reader_failed(self, message: Seq<char>, now_ms: u64) -> AppModel {
        self.flashing("reader error: "@ + message, true, now_ms)
    }

    /// With word of whether a text is in the clipboard.
    pub open spec fn copied(
        self,
        backend: ClipboardBackend,
        error: Option<Seq<char>>,
        now_ms: u64,
    ) -> AppModel {
        match error {
            None => self.flashing("Copied ("@ + backend.shown() + ")"@, false, now_ms),
            Some(e) => self.flashing("Copy failed: "@ + e, true, now_ms),
        }
    }

    /// With word of whether a log is written.
    pub open spec fn logging(self, error: Option<Seq<char>>, now_ms: u64) -> AppModel {
        match error {
            None => self.flashing("Writing logs to /tmp/agent-transcript.log"@, false, now_ms),
            Some(e) => self.flashing("Failed to open log file: "@ + e, true, now_ms),
        }
    }

    /// Without the messages that have been shown for long enough.
    pub open spec fn ticked(self, now_ms: u64) -> AppModel {
        AppModel {
            flash: match self.flash {
                Some((message, warning, since)) => if faded(since, now_ms) {
                    None
                } else {
                    Some((message, warning, since))
                },
                None => None,
            },
            picker: PickerModel {
                flash: match self.picker.flash {
                    Some((message, since)) => if self.screen == AppScreen::Picker && faded(
                        since,
                        now_ms,
                    ) {
                        None
                    } else {
                        Some((message, since))
                    },
                    None => None,
                },
                ..self.picker
            },
            ..self
        }
    }

    /// The session to name when the application ends: the one whose tool runs or ended.
    pub open spec fn resumable(self) -> Option<(ProviderKind, Seq<char>)> {
        let info = match self.panel {
            PanelModel::Live(info) => Some(info),
            PanelModel::Exited { info, .. } => Some(info),
            _ => None,
        };
        match info {
            Some(i) => match i.session_id {
                Some(id) => Some((i.provider, id)),
                None => None,
            },
            None => None,
        }
    }

    /// Started with a session, whose transcript and workspace were looked for, and with its tool
    /// where `resume` holds; an error where there is no transcript.
    pub open spec fn session_started(
        self,
        provider: ProviderKind,
        id: Seq<char>,
        resume: bool,
        path: Option<Seq<char>>,
        workspace: Option<Seq<char>>,
        cwd: Option<Seq<char>>,
    ) -> Result<Outcome, Seq<char>> {
        match path {
            None => Err("session not found: "@ + self.names.word_of(provider) + ":"@ + id),
            Some(p) => {
                let directory = match workspace {
                    Some(w) => w,
                    None => match cwd {
                        Some(d) => d,
                        None => Seq::empty(),
                    },
                };
                let info = info_for(self.agents, provider, Some(id), directory);
                let (loaded, effects) = self.loading(provider, p, workspace);
                if resume {
                    let next = (self.terminal_id + 1) as u64;
                    Ok(
                        (
                            AppModel { terminal_id: next, transcript_open: true, ..loaded },
                            effects + seq![EffectModel::Launch { info, id: next }],
                        ),
                    )
                } else {
                    Ok(
                        (
                            AppModel {
                                panel: PanelModel::Uninitialized(info),
                                transcript_open: true,
                                ..loaded
                            },
                            effects,
                        ),
                    )
                }
            },
        }
    }

    /// The entry to tell of where the session's own cannot be read: what is known without it.
    pub open spec fn known(self, now: Moment) -> Option<EntryModel> {
        let last = self.last_session;
        let info = self.panel.info();
        if last is None && info is None {
            None
        } else {
            Some(
                EntryModel {
                    path: match last {
                        Some(l) => l.path,
                        None => Seq::empty(),
                    },
                    id: match info {
                        Some(i) => match i.session_id {
                            Some(id) => id,
                            None => Seq::empty(),
                        },
                        None => Seq::empty(),
                    },
                    title: Seq::empty(),
                    mtime: now,
                    updated_at: None,
                    size: None,
                    last_user_message: None,
                    message_count: 0,
                    workspace_path: if last is Some && last->0.workspace is Some {
                        last->0.workspace
                    } else {
                        match info {
                            Some(i) => Some(i.directory),
                            None => None,
                        }
                    },
                    provider: match last {
                        Some(l) => l.provider,
                        None => info->0.provider,
                    },
                },
            )
        }
    }
}

fn flash_of(message: String, warning: bool, now_ms: u64) -> (r: Option<AppFlash>)
    ensures
        flash_model(r) == Some((message@, warning, now_ms)),
{
    Some(AppFlash { message, warning, since_ms: now_ms })
}

impl App {
    /// The application at its start, before anything was opened.
    pub fn new(cwd: Option<String>, names: ProviderNames, agents: AgentsConfig) -> (r: App)
        ensures
            r@ == (AppModel {
                running: true,
                screen: AppScreen::Transcript,
                mode: ModeModel::Normal,
                panel: PanelModel::Absent,
                expanded: false,
                picker: r@.picker,
                transcript_open: false,
                quit_intent: false,
                flash: None,
                data_view_open: false,
                terminal_id: 0,
                status_bar_debug: false,
                last_session: None,
                pending_app_key: None,
                names,
                agents,
            }),
            r@.picker.all == Seq::<EntryModel>::empty(),
            r@.picker.filtered == Seq::<EntryModel>::empty(),
            r@.picker.selected == Some(0usize),
            r@.picker.offset == 0,
            r@.picker.is_loading,
            !r@.picker.show_all,
            r@.picker.cwd == text_opt(cwd),
    {
        App {
            running: true,
            screen: AppScreen::Transcript,
            mode: AppMode::Normal,
            panel: PanelState::Absent,
            expanded: false,
            picker: PickerState::new(cwd),
            transcript_open: false,
            quit_intent: false,
            flash: None,
            data_view_open: false,
            terminal_id: 0,
            status_bar_debug: false,
            last_session: None,
            pending_app_key: None,
            names,
            agents,
        }
    }

    /// Shows a message.
    pub fn set_flash(&mut self, message: String, warning: bool, now_ms: u64)
        ensures
            final(self)@ == old(self)@.flashing(message@, warning, now_ms),
    {
        self.flash = flash_of(message, warning, now_ms);
    }

    /// Gives the keys to the tool.
    pub fn activate_terminal(&mut self) -> (r: Vec<Effect>)
        ensures
            (final(self)@, effect_views(r@)) == old(self)@.activated(),
    {
        self.mode = AppMode::Terminal;
        one_effect(Effect::FocusTerminal)
    }

    fn leave_terminal_mode(&mut self)
        ensures
            final(self)@ == old(self)@.without_terminal_mode(),
    {
        let terminal = match &self.mode {
            AppMode::Terminal => true,
            _ => false,
        };
        if terminal {
            self.mode = AppMode::Normal;
        }
    }

    /// Closes the list of sessions.
    pub fn close_picker(&mut self) -> (r: Vec<Effect>)
        ensures
            (final(self)@, effect_views(r@)) == old(self)@.picker_closed(),
    {
        self.screen = AppScreen::Transcript;
        one_effect(Effect::AbortRefresh)
    }

    /// Reads a session.
    pub fn load_session(&mut self, provider: ProviderKind, path: String, workspace: Option<String>) -> (r:
        Vec<Effect>)
        ensures
            (final(self)@, effect_views(r@)) == old(self)@.loading(
                provider,
                path@,
                text_opt(workspace),
            ),
    {
        let e = Effect::LoadSession {
            provider,
            path: path.clone(),
            workspace: copy_text_opt(&workspace),
        };
        self.last_session = Some(LastSession { provider, path, workspace });
        one_effect(e)
    }

    /// Goes to another session, without asking.
    pub fn do_session_switch(&mut self, entry: TranscriptEntry, cwd: &Option<String>) -> (r: Vec<
        Effect,
    >)
        ensures
            (final(self)@, effect_views(r@)) == old(self)@.switched(entry@, text_opt(*cwd)),
    {
        let directory = match &entry.workspace_path {
            Some(w) => w.clone(),
            None => match cwd {
                Some(d) => d.clone(),
                None => String::new(),
            },
        };
        let info = make_info(&self.agents, entry.provider, Some(entry.id), directory);
        let effects = self.load_session(entry.provider, entry.path, entry.workspace_path);
        self.leave_terminal_mode();
        self.panel = PanelState::Uninitialized(info);
        self.expanded = false;
        self.transcript_open = true;
        self.screen = AppScreen::Transcript;
        effects
    }

    /// Starts the panel's tool, where it does not run.
    pub fn try_launch_deferred_terminal(&mut self, always_focus: bool) -> (r: Vec<Effect>)
        requires
            old(self)@.terminal_id < u64::MAX,
        ensures
            (final(self)@, effect_views(r@)) == old(self)@.relaunching(always_focus),
    {
        if !self.panel.launches() {
            return no_effects();
        }
        self.terminal_id = self.terminal_id + 1;
        one_effect(Effect::Relaunch { id: self.terminal_id, always_focus })
    }

    /// Warns where a provider's hook is missing.
    pub fn check_hook_warning(&mut self, provider: ProviderKind, hooks: HookStatus, now_ms: u64)
        ensures
            final(self)@ == old(self)@.warned(provider, hooks, now_ms),
    {
        match provider {
            ProviderKind::Cursor => {
                if !hooks.cursor {
                    self.set_flash(
                        " Cursor session hook not installed. Run: agt install-hooks cursor".to_owned(),
                        true,
                        now_ms,
                    );
                }
            },
            ProviderKind::Claude => {
                if self.agents.claude.disable_plugin && !hooks.claude {
                    let word = self.names.claude.as_str();
                    let mut message = concat2(" ", capitalize(word).as_str());
                    message.append(" session hook not installed. Run: agt install-hooks --force ");
                    message.append(word);
                    self.set_flash(message, true, now_ms);
                }
            },
        }
    }

    fn start_tool(&mut self, provider: ProviderKind, cwd: &Option<String>) -> (r: Vec<Effect>)
        requires
            old(self)@.terminal_id < u64::MAX,
        ensures
            (final(self)@, effect_views(r@)) == old(self)@.starting(provider, text_opt(*cwd)),
    {
        let directory = match cwd {
            Some(d) => d.clone(),
            None => String::new(),
        };
        let info = make_info(&self.agents, provider, None, directory);
        self.terminal_id = self.terminal_id + 1;
        self.transcript_open = true;
        self.screen = AppScreen::Transcript;
        one_effect(Effect::Launch { info, id: self.terminal_id })
    }

    /// Starts a tool in a new session, in place of the one there is.
    pub fn do_new_session(
        &mut self,
        provider: ProviderKind,
        cwd: &Option<String>,
        hooks: HookStatus,
        now_ms: u64,
    ) -> (r: Vec<Effect>)
        requires
            old(self)@.terminal_id < u64::MAX,
        ensures
            (final(self)@, effect_views(r@)) == old(self)@.new_session(
                provider,
                text_opt(*cwd),
                hooks,
                now_ms,
            ),
    {
        self.check_hook_warning(provider, hooks, now_ms);
        let mut effects = one_effect(Effect::ClearTranscript);
        let more = self.start_tool(provider, cwd);
        append_effects(&mut effects, more);
        effects
    }

    /// Takes in whether a tool was started.
    pub fn on_launched(&mut self, info: SessionInfo, runs: bool) -> (r: Vec<Effect>)
        ensures
            (final(self)@, effect_views(r@)) == old(self)@.launched(info@, runs),
    {
        if runs {
            self.panel = PanelState::Live(info);
            self.activate_terminal()
        } else {
            no_effects()
        }
    }

    /// Takes in whether the panel's tool was started.
    pub fn on_relaunched(&mut self, runs: bool, always_focus: bool) -> (r: Vec<Effect>)
        ensures
            (final(self)@, effect_views(r@)) == old(self)@.relaunched(runs, always_focus),
    {
        if runs {
            let info = match self.panel.session_info() {
                Some(info) => Some(info.clone()),
                None => None,
            };
            if let Some(info) = info {
                self.panel = PanelState::Live(info);
            }
        }
        if runs || always_focus {
            self.activate_terminal()
        } else {
            no_effects()
        }
    }

    /// Takes in that a tool ended.
    pub fn apply_terminal_exited(&mut self, terminal_id: u64, code: Option<i32>) -> (r: Vec<Effect>)
        ensures
            (final(self)@, effect_views(r@)) == old(self)@.exited(terminal_id, code),
    {
        if terminal_id != self.terminal_id {
            return no_effects();
        }
        let live = match &self.panel {
            PanelState::Live(info) => Some(info.clone()),
            _ => None,
        };
        let effects = match live {
            Some(info) => {
                self.panel = PanelState::Exited { info, code };
                self.leave_terminal_mode();
                one_effect(Effect::RestoreCursor)
            },
            None => no_effects(),
        };
        if self.quit_intent {
            self.running = false;
        }
        effects
    }

    /// Takes in that the tool told of its session.
    pub fn apply_session_detected(
        &mut self,
        session_id: String,
        transcript_path: Option<String>,
        workspace_path: Option<String>,
    ) -> (r: Vec<Effect>)
        ensures
            (final(self)@, effect_views(r@)) == old(self)@.detected(
                session_id@,
                text_opt(transcript_path),
                text_opt(workspace_path),
            ),
    {
        let live = match &self.panel {
            PanelState::Live(info) => Some(info.clone()),
            _ => None,
        };
        let mut info = match live {
            Some(info) => info,
            None => {
                return no_effects();
            },
        };
        let provider = info.provider;
        info.session_id = Some(session_id.clone());
        if let Some(w) = &workspace_path {
            info.directory = w.clone();
        }
        self.panel = PanelState::Live(info);
        match transcript_path {
            Some(path) => self.load_session(provider, path, workspace_path),
            None => one_effect(
                Effect::FindTranscript { provider, session_id, workspace: workspace_path },
            ),
        }
    }

    /// Takes in where a transcript is that was looked for.
    pub fn on_transcript_found(
        &mut self,
        provider: ProviderKind,
        path: Option<String>,
        workspace: Option<String>,
    ) -> (r: Vec<Effect>)
        ensures
            (final(self)@, effect_views(r@)) == (match text_opt(path) {
                Some(p) => old(self)@.loading(provider, p, text_opt(workspace)),
                None => (old(self)@, Seq::empty()),
            }),
    {
        match path {
            Some(path) => self.load_session(provider, path, workspace),
            None => no_effects(),
        }
    }

    /// Takes messages away that have been shown for long enough.
    #[verifier::rlimit(50)]
    pub fn on_tick(&mut self, now_ms: u64)
        ensures
            final(self)@ == old(self)@.ticked(now_ms),
    {
        let ghost before = self@;
        let gone = match &self.flash {
            Some(f) => now_ms >= f.since_ms && now_ms - f.since_ms >= FLASH_MS,
            None => false,
        };
        if gone {
            self.flash = None;
        }
        proof {
            assert(self@.flash == before.ticked(now_ms).flash);
            assert(self@ == (AppModel { flash: self@.flash, ..before }));
        }
        match self.screen {
            AppScreen::Picker => {
                self.picker.tick_flash(now_ms);
            },
            AppScreen::Transcript => {},
        }
        proof {
            let expected = before.ticked(now_ms);
            assert(self@.flash == expected.flash);
            assert(self@.picker == expected.picker);
        }
    }

    /// Takes sessions in for the list, while it is shown.
    pub fn on_picker_entries(&mut self, entries: Vec<TranscriptEntry>)
        ensures
            final(self)@ == old(self)@.filled(entry_views(entries@)),
    {
        match self.screen {
            AppScreen::Picker => {
                self.picker.append_entries(entries);
            },
            AppScreen::Transcript => {},
        }
    }

    /// Takes in that all sessions of the list have come, while it is shown.
    pub fn on_picker_done(&mut self)
        ensures
            final(self)@ == old(self)@.filled_up(),
    {
        match self.screen {
            AppScreen::Picker => {
                self.picker.finish_loading();
            },
            AppScreen::Transcript => {},
        }
    }

    /// Shows that the reader failed.
    pub fn on_reader_error(&mut self, message: &str, now_ms: u64)
        ensures
            final(self)@ == old(self)@.reader_failed(message@, now_ms),
    {
        self.set_flash(concat2("reader error: ", message), true, now_ms);
    }

    /// Shows whether a text is in the clipboard.
    pub fn on_copied(&mut self, backend: ClipboardBackend, error: Option<String>, now_ms: u64)
        ensures
            final(self)@ == old(self)@.copied(backend, text_opt(error), now_ms),
    {
        match error {
            None => self.set_flash(
                concat3("Copied (", backend.display_name(), ")"),
                false,
                now_ms,
            ),
            Some(e) => self.set_flash(concat2("Copy failed: ", e.as_str()), true, now_ms),
        }
    }

    /// Shows whether a log is written.
    pub fn on_log_enabled(&mut self, error: Option<String>, now_ms: u64)
        ensures
            final(self)@ == old(self)@.logging(text_opt(error), now_ms),
    {
        match error {
            None => self.set_flash(
                "Writing logs to /tmp/agent-transcript.log".to_owned(),
                false,
                now_ms,
            ),
            Some(e) => self.set_flash(
                concat2("Failed to open log file: ", e.as_str()),
                true,
                now_ms,
            ),
        }
    }

    /// Whether the screen is left as it is: the tool is drawing, and its transcript is shown.
    pub fn skips_draw(&self, sync_locked: bool, render_suppressed: bool) -> (r: bool)
        ensures
            r == ((sync_locked || render_suppressed) && self@.screen == AppScreen::Transcript),
    {
        let transcript = match self.screen {
            AppScreen::Transcript => true,
            AppScreen::Picker => false,
        };
        (sync_locked || render_suppressed) && transcript
    }

    /// The session to name when the application ends: the one whose tool runs or ended.
    pub fn resume_info(&self) -> (r: Option<(ProviderKind, String)>)
        ensures
            match r {
                Some((provider, id)) => self@.resumable() == Some((provider, id@)),
                None => self@.resumable() is None,
            },
    {
        let info = match &self.panel {
            PanelState::Live(info) => info,
            PanelState::Exited { info, .. } => info,
            _ => {
                return None;
            },
        };
        match &info.session_id {
            Some(id) => Some((info.provider, id.clone())),
            None => None,
        }
    }

    /// The entry to tell of where the session's own cannot be read: what is known without it.
    pub fn known_entry(&self, now: Moment) -> (r: Option<TranscriptEntry>)
        ensures
            match r {
                Some(e) => self@.known(now) == Some(e@),
                None => self@.known(now) is None,
            },
    {
        let info = self.panel.session_info();
        let provider = match (&self.last_session, info) {
            (Some(l), _) => l.provider,
            (None, Some(i)) => i.provider,
            (None, None) => {
                return None;
            },
        };
        let path = match &self.last_session {
            Some(l) => l.path.clone(),
            None => String::new(),
        };
        let from_last = match &self.last_session {
            Some(l) => copy_text_opt(&l.workspace),
            None => None,
        };
        let workspace_path = match from_last {
            Some(w) => Some(w),
            None => match info {
                Some(i) => Some(i.directory.clone()),
                None => None,
            },
        };
        let id = match info {
            Some(i) => match &i.session_id {
                Some(id) => id.clone(),
                None => String::new(),
            },
            None => String::new(),
        };
        Some(
            TranscriptEntry {
                path,
                id,
                title: String::new(),
                mtime: now,
                updated_at: None,
                size: None,
                last_user_message: None,
                message_count: 0,
                workspace_path,
                provider,
            },
        )
    }

    // -----------------------------------------------------------------------
    // Starting
    // -----------------------------------------------------------------------

    /// Starts with the list of sessions.
    pub fn start_picker(&mut self) -> (r: Vec<Effect>)
        ensures
            (final(self)@, effect_views(r@)) == (
                AppModel { screen: AppScreen::Picker, ..old(self)@ },
                seq![EffectModel::StartRefresh(old(self)@.picker.cwd)],
            ),
    {
        self.screen = AppScreen::Picker;
        one_effect(Effect::StartRefresh(copy_text_opt(&self.picker.cwd)))
    }

    /// Starts with a session, whose transcript and workspace were looked for, and with its tool
    /// where `resume` holds.
    pub fn start_session(
        &mut self,
        provider: ProviderKind,
        id: &str,
        resume: bool,
        path: Option<String>,
        workspace: Option<String>,
        cwd: &Option<String>,
    ) -> (r: Result<Vec<Effect>, String>)
        requires
            old(self)@.terminal_id < u64::MAX,
        ensures
            match old(self)@.session_started(
                provider,
                id@,
                resume,
                text_opt(path),
                text_opt(workspace),
                text_opt(*cwd),
            ) {
                Err(e) => r is Err && r->Err_0@ == e && final(self)@ == old(self)@,
                Ok((next, effects)) => r is Ok && final(self)@ == next && effect_views(r->Ok_0@)
                    == effects,
            },
    {
        let path = match path {
            Some(p) => p,
            None => {
                let mut message = concat3(
                    "session not found: ",
                    provider.name(&self.names),
                    ":",
                );
                message.append(id);
                return Err(message);
            },
        };
        let directory = match &workspace {
            Some(w) => w.clone(),
            None => match cwd {
                Some(d) => d.clone(),
                None => String::new(),
            },
        };
        let info = make_info(&self.agents, provider, Some(id.to_owned()), directory);
        let mut effects = self.load_session(provider, path, workspace);
        self.transcript_open = true;
        if resume {
            self.terminal_id = self.terminal_id + 1;
            push_effect(&mut effects, Effect::Launch { info, id: self.terminal_id });
        } else {
            self.panel = PanelState::Uninitialized(info);
        }
        Ok(effects)
    }

    /// Starts with a tool in a new session.
    pub fn start_new_session(
        &mut self,
        provider: ProviderKind,
        around: &Surroundings,
    ) -> (r: Vec<Effect>)
        requires
            old(self)@.terminal_id < u64::MAX,
        ensures
            (final(self)@, effect_views(r@)) == old(self)@.warned(
                provider,
                around.hooks,
                around.now_ms,
            ).starting(provider, text_opt(around.cwd)),
    {
        self.check_hook_warning(provider, around.hooks, around.now_ms);
        self.start_tool(provider, &around.cwd)
    }
}

} // verus!
