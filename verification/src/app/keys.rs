//! What keys do.
use crate::app::effect::{
    append_effects, effect_views, no_effects, one_effect, Effect, EffectModel,
};
use crate::app::mode::{AppMode, AppScreen, ConfirmKind, ConfirmModel, ModeModel};
use crate::app::session::copy_text_opt;
use crate::app::state::{App, AppModel, Outcome, Surroundings};
use crate::clipboard::{markdown_parsed, markdown_to_plain, plain};
use crate::data_view::handler::{handle_key_event_dv, view_action, DataViewAction};
use crate::key::{Key, KeyCode};
use crate::picker::handler::{picker_key, PickerAction, PickerActionModel};
use crate::picker::state::PickerModel;
use crate::providers::ProviderKind;
use crate::text::trimmed_end;
use crate::tree::text_opt;
use vstd::prelude::*;
use vstd::string::*;

verus! {

broadcast use vstd::string::group_string_axioms;

/// What the transcript and the log tell about themselves when a key comes.
#[derive(Clone, Copy, Debug, PartialEq, Eq, Structural)]
pub struct TreeFacts {
    /// Whether the transcript waits for more keys of a sequence.
    pub pending: bool,
    /// Whether the selected message takes keys.
    pub interactive: bool,
    /// Whether the tool is selected.
    pub terminal_selected: bool,
    /// Whether a log is written.
    pub log_enabled: bool,
}

// ---------------------------------------------------------------------------
// The list of sessions
// ---------------------------------------------------------------------------

/// Going from the list to a session: asking first where a session must not be left without.
pub open spec fn choose_session(
    s: AppModel,
    kind: ConfirmModel,
    cwd: Option<Seq<char>>,
    around: Surroundings,
) -> Outcome {
    let (closed, first) = s.picker_closed();
    if s.panel.must_ask() {
        (AppModel { mode: ModeModel::Confirm(kind), ..closed }, first)
    } else {
        let (next, more) = go_on(closed, kind, cwd, around);
        (next, first + more)
    }
}

/// What a choice comes to, without asking.
pub open spec fn go_on(
    s: AppModel,
    kind: ConfirmModel,
    cwd: Option<Seq<char>>,
    around: Surroundings,
) -> Outcome {
    match kind {
        ConfirmModel::SessionSwitch(e) => s.switched(e, cwd),
        ConfirmModel::SessionSwitchAndResume(e) => {
            let (next, effects) = s.switched(e, cwd);
            let (last, more) = next.relaunching(true);
            (last, effects + more)
        },
        ConfirmModel::NewSession(p) => s.new_session(p, cwd, around.hooks, around.now_ms),
        _ => (s, Seq::empty()),
    }
}

/// What a key does in the list of sessions.
pub open spec fn picker_screen_key(s: AppModel, key: Key, around: Surroundings) -> Outcome {
    let (picker, action) = picker_key(s.picker, key, around.now_ms);
    let next = AppModel { picker, ..s };
    let cwd = text_opt(around.cwd);
    match action {
        PickerActionModel::Nothing => (next, Seq::empty()),
        PickerActionModel::ToggleShowAll => (
            AppModel { picker: picker.toggled(), ..next },
            if picker.show_all {
                Seq::empty()
            } else {
                seq![EffectModel::StartRefresh(None)]
            },
        ),
        PickerActionModel::Quit => if s.transcript_open {
            next.picker_closed()
        } else {
            (AppModel { running: false, ..next }, Seq::empty())
        },
        PickerActionModel::Select(e) => choose_session(
            next,
            ConfirmModel::SessionSwitch(e),
            cwd,
            around,
        ),
        PickerActionModel::OpenAndResume(e) => choose_session(
            next,
            ConfirmModel::SessionSwitchAndResume(e),
            cwd,
            around,
        ),
        PickerActionModel::NewSession(p) => choose_session(
            next,
            ConfirmModel::NewSession(p),
            cwd,
            around,
        ),
    }
}

// ---------------------------------------------------------------------------
// Questions
// ---------------------------------------------------------------------------

/// Killing the tool, where it runs.
pub open spec fn kill_if_live(s: AppModel) -> Seq<EffectModel> {
    if s.panel is Live {
        seq![EffectModel::KillTerminal]
    } else {
        Seq::empty()
    }
}

/// What a yes comes to.
pub open spec fn confirmed(s: AppModel, kind: ConfirmModel, around: Surroundings) -> Outcome {
    let cwd = text_opt(around.cwd);
    match kind {
        ConfirmModel::Kill => (s, kill_if_live(s)),
        ConfirmModel::ReaderRestart => match s.last_session {
            Some(l) => s.loading(l.provider, l.path, l.workspace),
            None => (s, Seq::empty()),
        },
        ConfirmModel::DebugLog => (s, seq![EffectModel::EnableLog]),
        _ => {
            let (next, more) = go_on(s, kind, cwd, around);
            (next, kill_if_live(s) + more)
        },
    }
}

/// What a key does while the user is asked: yes, no, or nothing.
pub open spec fn confirm_key(s: AppModel, kind: ConfirmModel, key: Key, around: Surroundings) -> Outcome {
    let normal = AppModel { mode: ModeModel::Normal, ..s };
    if key.types('y') || key.types('Y') || key.code == KeyCode::Enter {
        confirmed(normal, kind, around)
    } else if key.types('n') || key.code == KeyCode::Esc {
        (normal, Seq::empty())
    } else {
        (s, Seq::empty())
    }
}

// ---------------------------------------------------------------------------
// The transcript
// ---------------------------------------------------------------------------

/// What a key does while the view is open.
pub open spec fn data_view_key(s: AppModel, key: Key) -> Outcome {
    match view_action(key) {
        DataViewAction::Close => (AppModel { data_view_open: false, ..s }, Seq::empty()),
        DataViewAction::ToggleDisplay => (s, seq![EffectModel::ToggleDisplay]),
        DataViewAction::Tree => (s, seq![EffectModel::ViewKey]),
        DataViewAction::Nothing => (s, Seq::empty()),
    }
}

/// What a key does while keys go to the tool: Ctrl-O takes them back.
pub open spec fn terminal_key(s: AppModel, key: Key) -> Outcome {
    if key.press && key.types_ctrl('o') {
        (
            AppModel { mode: ModeModel::Normal, quit_intent: false, ..s },
            seq![EffectModel::RestoreCursor],
        )
    } else if s.panel is Live {
        (s, seq![EffectModel::SendKey])
    } else {
        (s, Seq::empty())
    }
}

/// What the second key of a sequence does.
pub open spec fn second_key(s: AppModel, key: Key, facts: TreeFacts, now_ms: u64) -> Outcome {
    let next = AppModel { pending_app_key: None, ..s };
    if !key.press {
        (next, Seq::empty())
    } else if key.types('l') && !key.ctrl {
        (AppModel { data_view_open: true, ..next }, seq![EffectModel::OpenLogs])
    } else if key.types('L') {
        if facts.log_enabled {
            (
                next.flashing(
                    "Already writing logs to /tmp/agent-transcript.log"@,
                    false,
                    now_ms,
                ),
                Seq::empty(),
            )
        } else {
            (AppModel { mode: ModeModel::Confirm(ConfirmModel::DebugLog), ..next }, Seq::empty())
        }
    } else if key.types('s') && !key.ctrl {
        (AppModel { status_bar_debug: !s.status_bar_debug, ..next }, Seq::empty())
    } else if key.types('r') && !key.ctrl && s.last_session is Some {
        (AppModel { mode: ModeModel::Confirm(ConfirmModel::ReaderRestart), ..next }, Seq::empty())
    } else {
        (next, Seq::empty())
    }
}

/// What a press does in the transcript.
pub open spec fn normal_press(s: AppModel, key: Key) -> Outcome {
    if key.types_ctrl('x') {
        (
            AppModel {
                picker: PickerModel { is_loading: true, ..s.picker },
                screen: AppScreen::Picker,
                ..s
            },
            seq![EffectModel::StartRefresh(s.picker.cwd)],
        )
    } else if key.types_ctrl('y') {
        s.relaunching(false)
    } else if key.types_ctrl('m') {
        if s.panel is Live {
            (s, seq![EffectModel::SendBytes(seq![0x0fu8])])
        } else {
            (s, Seq::empty())
        }
    } else if (key.code == KeyCode::Esc || key.types_ctrl('o')) && s.panel is Live {
        s.activated()
    } else if key.types('r') {
        (AppModel { data_view_open: true, ..s }, seq![EffectModel::OpenRaw])
    } else if key.types('I') {
        (s, seq![EffectModel::OpenInfo])
    } else if key.types('?') {
        (AppModel { data_view_open: true, ..s }, seq![EffectModel::OpenShortcuts])
    } else if key.types('!') {
        (AppModel { pending_app_key: Some('!'), ..s }, Seq::empty())
    } else if key.types_ctrl('k') {
        if s.panel is Live {
            (AppModel { mode: ModeModel::Confirm(ConfirmModel::Kill), ..s }, Seq::empty())
        } else {
            (s, Seq::empty())
        }
    } else {
        (s, seq![EffectModel::TreeKey])
    }
}

/// What a key does in the transcript. Sequences come first: the transcript's own, and those that
/// begin with an exclamation mark.
pub open spec fn normal_key(s: AppModel, key: Key, facts: TreeFacts, now_ms: u64) -> Outcome {
    if facts.pending {
        (s, seq![EffectModel::TreeKey])
    } else if s.pending_app_key == Some('!') {
        second_key(s, key, facts, now_ms)
    } else if key.press {
        normal_press(s, key)
    } else {
        (s, seq![EffectModel::TreeKey])
    }
}

/// What a key does on the screen of the transcript: a question comes before the view, the view
/// before the selected message, and that before the tool.
pub open spec fn transcript_screen_key(
    s: AppModel,
    key: Key,
    facts: TreeFacts,
    around: Surroundings,
) -> Outcome {
    match s.mode {
        ModeModel::Confirm(kind) => confirm_key(s, kind, key, around),
        _ => if s.data_view_open {
            data_view_key(s, key)
        } else if s.mode is MessageInteraction {
            if facts.interactive {
                (s, seq![EffectModel::MessageKey])
            } else {
                (s, Seq::empty())
            }
        } else if s.mode is Terminal {
            terminal_key(s, key)
        } else {
            normal_key(s, key, facts, around.now_ms)
        },
    }
}

/// What a key does.
pub open spec fn app_key(s: AppModel, key: Key, facts: TreeFacts, around: Surroundings) -> Outcome {
    match s.screen {
        AppScreen::Picker => picker_screen_key(s, key, around),
        AppScreen::Transcript => transcript_screen_key(s, key, facts, around),
    }
}

impl App {
    fn carry_out(&mut self, kind: ConfirmKind, around: &Surroundings) -> (r: Vec<Effect>)
        requires
            old(self)@.terminal_id < u64::MAX,
        ensures
            (final(self)@, effect_views(r@)) == go_on(
                old(self)@,
                kind@,
                text_opt(around.cwd),
                *around,
            ),
    {
        match kind {
            ConfirmKind::SessionSwitch(entry) => self.do_session_switch(entry, &around.cwd),
            ConfirmKind::SessionSwitchAndResume(entry) => {
                let mut effects = self.do_session_switch(entry, &around.cwd);
                let more = self.try_launch_deferred_terminal(true);
                append_effects(&mut effects, more);
                effects
            },
            ConfirmKind::NewSession(provider) => self.do_new_session(
                provider,
                &around.cwd,
                around.hooks,
                around.now_ms,
            ),
            _ => no_effects(),
        }
    }

    fn take_choice(&mut self, kind: ConfirmKind, around: &Surroundings) -> (r: Vec<Effect>)
        requires
            old(self)@.terminal_id < u64::MAX,
        ensures
            (final(self)@, effect_views(r@)) == choose_session(
                old(self)@,
                kind@,
                text_opt(around.cwd),
                *around,
            ),
    {
        let asks = self.panel.asks();
        let mut effects = self.close_picker();
        if asks {
            self.mode = AppMode::Confirm(kind);
        } else {
            let more = self.carry_out(kind, around);
            append_effects(&mut effects, more);
        }
        effects
    }

    /// Does what a key asks for in the list of sessions.
    pub fn handle_picker_screen_key(&mut self, key: Key, around: &Surroundings) -> (r: Vec<Effect>)
        requires
            old(self)@.terminal_id < u64::MAX,
            old(self)@.picker.offset <= usize::MAX - 10_922,
        ensures
            (final(self)@, effect_views(r@)) == picker_screen_key(old(self)@, key, *around),
    {
        let action = self.picker.handle_key(key, around.now_ms);
        match action {
            PickerAction::Nothing => no_effects(),
            PickerAction::ToggleShowAll => {
                let needs_reload = self.picker.toggle_show_all();
                if needs_reload {
                    one_effect(Effect::StartRefresh(None))
                } else {
                    no_effects()
                }
            },
            PickerAction::Quit => {
                if self.transcript_open {
                    self.close_picker()
                } else {
                    self.running = false;
                    no_effects()
                }
            },
            PickerAction::Select(entry) => self.take_choice(ConfirmKind::SessionSwitch(entry), around),
            PickerAction::OpenAndResume(entry) => self.take_choice(
                ConfirmKind::SessionSwitchAndResume(entry),
                around,
            ),
            PickerAction::NewSession(provider) => self.take_choice(
                ConfirmKind::NewSession(provider),
                around,
            ),
        }
    }

    fn kill_effects(&self) -> (r: Vec<Effect>)
        ensures
            effect_views(r@) == kill_if_live(self@),
    {
        if self.panel.is_live() {
            one_effect(Effect::KillTerminal)
        } else {
            no_effects()
        }
    }

    fn confirm(&mut self, kind: ConfirmKind, around: &Surroundings) -> (r: Vec<Effect>)
        requires
            old(self)@.terminal_id < u64::MAX,
        ensures
            (final(self)@, effect_views(r@)) == confirmed(old(self)@, kind@, *around),
    {
        match kind {
            ConfirmKind::Kill => self.kill_effects(),
            ConfirmKind::ReaderRestart => {
                let last = match &self.last_session {
                    Some(l) => Some((l.provider, l.path.clone(), copy_text_opt(&l.workspace))),
                    None => None,
                };
                match last {
                    Some((provider, path, workspace)) => self.load_session(
                        provider,
                        path,
                        workspace,
                    ),
                    None => no_effects(),
                }
            },
            ConfirmKind::DebugLog => one_effect(Effect::EnableLog),
            _ => {
                let mut effects = self.kill_effects();
                let more = self.carry_out(kind, around);
                append_effects(&mut effects, more);
                effects
            },
        }
    }

    /// Does what a key asks for while the user is asked.
    pub fn handle_confirm_key(&mut self, key: Key, around: &Surroundings) -> (r: Vec<Effect>)
        requires
            old(self)@.terminal_id < u64::MAX,
            old(self)@.mode is Confirm,
        ensures
            (final(self)@, effect_views(r@)) == confirm_key(
                old(self)@,
                old(self)@.mode->Confirm_0,
                key,
                *around,
            ),
    {
        let enter = match key.code {
            KeyCode::Enter => true,
            _ => false,
        };
        let escape = match key.code {
            KeyCode::Esc => true,
            _ => false,
        };
        if key.is_char('y') || key.is_char('Y') || enter {
            let mut mode = AppMode::Normal;
            std::mem::swap(&mut mode, &mut self.mode);
            match mode {
                AppMode::Confirm(kind) => self.confirm(kind, around),
                _ => no_effects(),
            }
        } else if key.is_char('n') || escape {
            self.mode = AppMode::Normal;
            no_effects()
        } else {
            no_effects()
        }
    }

    /// Does what a key asks for while the view is open.
    pub fn handle_data_view_key(&mut self, key: Key) -> (r: Vec<Effect>)
        ensures
            (final(self)@, effect_views(r@)) == data_view_key(old(self)@, key),
    {
        match handle_key_event_dv(key) {
            DataViewAction::Close => {
                self.data_view_open = false;
                no_effects()
            },
            DataViewAction::ToggleDisplay => one_effect(Effect::ToggleDisplay),
            DataViewAction::Tree => one_effect(Effect::ViewKey),
            DataViewAction::Nothing => no_effects(),
        }
    }

    /// Does what a key asks for while keys go to the tool.
    pub fn handle_terminal_key(&mut self, key: Key) -> (r: Vec<Effect>)
        ensures
            (final(self)@, effect_views(r@)) == terminal_key(old(self)@, key),
    {
        if key.press && key.is_ctrl('o') {
            self.mode = AppMode::Normal;
            self.quit_intent = false;
            one_effect(Effect::RestoreCursor)
        } else if self.panel.is_live() {
            one_effect(Effect::SendKey)
        } else {
            no_effects()
        }
    }

    fn handle_second_key(&mut self, key: Key, facts: TreeFacts, now_ms: u64) -> (r: Vec<Effect>)
        ensures
            (final(self)@, effect_views(r@)) == second_key(old(self)@, key, facts, now_ms),
    {
        self.pending_app_key = None;
        if !key.press {
            return no_effects();
        }
        if key.is_char('l') && !key.ctrl {
            self.data_view_open = true;
            one_effect(Effect::OpenLogs)
        } else if key.is_char('L') {
            if facts.log_enabled {
                self.set_flash(
                    "Already writing logs to /tmp/agent-transcript.log".to_owned(),
                    false,
                    now_ms,
                );
            } else {
                self.mode = AppMode::Confirm(ConfirmKind::DebugLog);
            }
            no_effects()
        } else if key.is_char('s') && !key.ctrl {
            self.status_bar_debug = !self.status_bar_debug;
            no_effects()
        } else if key.is_char('r') && !key.ctrl && self.last_session.is_some() {
            self.mode = AppMode::Confirm(ConfirmKind::ReaderRestart);
            no_effects()
        } else {
            no_effects()
        }
    }

    fn handle_normal_press(&mut self, key: Key) -> (r: Vec<Effect>)
        requires
            old(self)@.terminal_id < u64::MAX,
        ensures
            (final(self)@, effect_views(r@)) == normal_press(old(self)@, key),
    {
        let escape = match key.code {
            KeyCode::Esc => true,
            _ => false,
        };
        let live = self.panel.is_live();
        if key.is_ctrl('x') {
            let cwd = copy_text_opt(&self.picker.cwd);
            self.picker.restart_loading();
            self.screen = AppScreen::Picker;
            one_effect(Effect::StartRefresh(cwd))
        } else if key.is_ctrl('y') {
            self.try_launch_deferred_terminal(false)
        } else if key.is_ctrl('m') {
            if live {
                let mut bytes: Vec<u8> = Vec::new();
                bytes.push(0x0f);
                assert(bytes@ =~= seq![0x0fu8]);
                one_effect(Effect::SendBytes(bytes))
            } else {
                no_effects()
            }
        } else if (escape || key.is_ctrl('o')) && live {
            self.activate_terminal()
        } else if key.is_char('r') {
            self.data_view_open = true;
            one_effect(Effect::OpenRaw)
        } else if key.is_char('I') {
            one_effect(Effect::OpenInfo)
        } else if key.is_char('?') {
            self.data_view_open = true;
            one_effect(Effect::OpenShortcuts)
        } else if key.is_char('!') {
            self.pending_app_key = Some('!');
            no_effects()
        } else if key.is_ctrl('k') {
            if live {
                self.mode = AppMode::Confirm(ConfirmKind::Kill);
            }
            no_effects()
        } else {
            one_effect(Effect::TreeKey)
        }
    }

    /// Does what a key asks for in the transcript.
    pub fn handle_normal_key(&mut self, key: Key, facts: TreeFacts, now_ms: u64) -> (r: Vec<Effect>)
        requires
            old(self)@.terminal_id < u64::MAX,
        ensures
            (final(self)@, effect_views(r@)) == normal_key(old(self)@, key, facts, now_ms),
    {
        if facts.pending {
            return one_effect(Effect::TreeKey);
        }
        let second = match self.pending_app_key {
            Some(c) => c == '!',
            None => false,
        };
        if second {
            self.handle_second_key(key, facts, now_ms)
        } else if key.press {
            self.handle_normal_press(key)
        } else {
            one_effect(Effect::TreeKey)
        }
    }

    /// Does what a key asks for on the screen of the transcript.
    pub fn handle_transcript_screen_key(
        &mut self,
        key: Key,
        facts: TreeFacts,
        around: &Surroundings,
    ) -> (r: Vec<Effect>)
        requires
            old(self)@.terminal_id < u64::MAX,
        ensures
            (final(self)@, effect_views(r@)) == transcript_screen_key(
                old(self)@,
                key,
                facts,
                *around,
            ),
    {
        let asked = match &self.mode {
            AppMode::Confirm(_) => true,
            _ => false,
        };
        let message = match &self.mode {
            AppMode::MessageInteraction => true,
            _ => false,
        };
        let terminal = match &self.mode {
            AppMode::Terminal => true,
            _ => false,
        };
        if asked {
            self.handle_confirm_key(key, around)
        } else if self.data_view_open {
            self.handle_data_view_key(key)
        } else if message {
            if facts.interactive {
                one_effect(Effect::MessageKey)
            } else {
                no_effects()
            }
        } else if terminal {
            self.handle_terminal_key(key)
        } else {
            self.handle_normal_key(key, facts, around.now_ms)
        }
    }

    /// Does what a key asks for.
    pub fn handle_key(&mut self, key: Key, facts: TreeFacts, around: &Surroundings) -> (r: Vec<Effect>)
        requires
            old(self)@.terminal_id < u64::MAX,
            old(self)@.picker.offset <= usize::MAX - 10_922,
        ensures
            (final(self)@, effect_views(r@)) == app_key(old(self)@, key, facts, *around),
    {
        match self.screen {
            AppScreen::Picker => self.handle_picker_screen_key(key, around),
            AppScreen::Transcript => self.handle_transcript_screen_key(key, facts, around),
        }
    }
}

// ---------------------------------------------------------------------------
// What the transcript asks for
// ---------------------------------------------------------------------------

/// What a key asks the transcript for.
#[derive(Clone, Copy, Debug, PartialEq, Eq, Structural)]
pub enum TreeAction {
    Quit,
    /// Show more or less of the selected node.
    CycleDisplay,
    ToggleExpand,
    TerminalActivate,
    CopyMarkdown,
    CopyPlainText,
    CopyRawData,
    /// What concerns the transcript alone.
    Other,
}

/// What comes of a key that the selected message took: it may give the keys back, leave the key to
/// the transcript, or hand out a text to copy.
pub open spec fn message_key(s: AppModel, result: MessageResult) -> (AppModel, Seq<EffectModel>) {
    match result {
        MessageResult::Exit => (
            AppModel { mode: ModeModel::Normal, ..s },
            seq![EffectModel::HoldSelection],
        ),
        MessageResult::Passthrough => (s, seq![EffectModel::TreeApply]),
        MessageResult::Copy(text) => (s, seq![EffectModel::Copy(text@)]),
        MessageResult::Done => (s, Seq::empty()),
    }
}

/// What the keys that copy ask for, and whether a second one is awaited: `Y` and `yy` copy the
/// markdown, `yt` the plain text and `yr` the raw data; another second key asks for nothing.
pub open spec fn copy_request(waiting: bool, code: KeyCode) -> (bool, Option<TreeAction>) {
    (
        !waiting && code == KeyCode::Char('y'),
        if waiting {
            match code {
                KeyCode::Char('y') => Some(TreeAction::CopyMarkdown),
                KeyCode::Char('t') => Some(TreeAction::CopyPlainText),
                KeyCode::Char('r') => Some(TreeAction::CopyRawData),
                _ => None,
            }
        } else if code == KeyCode::Char('Y') {
            Some(TreeAction::CopyMarkdown)
        } else {
            None
        },
    )
}

/// What the keys that copy ask for, and whether a second one is awaited.
pub fn copy_key(waiting: bool, code: KeyCode) -> (r: (bool, Option<TreeAction>))
    ensures
        r == copy_request(waiting, code),
{
    if waiting {
        let action = match code {
            KeyCode::Char('y') => Some(TreeAction::CopyMarkdown),
            KeyCode::Char('t') => Some(TreeAction::CopyPlainText),
            KeyCode::Char('r') => Some(TreeAction::CopyRawData),
            _ => None,
        };
        (false, action)
    } else {
        match code {
            KeyCode::Char('y') => (true, None),
            KeyCode::Char('Y') => (false, Some(TreeAction::CopyMarkdown)),
            _ => (false, None),
        }
    }
}

/// The hint on how to end the tool.
pub open spec fn quit_hint(s: AppModel) -> Seq<char> {
    match s.panel.info() {
        Some(info) => if info.provider == ProviderKind::Cursor {
            " Ctrl-D to exit"@
        } else {
            " Ctrl-D twice to exit"@
        },
        None => " Ctrl-D twice to exit"@,
    }
}

/// What the transcript's requests do. While the tool runs, the application ends with it and not
/// before.
pub open spec fn tree_action(
    s: AppModel,
    action: TreeAction,
    facts: TreeFacts,
    text: Seq<char>,
    data: Seq<char>,
    now_ms: u64,
) -> Outcome {
    match action {
        TreeAction::Quit => if s.panel is Live {
            let (next, effects) = AppModel { quit_intent: true, ..s }.activated();
            (next.flashing(quit_hint(s), false, now_ms), effects)
        } else {
            (AppModel { running: false, ..s }, Seq::empty())
        },
        TreeAction::CycleDisplay => if facts.terminal_selected {
            (AppModel { expanded: !s.expanded, ..s }, seq![EffectModel::SyncTerminal])
        } else {
            (s, seq![EffectModel::TreeApply])
        },
        TreeAction::ToggleExpand => if facts.interactive {
            (
                AppModel { mode: ModeModel::MessageInteraction, ..s },
                seq![EffectModel::FocusMessage],
            )
        } else if facts.terminal_selected {
            if s.panel is Live {
                s.activated()
            } else {
                (s, Seq::empty())
            }
        } else {
            (s, seq![EffectModel::TreeApply])
        },
        TreeAction::TerminalActivate => if s.panel is Live {
            s.activated()
        } else {
            (s, Seq::empty())
        },
        TreeAction::CopyMarkdown => (s, seq![EffectModel::Copy(text)]),
        TreeAction::CopyPlainText => (
            s,
            seq![EffectModel::Copy(trimmed_end(plain(markdown_parsed(text))))],
        ),
        TreeAction::CopyRawData => (s, seq![EffectModel::Copy(data)]),
        TreeAction::Other => (s, seq![EffectModel::TreeApply]),
    }
}

/// What the view's requests do: only texts to copy go beyond it.
pub open spec fn view_tree_action(action: TreeAction, text: Seq<char>, data: Seq<char>) -> Seq<
    EffectModel,
> {
    match action {
        TreeAction::CopyMarkdown => seq![EffectModel::Copy(text)],
        TreeAction::CopyPlainText => seq![
            EffectModel::Copy(trimmed_end(plain(markdown_parsed(text)))),
        ],
        TreeAction::CopyRawData => seq![EffectModel::Copy(data)],
        _ => seq![EffectModel::TreeApply],
    }
}

/// What the view's requests do.
pub fn apply_view_action(action: TreeAction, text: &str, data: &str) -> (r: Vec<Effect>)
    ensures
        effect_views(r@) == view_tree_action(action, text@, data@),
{
    match action {
        TreeAction::CopyMarkdown => one_effect(Effect::Copy(text.to_owned())),
        TreeAction::CopyPlainText => one_effect(Effect::Copy(markdown_to_plain(text))),
        TreeAction::CopyRawData => one_effect(Effect::Copy(data.to_owned())),
        _ => one_effect(Effect::TreeApply),
    }
}

/// What the selected message made of a key.
#[derive(Debug, PartialEq)]
pub enum MessageResult {
    /// It takes no more keys.
    Exit,
    /// The key is not for it.
    Passthrough,
    /// A text is to be copied.
    Copy(String),
    /// It did what the key asked for.
    Done,
}

impl App {
    fn activate_if_live(&mut self) -> (r: Vec<Effect>)
        ensures
            (final(self)@, effect_views(r@)) == (if old(self)@.panel is Live {
                old(self)@.activated()
            } else {
                (old(self)@, Seq::empty())
            }),
    {
        if self.panel.is_live() {
            self.activate_terminal()
        } else {
            no_effects()
        }
    }

    /// Does what the transcript asks for. `text` and `data` are those of the selected node.
    pub fn apply_tree_action(
        &mut self,
        action: TreeAction,
        facts: TreeFacts,
        text: &str,
        data: &str,
        now_ms: u64,
    ) -> (r: Vec<Effect>)
        ensures
            (final(self)@, effect_views(r@)) == tree_action(
                old(self)@,
                action,
                facts,
                text@,
                data@,
                now_ms,
            ),
    {
        match action {
            TreeAction::Quit => {
                if self.panel.is_live() {
                    self.quit_intent = true;
                    let effects = self.activate_terminal();
                    let cursor = match self.panel.session_info() {
                        Some(info) => info.provider == ProviderKind::Cursor,
                        None => false,
                    };
                    let hint = if cursor {
                        " Ctrl-D to exit"
                    } else {
                        " Ctrl-D twice to exit"
                    };
                    self.set_flash(hint.to_owned(), false, now_ms);
                    effects
                } else {
                    self.running = false;
                    no_effects()
                }
            },
            TreeAction::CycleDisplay => {
                if facts.terminal_selected {
                    self.expanded = !self.expanded;
                    one_effect(Effect::SyncTerminal)
                } else {
                    one_effect(Effect::TreeApply)
                }
            },
            TreeAction::ToggleExpand => {
                if facts.interactive {
                    self.mode = AppMode::MessageInteraction;
                    one_effect(Effect::FocusMessage)
                } else if facts.terminal_selected {
                    self.activate_if_live()
                } else {
                    one_effect(Effect::TreeApply)
                }
            },
            TreeAction::TerminalActivate => self.activate_if_live(),
            TreeAction::CopyMarkdown => one_effect(Effect::Copy(text.to_owned())),
            TreeAction::CopyPlainText => one_effect(Effect::Copy(markdown_to_plain(text))),
            TreeAction::CopyRawData => one_effect(Effect::Copy(data.to_owned())),
            TreeAction::Other => one_effect(Effect::TreeApply),
        }
    }

    /// Takes in what the selected message made of a key.
    pub fn handle_message_interaction_key(&mut self, result: MessageResult) -> (r: Vec<Effect>)
        ensures
            (final(self)@, effect_views(r@)) == message_key(old(self)@, result),
    {
        match result {
            MessageResult::Exit => {
                self.mode = AppMode::Normal;
                one_effect(Effect::HoldSelection)
            },
            MessageResult::Passthrough => one_effect(Effect::TreeApply),
            MessageResult::Copy(text) => one_effect(Effect::Copy(text)),
            MessageResult::Done => no_effects(),
        }
    }
}

} // verus!
