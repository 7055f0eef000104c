//! Where the application stands.
use crate::providers::{EntryModel, ProviderKind, TranscriptEntry};
use vstd::prelude::*;
use vstd::string::*;

verus! {

broadcast use vstd::string::group_string_axioms;

/// Which screen is shown.
#[derive(Clone, Copy, Debug, PartialEq, Eq, Structural)]
pub enum AppScreen {
    Picker,
    Transcript,
}

/// How the application was started.
#[derive(Debug, PartialEq)]
pub enum StartMode {
    /// Without arguments: the list of sessions comes first.
    Picker,
    /// With a session: it is opened, and its tool started in it where `resume` holds.
    Session { provider: ProviderKind, id: String, resume: bool },
    /// With a provider: its tool is started in a new session.
    NewSession { provider: ProviderKind },
}

/// What a `StartMode` holds.
pub enum StartModel {
    Picker,
    Session { provider: ProviderKind, id: Seq<char>, resume: bool },
    NewSession { provider: ProviderKind },
}

impl View for StartMode {
    type V = StartModel;

    open spec fn view(&self) -> StartModel {
        match *self {
            StartMode::Picker => StartModel::Picker,
            StartMode::Session { provider, id, resume } => StartModel::Session {
                provider,
                id: id@,
                resume,
            },
            StartMode::NewSession { provider } => StartModel::NewSession { provider },
        }
    }
}

/// What the user is asked.
#[derive(Debug, PartialEq)]
pub enum ConfirmKind {
    /// Whether to kill the tool.
    Kill,
    /// Whether to go to another session while the tool runs.
    SessionSwitch(TranscriptEntry),
    /// Whether to go to another session and start its tool, while the tool runs.
    SessionSwitchAndResume(TranscriptEntry),
    /// Whether to start a new session while the tool runs.
    NewSession(ProviderKind),
    /// Whether to read the session anew.
    ReaderRestart,
    /// Whether to write a log.
    DebugLog,
}

/// What a `ConfirmKind` holds.
pub enum ConfirmModel {
    Kill,
    SessionSwitch(EntryModel),
    SessionSwitchAndResume(EntryModel),
    NewSession(ProviderKind),
    ReaderRestart,
    DebugLog,
}

impl View for ConfirmKind {
    type V = ConfirmModel;

    open spec fn view(&self) -> ConfirmModel {
        match *self {
            ConfirmKind::Kill => ConfirmModel::Kill,
            ConfirmKind::SessionSwitch(e) => ConfirmModel::SessionSwitch(e@),
            ConfirmKind::SessionSwitchAndResume(e) => ConfirmModel::SessionSwitchAndResume(e@),
            ConfirmKind::NewSession(p) => ConfirmModel::NewSession(p),
            ConfirmKind::ReaderRestart => ConfirmModel::ReaderRestart,
            ConfirmKind::DebugLog => ConfirmModel::DebugLog,
        }
    }
}

/// What keys are for.
#[derive(Debug, PartialEq)]
pub enum AppMode {
    /// Going about in the transcript.
    Normal,
    /// The tool.
    Terminal,
    /// The selected message.
    MessageInteraction,
    /// What to look for.
    SearchInput { query: String, backward: bool },
    /// An answer.
    Confirm(ConfirmKind),
}

/// What an `AppMode` holds.
pub enum ModeModel {
    Normal,
    Terminal,
    MessageInteraction,
    SearchInput { query: Seq<char>, backward: bool },
    Confirm(ConfirmModel),
}

impl View for AppMode {
    type V = ModeModel;

    open spec fn view(&self) -> ModeModel {
        match *self {
            AppMode::Normal => ModeModel::Normal,
            AppMode::Terminal => ModeModel::Terminal,
            AppMode::MessageInteraction => ModeModel::MessageInteraction,
            AppMode::SearchInput { query, backward } => ModeModel::SearchInput {
                query: query@,
                backward,
            },
            AppMode::Confirm(kind) => ModeModel::Confirm(kind@),
        }
    }
}

} // verus!
