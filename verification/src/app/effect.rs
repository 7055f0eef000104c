//! What is to be done outside, in order.
use crate::app::session::{InfoModel, SessionInfo};
use crate::providers::ProviderKind;
use crate::tree::text_opt;
use vstd::prelude::*;
use vstd::string::*;

verus! {

broadcast use vstd::string::group_string_axioms;

/// One thing to be done outside.
#[derive(Debug, PartialEq)]
pub enum Effect {
    /// Read the list of sessions: those of a directory, or all.
    StartRefresh(Option<String>),
    /// Stop reading the list of sessions.
    AbortRefresh,
    /// Stop the reader, empty the transcript and the log, and start a reader.
    LoadSession { provider: ProviderKind, path: String, workspace: Option<String> },
    /// Stop the reader and empty the transcript.
    ClearTranscript,
    /// Kill the tool.
    KillTerminal,
    /// Start a tool, and tell whether it runs.
    Launch { info: SessionInfo, id: u64 },
    /// Start the panel's tool, and tell whether it runs.
    Relaunch { id: u64, always_focus: bool },
    /// Forget keys of a sequence that is not complete, select the tool, and give it its cursor.
    FocusTerminal,
    /// Give the cursor its usual shape.
    RestoreCursor,
    /// Hand the key to the tool.
    SendKey,
    /// Write bytes to the tool.
    SendBytes(Vec<u8>),
    /// Hand the key to the transcript, and do what it asks for.
    TreeKey,
    /// Let the transcript do what was asked for.
    TreeApply,
    /// Hand the key to the selected message, and tell what it made of it.
    MessageKey,
    /// Hold the selection in place.
    HoldSelection,
    /// Hand the keys to the selected message from now on.
    FocusMessage,
    /// Lay the tool's rows out anew.
    SyncTerminal,
    /// Open the view of the selected message.
    OpenRaw,
    /// Open the view of the session.
    OpenInfo,
    /// Open the view of the keys.
    OpenShortcuts,
    /// Open the view of the log.
    OpenLogs,
    /// Hand the key to the view.
    ViewKey,
    /// Show more or less of the view's selected node.
    ToggleDisplay,
    /// Start writing a log, and tell whether it is written.
    EnableLog,
    /// Put a text into the clipboard, and tell whether it is there.
    Copy(String),
    /// Look for a session's transcript, and tell where it is.
    FindTranscript { provider: ProviderKind, session_id: String, workspace: Option<String> },
}

/// What an `Effect` holds.
pub enum EffectModel {
    StartRefresh(Option<Seq<char>>),
    AbortRefresh,
    LoadSession { provider: ProviderKind, path: Seq<char>, workspace: Option<Seq<char>> },
    ClearTranscript,
    KillTerminal,
    Launch { info: InfoModel, id: u64 },
    Relaunch { id: u64, always_focus: bool },
    FocusTerminal,
    RestoreCursor,
    SendKey,
    SendBytes(Seq<u8>),
    TreeKey,
    TreeApply,
    MessageKey,
    HoldSelection,
    FocusMessage,
    SyncTerminal,
    OpenRaw,
    OpenInfo,
    OpenShortcuts,
    OpenLogs,
    ViewKey,
    ToggleDisplay,
    EnableLog,
    Copy(Seq<char>),
    FindTranscript { provider: ProviderKind, session_id: Seq<char>, workspace: Option<Seq<char>> },
}

impl View for Effect {
    type V = EffectModel;

    open spec fn view(&self) -> EffectModel {
        match *self {
            Effect::StartRefresh(cwd) => EffectModel::StartRefresh(text_opt(cwd)),
            Effect::AbortRefresh => EffectModel::AbortRefresh,
            Effect::LoadSession { provider, path, workspace } => EffectModel::LoadSession {
                provider,
                path: path@,
                workspace: text_opt(workspace),
            },
            Effect::ClearTranscript => EffectModel::ClearTranscript,
            Effect::KillTerminal => EffectModel::KillTerminal,
            Effect::Launch { info, id } => EffectModel::Launch { info: info@, id },
            Effect::Relaunch { id, always_focus } => EffectModel::Relaunch { id, always_focus },
            Effect::FocusTerminal => EffectModel::FocusTerminal,
            Effect::RestoreCursor => EffectModel::RestoreCursor,
            Effect::SendKey => EffectModel::SendKey,
            Effect::SendBytes(bytes) => EffectModel::SendBytes(bytes@),
            Effect::TreeKey => EffectModel::TreeKey,
            Effect::TreeApply => EffectModel::TreeApply,
            Effect::MessageKey => EffectModel::MessageKey,
            Effect::HoldSelection => EffectModel::HoldSelection,
            Effect::FocusMessage => EffectModel::FocusMessage,
            Effect::SyncTerminal => EffectModel::SyncTerminal,
            Effect::OpenRaw => EffectModel::OpenRaw,
            Effect::OpenInfo => EffectModel::OpenInfo,
            Effect::OpenShortcuts => EffectModel::OpenShortcuts,
            Effect::OpenLogs => EffectModel::OpenLogs,
            Effect::ViewKey => EffectModel::ViewKey,
            Effect::ToggleDisplay => EffectModel::ToggleDisplay,
            Effect::EnableLog => EffectModel::EnableLog,
            Effect::Copy(text) => EffectModel::Copy(text@),
            Effect::FindTranscript { provider, session_id, workspace } =>
                EffectModel::FindTranscript {
                provider,
                session_id: session_id@,
                workspace: text_opt(workspace),
            },
        }
    }
}

/// What effects hold.
pub open spec fn effect_views(effects: Seq<Effect>) -> Seq<EffectModel> {
    effects.map_values(|e: Effect| e@)
}

/// Nothing to be done.
pub fn no_effects() -> (r: Vec<Effect>)
    ensures
        effect_views(r@) == Seq::<EffectModel>::empty(),
{
    let r: Vec<Effect> = Vec::new();
    assert(effect_views(r@) =~= Seq::<EffectModel>::empty());
    r
}

/// One thing to be done.
pub fn one_effect(e: Effect) -> (r: Vec<Effect>)
    ensures
        effect_views(r@) == seq![e@],
{
    let mut r: Vec<Effect> = Vec::new();
    r.push(e);
    assert(effect_views(r@) =~= seq![e@]);
    r
}

/// One more thing to be done.
pub fn push_effect(effects: &mut Vec<Effect>, e: Effect)
    ensures
        effect_views(final(effects)@) == effect_views(old(effects)@) + seq![e@],
{
    let ghost before = effects@;
    effects.push(e);
    assert(effect_views(effects@) =~= effect_views(before) + seq![e@]);
}

/// More things to be done.
pub fn append_effects(effects: &mut Vec<Effect>, more: Vec<Effect>)
    ensures
        effect_views(final(effects)@) == effect_views(old(effects)@) + effect_views(more@),
{
    let ghost before = effects@;
    let ghost tail = more@;
    let mut more = more;
    effects.append(&mut more);
    assert(effect_views(effects@) =~= effect_views(before) + effect_views(tail));
}

} // verus!
