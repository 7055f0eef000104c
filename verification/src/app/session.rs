//! The tool that runs, or ran, in the panel.
use crate::config::{AgentConfig, AgentsConfig};
use crate::providers::ProviderKind;
use crate::text::views;
use crate::tree::text_opt;
use vstd::prelude::*;
use vstd::string::*;

verus! {

broadcast use vstd::string::group_string_axioms;

/// How a tool is started, and in which session.
#[derive(Debug, PartialEq)]
pub struct SessionInfo {
    pub provider: ProviderKind,
    pub session_id: Option<String>,
    pub directory: String,
    pub binary: String,
    pub extra_args: Vec<String>,
    pub disable_plugin: bool,
}

/// What a `SessionInfo` holds.
#[verifier::ext_equal]
pub struct InfoModel {
    pub provider: ProviderKind,
    pub session_id: Option<Seq<char>>,
    pub directory: Seq<char>,
    pub binary: Seq<char>,
    pub extra_args: Seq<Seq<char>>,
    pub disable_plugin: bool,
}

impl View for SessionInfo {
    type V = InfoModel;

    open spec fn view(&self) -> InfoModel {
        InfoModel {
            provider: self.provider,
            session_id: text_opt(self.session_id),
            directory: self.directory@,
            binary: self.binary@,
            extra_args: views(self.extra_args@),
            disable_plugin: self.disable_plugin,
        }
    }
}

/// Copies texts.
pub fn copy_texts(texts: &Vec<String>) -> (r: Vec<String>)
    ensures
        views(r@) == views(texts@),
{
    let mut out: Vec<String> = Vec::new();
    let mut i: usize = 0;
    while i < texts.len()
        invariant
            i <= texts@.len(),
            out@.len() == i,
            forall|k: int| 0 <= k < i ==> (#[trigger] out@[k])@ == texts@[k]@,
        decreases texts@.len() - i,
    {
        out.push(texts[i].clone());
        i = i + 1;
    }
    assert(views(out@) =~= views(texts@));
    out
}

/// Copies a text that may be missing.
pub fn copy_text_opt(s: &Option<String>) -> (r: Option<String>)
    ensures
        text_opt(r) == text_opt(*s),
{
    match s {
        Some(t) => Some(t.clone()),
        None => None,
    }
}

impl Clone for SessionInfo {
    fn clone(&self) -> (r: Self)
        ensures
            r@ == self@,
    {
        SessionInfo {
            provider: self.provider,
            session_id: copy_text_opt(&self.session_id),
            directory: self.directory.clone(),
            binary: self.binary.clone(),
            extra_args: copy_texts(&self.extra_args),
            disable_plugin: self.disable_plugin,
        }
    }
}

/// What the panel shows.
#[derive(Debug, PartialEq)]
pub enum PanelState {
    /// No session.
    Absent,
    /// A session whose tool was not started.
    Uninitialized(SessionInfo),
    /// A session whose tool runs.
    Live(SessionInfo),
    /// A session whose tool ended.
    Exited { info: SessionInfo, code: Option<i32> },
}

/// What a `PanelState` holds.
pub enum PanelModel {
    Absent,
    Uninitialized(InfoModel),
    Live(InfoModel),
    Exited { info: InfoModel, code: Option<i32> },
}

impl View for PanelState {
    type V = PanelModel;

    open spec fn view(&self) -> PanelModel {
        match *self {
            PanelState::Absent => PanelModel::Absent,
            PanelState::Uninitialized(info) => PanelModel::Uninitialized(info@),
            PanelState::Live(info) => PanelModel::Live(info@),
            PanelState::Exited { info, code } => PanelModel::Exited { info: info@, code },
        }
    }
}

impl PanelModel {
    /// The session, where there is one.
    pub open spec fn info(self) -> Option<InfoModel> {
        match self {
            PanelModel::Absent => None,
            PanelModel::Uninitialized(info) => Some(info),
            PanelModel::Live(info) => Some(info),
            PanelModel::Exited { info, .. } => Some(info),
        }
    }

    /// Whether the tool runs in a session whose id is known. Such a session is not left without
    /// asking.
    pub open spec fn must_ask(self) -> bool {
        self is Live && self->Live_0.session_id is Some
    }

    /// Whether the tool can be started in the panel's session.
    pub open spec fn can_launch(self) -> bool {
        self is Uninitialized || self is Exited
    }
}

impl PanelState {
    /// Whether the tool runs.
    pub fn is_live(&self) -> (r: bool)
        ensures
            r == self@ is Live,
    {
        match self {
            PanelState::Live(_) => true,
            _ => false,
        }
    }

    /// Whether the tool runs in a session whose id is known.
    pub fn asks(&self) -> (r: bool)
        ensures
            r == self@.must_ask(),
    {
        match self {
            PanelState::Live(info) => info.session_id.is_some(),
            _ => false,
        }
    }

    /// Whether the tool can be started in the panel's session.
    pub fn launches(&self) -> (r: bool)
        ensures
            r == self@.can_launch(),
    {
        match self {
            PanelState::Uninitialized(_) => true,
            PanelState::Exited { .. } => true,
            _ => false,
        }
    }

    /// The session, where there is one.
    pub fn session_info(&self) -> (r: Option<&SessionInfo>)
        ensures
            match r {
                Some(info) => self@.info() == Some(info@),
                None => self@.info() is None,
            },
    {
        match self {
            PanelState::Absent => None,
            PanelState::Uninitialized(info) => Some(info),
            PanelState::Live(info) => Some(info),
            PanelState::Exited { info, .. } => Some(info),
        }
    }
}

/// The settings of a provider's tool.
pub open spec fn agent_of(agents: AgentsConfig, provider: ProviderKind) -> AgentConfig {
    match provider {
        ProviderKind::Claude => agents.claude,
        ProviderKind::Cursor => agents.cursor,
    }
}

/// The settings of a provider's tool.
pub fn agent_config(agents: &AgentsConfig, provider: ProviderKind) -> (r: &AgentConfig)
    ensures
        *r == agent_of(*agents, provider),
{
    match provider {
        ProviderKind::Claude => &agents.claude,
        ProviderKind::Cursor => &agents.cursor,
    }
}

/// How a provider's tool is started in a directory.
pub open spec fn info_for(
    agents: AgentsConfig,
    provider: ProviderKind,
    session_id: Option<Seq<char>>,
    directory: Seq<char>,
) -> InfoModel {
    let agent = agent_of(agents, provider);
    InfoModel {
        provider,
        session_id,
        directory,
        binary: agent.binary@,
        extra_args: views(agent.extra_args@),
        disable_plugin: agent.disable_plugin,
    }
}

/// How a provider's tool is started in a directory.
pub fn make_info(
    agents: &AgentsConfig,
    provider: ProviderKind,
    session_id: Option<String>,
    directory: String,
) -> (r: SessionInfo)
    ensures
        r@ == info_for(*agents, provider, text_opt(session_id), directory@),
{
    let agent = agent_config(agents, provider);
    SessionInfo {
        provider,
        session_id,
        directory,
        binary: agent.binary.clone(),
        extra_args: copy_texts(&agent.extra_args),
        disable_plugin: agent.disable_plugin,
    }
}

} // verus!
