//! The nodes of a transcript tree and the operations that build it.
use crate::json::{json_opt, Json, JsonModel};
use vstd::prelude::*;

verus! {

/// What a node shows.
#[derive(Clone, Copy, Debug, PartialEq, Eq, Structural)]
pub enum MessageType {
    UserMessage,
    AgentMessage,
    ToolCall,
    ToolResult,
    Thinking,
    Container,
    TaskSummary,
    System,
    Json,
    Table,
    Other,
}

impl MessageType {
    /// The name of the variant.
    pub open spec fn name(self) -> Seq<char> {
        match self {
            MessageType::UserMessage => "UserMessage"@,
            MessageType::AgentMessage => "AgentMessage"@,
            MessageType::ToolCall => "ToolCall"@,
            MessageType::ToolResult => "ToolResult"@,
            MessageType::Thinking => "Thinking"@,
            MessageType::Container => "Container"@,
            MessageType::TaskSummary => "TaskSummary"@,
            MessageType::System => "System"@,
            MessageType::Json => "Json"@,
            MessageType::Table => "Table"@,
            MessageType::Other => "Other"@,
        }
    }

    /// The name of the variant.
    pub fn variant_name(&self) -> (r: &'static str)
        ensures
            r@ == self.name(),
    {
        match self {
            MessageType::UserMessage => "UserMessage",
            MessageType::AgentMessage => "AgentMessage",
            MessageType::ToolCall => "ToolCall",
            MessageType::ToolResult => "ToolResult",
            MessageType::Thinking => "Thinking",
            MessageType::Container => "Container",
            MessageType::TaskSummary => "TaskSummary",
            MessageType::System => "System",
            MessageType::Json => "Json",
            MessageType::Table => "Table",
            MessageType::Other => "Other",
        }
    }
}

/// Whether a node is left out of the view.
#[derive(Clone, Copy, Debug, PartialEq, Eq, Structural)]
pub enum HiddenState {
    NotHidden,
    Hidden,
}

impl HiddenState {
    /// Whether the node is left out.
    pub fn is_hidden(&self) -> (r: bool)
        ensures
            r == (*self is Hidden),
    {
        match self {
            HiddenState::Hidden => true,
            HiddenState::NotHidden => false,
        }
    }
}

/// A point in time with the offset of the clock that it was read from, both in seconds.
#[derive(Clone, Copy, Debug, PartialEq, Eq, Structural)]
pub struct Timestamp {
    pub utc_seconds: i64,
    pub offset_seconds: i32,
}

/// One node of a transcript tree.
#[derive(Debug, PartialEq)]
pub struct MessageState {
    pub id: String,
    pub message_type: MessageType,
    pub text: Option<String>,
    pub data: String,
    pub hidden: HiddenState,
    pub tag: Option<String>,
    pub brief: Option<String>,
    pub props: Option<Json>,
    pub timestamp: Option<Timestamp>,
    pub indent_children: bool,
    pub expanded: bool,
    pub show_more: bool,
    pub group: bool,
    pub is_terminal: bool,
    pub ui_state: Option<String>,
    pub children: Vec<MessageState>,
}

/// What a node holds.
#[verifier::ext_equal]
pub struct MessageModel {
    pub id: Seq<char>,
    pub message_type: MessageType,
    pub text: Option<Seq<char>>,
    pub data: Seq<char>,
    pub hidden: HiddenState,
    pub tag: Option<Seq<char>>,
    pub brief: Option<Seq<char>>,
    pub props: Option<JsonModel>,
    pub timestamp: Option<Timestamp>,
    pub indent_children: bool,
    pub expanded: bool,
    pub show_more: bool,
    pub group: bool,
    pub is_terminal: bool,
    pub ui_state: Option<Seq<char>>,
    pub children: Seq<MessageModel>,
}

/// The view of an optional string.
pub open spec fn text_opt(s: Option<String>) -> Option<Seq<char>> {
    match s {
        Some(t) => Some(t@),
        None => None,
    }
}

/// The content of a node.
pub open spec fn message_model(m: MessageState) -> MessageModel
    decreases m,
{
    MessageModel {
        id: m.id@,
        message_type: m.message_type,
        text: text_opt(m.text),
        data: m.data@,
        hidden: m.hidden,
        tag: text_opt(m.tag),
        brief: text_opt(m.brief),
        props: json_opt(m.props),
        timestamp: m.timestamp,
        indent_children: m.indent_children,
        expanded: m.expanded,
        show_more: m.show_more,
        group: m.group,
        is_terminal: m.is_terminal,
        ui_state: text_opt(m.ui_state),
        children: Seq::new(
            m.children@.len(),
            |i: int|
                if 0 <= i < m.children@.len() {
                    message_model(m.children[i])
                } else {
                    blank(Seq::empty())
                },
        ),
    }
}

impl View for MessageState {
    type V = MessageModel;

    open spec fn view(&self) -> MessageModel {
        message_model(*self)
    }
}

/// The views of a sequence of nodes.
pub open spec fn message_views(s: Seq<MessageState>) -> Seq<MessageModel> {
    s.map_values(|m: MessageState| m@)
}

/// A node with an id and nothing else.
pub open spec fn blank(id: Seq<char>) -> MessageModel {
    MessageModel {
        id,
        message_type: MessageType::Other,
        text: None,
        data: Seq::empty(),
        hidden: HiddenState::NotHidden,
        tag: None,
        brief: None,
        props: None,
        timestamp: None,
        indent_children: false,
        expanded: false,
        show_more: false,
        group: false,
        is_terminal: false,
        ui_state: None,
        children: Seq::empty(),
    }
}

/// A node with its id, text, data and type.
pub open spec fn leaf(
    id: Seq<char>,
    text: Seq<char>,
    data: Seq<char>,
    message_type: MessageType,
) -> MessageModel {
    MessageModel { text: Some(text), data, message_type, ..blank(id) }
}

impl MessageState {
    /// A node with an id and nothing else.
    pub fn new(id: String) -> (r: MessageState)
        ensures
            r@ == blank(id@),
    {
        let r = MessageState {
            id,
            message_type: MessageType::Other,
            text: None,
            data: String::new(),
            hidden: HiddenState::NotHidden,
            tag: None,
            brief: None,
            props: None,
            timestamp: None,
            indent_children: false,
            expanded: false,
            show_more: false,
            group: false,
            is_terminal: false,
            ui_state: None,
            children: Vec::new(),
        };
        assert(r@.children =~= Seq::<MessageModel>::empty());
        r
    }

    /// A node with its id, text, data and type.
    pub fn leaf(id: String, text: String, data: String, message_type: MessageType) -> (r:
        MessageState)
        ensures
            r@ == leaf(id@, text@, data@, message_type),
    {
        let r = MessageState {
            id,
            message_type,
            text: Some(text),
            data,
            hidden: HiddenState::NotHidden,
            tag: None,
            brief: None,
            props: None,
            timestamp: None,
            indent_children: false,
            expanded: false,
            show_more: false,
            group: false,
            is_terminal: false,
            ui_state: None,
            children: Vec::new(),
        };
        assert(r@.children =~= Seq::<MessageModel>::empty());
        r
    }

    /// The node with a tag.
    pub fn tag(self, tag: &str) -> (r: MessageState)
        ensures
            r@ == (MessageModel { tag: Some(tag@), ..self@ }),
    {
        let ghost before = self@;
        let mut r = self;
        r.tag = Some(tag.to_owned());
        assert(r@.children =~= before.children);
        r
    }

    /// The node with a short text.
    pub fn brief(self, brief: &str) -> (r: MessageState)
        ensures
            r@ == (MessageModel { brief: Some(brief@), ..self@ }),
    {
        let ghost before = self@;
        let mut r = self;
        r.brief = Some(brief.to_owned());
        assert(r@.children =~= before.children);
        r
    }

    /// The node with a text.
    pub fn text(self, text: &str) -> (r: MessageState)
        ensures
            r@ == (MessageModel { text: Some(text@), ..self@ }),
    {
        let ghost before = self@;
        let mut r = self;
        r.text = Some(text.to_owned());
        assert(r@.children =~= before.children);
        r
    }

    /// The node with data.
    pub fn data(self, data: String) -> (r: MessageState)
        ensures
            r@ == (MessageModel { data: data@, ..self@ }),
    {
        let ghost before = self@;
        let mut r = self;
        r.data = data;
        assert(r@.children =~= before.children);
        r
    }

    /// The node with a type.
    pub fn message_type(self, message_type: MessageType) -> (r: MessageState)
        ensures
            r@ == (MessageModel { message_type, ..self@ }),
    {
        let ghost before = self@;
        let mut r = self;
        r.message_type = message_type;
        assert(r@.children =~= before.children);
        r
    }

    /// The node, left out of the view or not.
    pub fn hidden(self, hidden: HiddenState) -> (r: MessageState)
        ensures
            r@ == (MessageModel { hidden, ..self@ }),
    {
        let ghost before = self@;
        let mut r = self;
        r.hidden = hidden;
        assert(r@.children =~= before.children);
        r
    }

    /// The node with properties.
    pub fn props(self, props: Json) -> (r: MessageState)
        ensures
            r@ == (MessageModel { props: Some(props@), ..self@ }),
    {
        let ghost before = self@;
        let mut r = self;
        r.props = Some(props);
        assert(r@.children =~= before.children);
        r
    }

    /// The node with a point in time.
    pub fn timestamp(self, timestamp: Option<Timestamp>) -> (r: MessageState)
        ensures
            r@ == (MessageModel { timestamp, ..self@ }),
    {
        let ghost before = self@;
        let mut r = self;
        r.timestamp = timestamp;
        assert(r@.children =~= before.children);
        r
    }

    /// The node with its children indented or not.
    pub fn indent_children(self, indent_children: bool) -> (r: MessageState)
        ensures
            r@ == (MessageModel { indent_children, ..self@ }),
    {
        let ghost before = self@;
        let mut r = self;
        r.indent_children = indent_children;
        assert(r@.children =~= before.children);
        r
    }

    /// The node with its children shown or not.
    pub fn expanded(self, expanded: bool) -> (r: MessageState)
        ensures
            r@ == (MessageModel { expanded, ..self@ }),
    {
        let ghost before = self@;
        let mut r = self;
        r.expanded = expanded;
        assert(r@.children =~= before.children);
        r
    }

    /// The node with its full text shown or not.
    pub fn show_more(self, show_more: bool) -> (r: MessageState)
        ensures
            r@ == (MessageModel { show_more, ..self@ }),
    {
        let ghost before = self@;
        let mut r = self;
        r.show_more = show_more;
        assert(r@.children =~= before.children);
        r
    }

    /// The node with children.
    pub fn children(self, children: Vec<MessageState>) -> (r: MessageState)
        ensures
            r@ == (MessageModel { children: message_views(children@), ..self@ }),
    {
        let mut r = self;
        r.children = children;
        assert(r@.children =~= message_views(children@));
        r
    }
}

/// A change of a transcript tree.
#[derive(Debug, PartialEq)]
pub enum TreeOperation {
    /// Adds a node under `parent_id`, or at the top.
    Append { parent_id: Option<String>, message: MessageState },
    /// Puts a node in the place of another.
    Replace { id: String, message: MessageState },
    /// Takes a node out.
    Remove { id: String },
    /// Changes a node and keeps its children.
    Update { id: String, message: MessageState },
}

/// What an operation holds.
#[verifier::ext_equal]
pub enum OpModel {
    Append { parent_id: Option<Seq<char>>, message: MessageModel },
    Replace { id: Seq<char>, message: MessageModel },
    Remove { id: Seq<char> },
    Update { id: Seq<char>, message: MessageModel },
}

impl View for TreeOperation {
    type V = OpModel;

    open spec fn view(&self) -> OpModel {
        match *self {
            TreeOperation::Append { parent_id, message } => OpModel::Append {
                parent_id: text_opt(parent_id),
                message: message@,
            },
            TreeOperation::Replace { id, message } => OpModel::Replace {
                id: id@,
                message: message@,
            },
            TreeOperation::Remove { id } => OpModel::Remove { id: id@ },
            TreeOperation::Update { id, message } => OpModel::Update {
                id: id@,
                message: message@,
            },
        }
    }
}

/// The views of a sequence of operations.
pub open spec fn op_views(ops: Seq<TreeOperation>) -> Seq<OpModel> {
    ops.map_values(|op: TreeOperation| op@)
}

/// An operation as a reader hands it on.
#[derive(Debug, PartialEq)]
pub enum ReaderOp {
    /// A change of the tree.
    Tree(TreeOperation),
    /// Drops all content; `id` names the entry that caused it.
    Reset { id: Option<String> },
    /// The content that follows a `Reset` is complete.
    ResetDone,
}

/// What a reader's operation holds.
#[verifier::ext_equal]
pub enum ReaderOpModel {
    Tree(OpModel),
    Reset { id: Option<Seq<char>> },
    ResetDone,
}

impl View for ReaderOp {
    type V = ReaderOpModel;

    open spec fn view(&self) -> ReaderOpModel {
        match *self {
            ReaderOp::Tree(op) => ReaderOpModel::Tree(op@),
            ReaderOp::Reset { id } => ReaderOpModel::Reset { id: text_opt(id) },
            ReaderOp::ResetDone => ReaderOpModel::ResetDone,
        }
    }
}

/// The views of a sequence of a reader's operations.
pub open spec fn reader_op_views(ops: Seq<ReaderOp>) -> Seq<ReaderOpModel> {
    ops.map_values(|op: ReaderOp| op@)
}

} // verus!
