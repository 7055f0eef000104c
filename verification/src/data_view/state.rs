//! A JSON value as a tree of nodes.
use crate::geometry::Rect;
use crate::json::{compact, json_parsed, parse_json, Json, JsonModel};
use crate::text::{concat2, concat3, decimal, decimal_text, same_text};
use crate::tree::{blank, message_views, MessageModel, MessageState, MessageType};
use vstd::prelude::*;
use vstd::string::*;

verus! {

broadcast use vstd::string::group_string_axioms;

/// What stands before a value: its key.
pub open spec fn key_prefix(key: Option<Seq<char>>) -> Seq<char> {
    match key {
        Some(k) => k + ": "@,
        None => Seq::empty(),
    }
}

/// The id of the node at a path; the path of the whole value is empty.
pub open spec fn node_id(path: Seq<char>) -> Seq<char> {
    if path.len() == 0 {
        "root"@
    } else {
        path
    }
}

/// The path of a part: its key behind the path of the whole, with a dot between them.
pub open spec fn part_path(path: Seq<char>, key: Seq<char>) -> Seq<char> {
    if path.len() == 0 {
        key
    } else {
        path + "."@ + key
    }
}

/// The word for what a value is.
pub open spec fn kind_of(v: JsonModel) -> Seq<char> {
    match v {
        JsonModel::Object(_) => "object"@,
        JsonModel::Array(_) => "array"@,
        JsonModel::Str(_) => "string"@,
        JsonModel::Bool(_) => "bool"@,
        JsonModel::Null => "null"@,
        _ => "number"@,
    }
}

/// The node of a value: its text on one line behind its key, and the nodes of its parts below it.
/// The node of a string has the string itself for its text, on the lines behind its key.
pub open spec fn value_node(v: JsonModel, key: Option<Seq<char>>, path: Seq<char>) -> MessageModel
    decreases v,
{
    let line = key_prefix(key) + compact(v);
    let base = MessageModel {
        text: Some(line),
        data: kind_of(v),
        message_type: MessageType::Json,
        ..blank(node_id(path))
    };
    match v {
        JsonModel::Object(members) => MessageModel {
            children: Seq::new(
                members.len(),
                |i: int|
                    if 0 <= i < members.len() {
                        value_node(
                            members[i].1,
                            Some(members[i].0),
                            part_path(path, members[i].0),
                        )
                    } else {
                        blank(path)
                    },
            ),
            expanded: true,
            ..base
        },
        JsonModel::Array(items) => MessageModel {
            children: Seq::new(
                items.len(),
                |i: int|
                    if 0 <= i < items.len() {
                        value_node(
                            items[i],
                            Some(decimal(i as nat)),
                            part_path(path, decimal(i as nat)),
                        )
                    } else {
                        blank(path)
                    },
            ),
            expanded: true,
            ..base
        },
        JsonModel::Str(s) => MessageModel {
            text: Some(
                match key {
                    Some(k) => k + ":\n"@ + s,
                    None => s,
                },
            ),
            brief: Some(line),
            show_more: false,
            ..base
        },
        _ => base,
    }
}

fn make_part_path(path: &str, key: &str) -> (r: String)
    ensures
        r@ == part_path(path@, key@),
{
    if path.is_empty() {
        key.to_owned()
    } else {
        concat3(path, ".", key)
    }
}

/// The key of a node, where it has one.
pub open spec fn key_model(key: Option<&str>) -> Option<Seq<char>> {
    match key {
        Some(k) => Some(k@),
        None => None,
    }
}

/// The node of a value under a key, at a path.
pub fn json_to_node(value: &Json, key: Option<&str>, path: &str) -> (r: MessageState)
    ensures
        r@ == value_node(value@, key_model(key), path@),
    decreases value,
{
    let id = if path.is_empty() {
        "root".to_owned()
    } else {
        path.to_owned()
    };
    let mut line = match key {
        Some(k) => concat2(k, ": "),
        None => String::new(),
    };
    line.append(value.to_compact().as_str());
    assert(line@ =~= key_prefix(key_model(key)) + compact(value@));
    match value {
        Json::Object(members) => {
            let ghost ms = value@->Object_0;
            let ghost all = value_node(value@, key_model(key), path@).children;
            let mut children: Vec<MessageState> = Vec::new();
            let mut i: usize = 0;
            while i < members.len()
                invariant
                    i <= members@.len(),
                    *value == Json::Object(*members),
                    ms == value@->Object_0,
                    ms.len() == members@.len(),
                    all == value_node(value@, key_model(key), path@).children,
                    all.len() == ms.len(),
                    message_views(children@) == all.take(i as int),
                decreases members@.len() - i,
            {
                proof {
                    assert(ms[i as int] == (members@[i as int].0@, members@[i as int].1@));
                    assert(decreases_to!(*value => value->Object_0));
                    assert(decreases_to!(*members => members[i as int]));
                    assert(decreases_to!(members[i as int] => members[i as int].1));
                }
                let child_path = make_part_path(path, members[i].0.as_str());
                let child = json_to_node(
                    &members[i].1,
                    Some(members[i].0.as_str()),
                    child_path.as_str(),
                );
                let ghost before = children@;
                children.push(child);
                proof {
                    assert(all[i as int] == child@);
                    assert(message_views(children@) =~= message_views(before).push(child@));
                    assert(all.take(i + 1) =~= all.take(i as int).push(child@));
                }
                i = i + 1;
            }
            assert(all.take(members@.len() as int) =~= all);
            MessageState::new(id).text(line.as_str()).data("object".to_owned()).message_type(
                MessageType::Json,
            ).children(children).expanded(true)
        },
        Json::Array(items) => {
            let ghost ms = value@->Array_0;
            let ghost all = value_node(value@, key_model(key), path@).children;
            let mut children: Vec<MessageState> = Vec::new();
            let mut i: usize = 0;
            while i < items.len()
                invariant
                    i <= items@.len(),
                    *value == Json::Array(*items),
                    ms == value@->Array_0,
                    ms.len() == items@.len(),
                    all == value_node(value@, key_model(key), path@).children,
                    all.len() == ms.len(),
                    message_views(children@) == all.take(i as int),
                decreases items@.len() - i,
            {
                proof {
                    assert(ms[i as int] == items@[i as int]@);
                    assert(decreases_to!(*value => value->Array_0));
                    assert(decreases_to!(*items => items[i as int]));
                }
                let index = decimal_text(i as u64);
                let child_path = make_part_path(path, index.as_str());
                let child = json_to_node(&items[i], Some(index.as_str()), child_path.as_str());
                let ghost before = children@;
                children.push(child);
                proof {
                    assert(all[i as int] == child@);
                    assert(message_views(children@) =~= message_views(before).push(child@));
                    assert(all.take(i + 1) =~= all.take(i as int).push(child@));
                }
                i = i + 1;
            }
            assert(all.take(items@.len() as int) =~= all);
            MessageState::new(id).text(line.as_str()).data("array".to_owned()).message_type(
                MessageType::Json,
            ).children(children).expanded(true)
        },
        Json::Str(s) => {
            let text = match key {
                Some(k) => concat3(k, ":\n", s.as_str()),
                None => s.clone(),
            };
            MessageState::new(id).text(text.as_str()).brief(line.as_str()).data(
                "string".to_owned(),
            ).message_type(MessageType::Json).show_more(false)
        },
        Json::Bool(_) => MessageState::new(id).text(line.as_str()).data(
            "bool".to_owned(),
        ).message_type(MessageType::Json),
        Json::Null => MessageState::new(id).text(line.as_str()).data(
            "null".to_owned(),
        ).message_type(MessageType::Json),
        _ => MessageState::new(id).text(line.as_str()).data("number".to_owned()).message_type(
            MessageType::Json,
        ),
    }
}

/// The nodes of a text: those of the JSON value it is, or one that holds the text as it stands.
pub open spec fn tree_of(data: Seq<char>) -> Seq<MessageModel> {
    match json_parsed(data) {
        Some(v) => seq![value_node(v, None, Seq::empty())],
        None => seq![
            MessageModel {
                text: Some(data),
                data: "raw"@,
                message_type: MessageType::Json,
                ..blank("root"@)
            },
        ],
    }
}

/// The nodes of a text.
pub fn build_tree(data: &str) -> (r: Vec<MessageState>)
    ensures
        message_views(r@) == tree_of(data@),
{
    let mut out: Vec<MessageState> = Vec::new();
    let node = match parse_json(data) {
        Some(value) => {
            proof {
                reveal_strlit("");
                assert(""@ =~= Seq::empty());
            }
            json_to_node(&value, None, "")
        },
        None => MessageState::new("root".to_owned()).text(data).data("raw".to_owned()).message_type(
            MessageType::Json,
        ),
    };
    let ghost model = node@;
    out.push(node);
    assert(message_views(out@) =~= seq![model]);
    out
}

/// What showing more or less of a node means.
#[derive(Clone, Copy, Debug, PartialEq, Eq, Structural)]
pub enum DisplayToggle {
    /// Show or hide what is below it.
    Expand,
    /// Show or hide the rest of its text.
    ShowMore,
}

/// The node at a path of indices.
pub open spec fn node_at(items: Seq<MessageModel>, path: Seq<usize>) -> Option<MessageModel>
    decreases path.len(),
{
    if path.len() == 0 || path[0] >= items.len() {
        None
    } else if path.len() == 1 {
        Some(items[path[0] as int])
    } else {
        node_at(items[path[0] as int].children, path.skip(1))
    }
}

/// What showing more or less of the node at a path means: objects and arrays open and close.
pub open spec fn toggle_at(items: Seq<MessageModel>, path: Seq<usize>) -> DisplayToggle {
    match node_at(items, path) {
        Some(n) => if n.data == "object"@ || n.data == "array"@ {
            DisplayToggle::Expand
        } else {
            DisplayToggle::ShowMore
        },
        None => DisplayToggle::ShowMore,
    }
}

/// The nodes of the view, and where it was last shown.
#[derive(Debug, PartialEq)]
pub struct DataViewState {
    pub items: Vec<MessageState>,
    /// The area of the view, with its border.
    pub popup_area: Rect,
}

fn no_area() -> (r: Rect)
    ensures
        r == (Rect { x: 0, y: 0, width: 0, height: 0 }),
{
    Rect { x: 0, y: 0, width: 0, height: 0 }
}

impl DataViewState {
    /// The view of a text.
    pub fn new(data: &str) -> (r: Self)
        ensures
            message_views(r.items@) == tree_of(data@),
            r.popup_area == (Rect { x: 0, y: 0, width: 0, height: 0 }),
    {
        DataViewState { items: build_tree(data), popup_area: no_area() }
    }

    /// The view of given nodes.
    pub fn from_nodes(nodes: Vec<MessageState>) -> (r: Self)
        ensures
            r.items == nodes,
            r.popup_area == (Rect { x: 0, y: 0, width: 0, height: 0 }),
    {
        DataViewState { items: nodes, popup_area: no_area() }
    }

    /// What showing more or less of the node at a path means.
    pub fn toggle_display(&self, path: &Vec<usize>) -> (r: DisplayToggle)
        ensures
            r == toggle_at(message_views(self.items@), path@),
    {
        let mut items: &Vec<MessageState> = &self.items;
        let mut k: usize = 0;
        let ghost top = message_views(self.items@);
        assert(path@.skip(0) =~= path@);
        while k < path.len()
            invariant
                k <= path@.len(),
                top == message_views(self.items@),
                node_at(top, path@) == node_at(message_views(items@), path@.skip(k as int)),
            decreases path@.len() - k,
        {
            let i: usize = path[k];
            let ghost rest = path@.skip(k as int);
            assert(rest[0] == i);
            assert(rest.skip(1) =~= path@.skip(k + 1));
            if i >= items.len() {
                return DisplayToggle::ShowMore;
            }
            assert(message_views(items@)[i as int] == items@[i as int]@);
            if k + 1 == path.len() {
                let data = items[i].data.as_str();
                if same_text(data, "object") || same_text(data, "array") {
                    return DisplayToggle::Expand;
                }
                return DisplayToggle::ShowMore;
            }
            assert(items@[i as int]@.children == message_views(items@[i as int].children@));
            items = &items[i].children;
            k = k + 1;
        }
        DisplayToggle::ShowMore
    }
}

/// The parts of a value have the ids that their paths say, and no path names two of an object's
/// members, as long as their keys differ.
pub proof fn law_member_ids(v: JsonModel, key: Option<Seq<char>>, path: Seq<char>, i: int, j: int)
    requires
        v is Object,
        0 <= i < v->Object_0.len(),
        0 <= j < v->Object_0.len(),
        v->Object_0[i].0 != v->Object_0[j].0,
        v->Object_0[i].0.len() > 0,
        v->Object_0[j].0.len() > 0,
    ensures
        value_node(v, key, path).children.len() == v->Object_0.len(),
        value_node(v, key, path).children[i].id == part_path(path, v->Object_0[i].0),
        value_node(v, key, path).children[i].id != value_node(v, key, path).children[j].id,
{
    let a = v->Object_0[i].0;
    let b = v->Object_0[j].0;
    let n = value_node(v, key, path);
    reveal_with_fuel(value_node, 2);
    assert(n.children[i].id == node_id(part_path(path, a)));
    assert(n.children[j].id == node_id(part_path(path, b)));
    if part_path(path, a) == part_path(path, b) {
        if path.len() > 0 {
            let head = path + "."@;
            assert((head + a).skip(head.len() as int) =~= a);
            assert((head + b).skip(head.len() as int) =~= b);
        }
    }
}

} // verus!
