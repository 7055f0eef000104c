//! JSON values as the transcripts hold them.
use crate::text::same_text;
use vstd::prelude::*;

verus! {

/// A number that is no integer of 64 bits. It comes out of a parsed value and is carried unread.
#[derive(Debug, PartialEq)]
pub struct Decimal {
    number: serde_json::Number,
}

/// A JSON value.
#[derive(Debug, PartialEq)]
pub enum Json {
    Null,
    Bool(bool),
    Unsigned(u64),
    Negative(i64),
    Float(Decimal),
    Str(String),
    Array(Vec<Json>),
    Object(Vec<(String, Json)>),
}

/// What a `Json` holds.
pub enum JsonModel {
    Null,
    Bool(bool),
    Unsigned(u64),
    Negative(i64),
    Float(Decimal),
    Str(Seq<char>),
    Array(Seq<JsonModel>),
    Object(Seq<(Seq<char>, JsonModel)>),
}

/// One level of a `serde_json::Value`, its parts still in that form.
pub(crate) enum JsonLayer {
    Null,
    Bool(bool),
    Unsigned(u64),
    Negative(i64),
    Float(Decimal),
    Str(String),
    Array(Vec<serde_json::Value>),
    Object(Vec<(String, serde_json::Value)>),
}

/// `serde_json::Value`, a parsed JSON text.
#[verifier::external_type_specification]
#[verifier::external_body]
pub struct ExValue(serde_json::Value);

/// `serde_json::Number`, a number of a JSON text.
#[verifier::external_type_specification]
#[verifier::external_body]
pub struct ExNumber(serde_json::Number);

/// What a `serde_json::Value` holds; an object's members stand in the order of their keys.
pub uninterp spec fn value_model(v: serde_json::Value) -> JsonModel;

/// What `serde_json::from_str` makes of a text; `None` where it reports an error.
pub uninterp spec fn json_parsed(text: Seq<char>) -> Option<JsonModel>;

/// What `serde_json::from_slice` makes of bytes; `None` where it reports an error.
pub uninterp spec fn json_parsed_bytes(bytes: Seq<u8>) -> Option<JsonModel>;

/// The text that `Value`'s `Display` writes.
pub uninterp spec fn json_compact(v: JsonModel) -> Seq<char>;

/// The text that `serde_json::to_string_pretty` writes.
pub uninterp spec fn json_pretty(v: JsonModel) -> Seq<char>;

// ---------------------------------------------------------------------------
// Models
// ---------------------------------------------------------------------------

/// The content of a `Json`.
pub open spec fn json_model(j: Json) -> JsonModel
    decreases j,
{
    match j {
        Json::Null => JsonModel::Null,
        Json::Bool(b) => JsonModel::Bool(b),
        Json::Unsigned(n) => JsonModel::Unsigned(n),
        Json::Negative(n) => JsonModel::Negative(n),
        Json::Float(n) => JsonModel::Float(n),
        Json::Str(s) => JsonModel::Str(s@),
        Json::Array(items) => JsonModel::Array(
            Seq::new(
                items@.len(),
                |i: int|
                    if 0 <= i < items@.len() {
                        json_model(items[i])
                    } else {
                        JsonModel::Null
                    },
            ),
        ),
        Json::Object(members) => JsonModel::Object(
            Seq::new(
                members@.len(),
                |i: int|
                    if 0 <= i < members@.len() {
                        (members[i].0@, json_model(members[i].1))
                    } else {
                        (Seq::empty(), JsonModel::Null)
                    },
            ),
        ),
    }
}

impl View for Json {
    type V = JsonModel;

    open spec fn view(&self) -> JsonModel {
        json_model(*self)
    }
}

/// The content of one level, its parts by `value_model`.
pub(crate) open spec fn layer_model(l: JsonLayer) -> JsonModel {
    match l {
        JsonLayer::Null => JsonModel::Null,
        JsonLayer::Bool(b) => JsonModel::Bool(b),
        JsonLayer::Unsigned(n) => JsonModel::Unsigned(n),
        JsonLayer::Negative(n) => JsonModel::Negative(n),
        JsonLayer::Float(n) => JsonModel::Float(n),
        JsonLayer::Str(s) => JsonModel::Str(s@),
        JsonLayer::Array(items) => JsonModel::Array(
            Seq::new(items@.len(), |i: int| value_model(items@[i])),
        ),
        JsonLayer::Object(members) => JsonModel::Object(
            Seq::new(members@.len(), |i: int| (members@[i].0@, value_model(members@[i].1))),
        ),
    }
}

/// Keys are ordered by their first differing character, a prefix before what it begins.
pub open spec fn key_less(a: Seq<char>, b: Seq<char>) -> bool
    decreases a.len(),
{
    if b.len() == 0 {
        false
    } else if a.len() == 0 {
        true
    } else if a[0] == b[0] {
        key_less(a.skip(1), b.skip(1))
    } else {
        a[0] < b[0]
    }
}

/// `members`, ordered by key, with `key` bound to `value`.
pub open spec fn put(
    members: Seq<(Seq<char>, JsonModel)>,
    key: Seq<char>,
    value: JsonModel,
) -> Seq<(Seq<char>, JsonModel)>
    decreases members.len(),
{
    if members.len() == 0 {
        seq![(key, value)]
    } else if members[0].0 == key {
        seq![(key, value)] + members.skip(1)
    } else if key_less(key, members[0].0) {
        seq![(key, value)] + members
    } else {
        seq![members[0]] + put(members.skip(1), key, value)
    }
}

/// `members` put in one after the other: ordered by key, the last of equal keys kept.
pub open spec fn put_all(members: Seq<(Seq<char>, JsonModel)>) -> Seq<(Seq<char>, JsonModel)>
    decreases members.len(),
{
    if members.len() == 0 {
        members
    } else {
        put(put_all(members.drop_last()), members.last().0, members.last().1)
    }
}

/// One level as a `serde_json::Value` keeps it.
pub open spec fn tidy(m: JsonModel) -> JsonModel {
    match m {
        JsonModel::Negative(n) => if n >= 0 {
            JsonModel::Unsigned(n as u64)
        } else {
            m
        },
        JsonModel::Object(members) => JsonModel::Object(put_all(members)),
        _ => m,
    }
}

/// The whole value as a `serde_json::Value` keeps it.
pub open spec fn canonical(m: JsonModel) -> JsonModel
    decreases m,
{
    match m {
        JsonModel::Array(items) => JsonModel::Array(canonical_items(items)),
        JsonModel::Object(members) => JsonModel::Object(put_all(canonical_members(members))),
        _ => tidy(m),
    }
}

/// `canonical` of each item.
pub open spec fn canonical_items(items: Seq<JsonModel>) -> Seq<JsonModel>
    decreases items,
{
    Seq::new(
        items.len(),
        |i: int|
            if 0 <= i < items.len() {
                canonical(items[i])
            } else {
                JsonModel::Null
            },
    )
}

/// The members with `canonical` of each value.
pub open spec fn canonical_members(members: Seq<(Seq<char>, JsonModel)>) -> Seq<
    (Seq<char>, JsonModel),
>
    decreases members,
{
    Seq::new(
        members.len(),
        |i: int|
            if 0 <= i < members.len() {
                (members[i].0, canonical(members[i].1))
            } else {
                (Seq::empty(), JsonModel::Null)
            },
    )
}

/// The indented text of a value.
pub open spec fn pretty(m: JsonModel) -> Seq<char> {
    json_pretty(canonical(m))
}

/// The text of a value on one line.
pub open spec fn compact(m: JsonModel) -> Seq<char> {
    json_compact(canonical(m))
}

/// The value of the first member named `key`.
pub open spec fn member(members: Seq<(Seq<char>, JsonModel)>, key: Seq<char>) -> Option<JsonModel>
    decreases members.len(),
{
    if members.len() == 0 {
        None
    } else if members[0].0 == key {
        Some(members[0].1)
    } else {
        member(members.skip(1), key)
    }
}

/// The members of an object; what is no object has none.
pub open spec fn members_of(m: JsonModel) -> Seq<(Seq<char>, JsonModel)> {
    match m {
        JsonModel::Object(members) => members,
        _ => Seq::empty(),
    }
}

/// `members` with the first one named `key` bound to `value`, or with a new one at the end.
pub open spec fn set_member(
    members: Seq<(Seq<char>, JsonModel)>,
    key: Seq<char>,
    value: JsonModel,
) -> Seq<(Seq<char>, JsonModel)>
    decreases members.len(),
{
    if members.len() == 0 {
        seq![(key, value)]
    } else if members[0].0 == key {
        seq![(key, value)] + members.skip(1)
    } else {
        seq![members[0]] + set_member(members.skip(1), key, value)
    }
}

proof fn lemma_set_at(
    members: Seq<(Seq<char>, JsonModel)>,
    key: Seq<char>,
    value: JsonModel,
    k: int,
)
    requires
        0 <= k < members.len(),
        members[k].0 == key,
        forall|i: int| 0 <= i < k ==> members[i].0 != key,
    ensures
        set_member(members, key, value) == members.update(k, (key, value)),
    decreases members.len(),
{
    if k > 0 {
        lemma_set_at(members.skip(1), key, value, k - 1);
    }
    assert(set_member(members, key, value) =~= members.update(k, (key, value)));
}

proof fn lemma_set_absent(members: Seq<(Seq<char>, JsonModel)>, key: Seq<char>, value: JsonModel)
    requires
        forall|i: int| 0 <= i < members.len() ==> members[i].0 != key,
    ensures
        set_member(members, key, value) == members.push((key, value)),
    decreases members.len(),
{
    if members.len() > 0 {
        lemma_set_absent(members.skip(1), key, value);
    }
    assert(set_member(members, key, value) =~= members.push((key, value)));
}

/// A member that was bound is found, and no other one is touched; binding it to what it is bound
/// to changes nothing.
pub proof fn law_set_member(
    members: Seq<(Seq<char>, JsonModel)>,
    key: Seq<char>,
    value: JsonModel,
    other: Seq<char>,
)
    ensures
        member(set_member(members, key, value), key) == Some(value),
        other != key ==> member(set_member(members, key, value), other) == member(members, other),
        member(members, key) == Some(value) ==> set_member(members, key, value) == members,
    decreases members.len(),
{
    let after = set_member(members, key, value);
    if members.len() == 0 {
        assert(after.skip(1) =~= Seq::empty());
        assert(member(after.skip(1), other) is None);
    } else if members[0].0 == key {
        assert(after.skip(1) =~= members.skip(1));
        if member(members, key) == Some(value) {
            assert(after =~= members);
        }
    } else {
        law_set_member(members.skip(1), key, value, other);
        assert(after.skip(1) =~= set_member(members.skip(1), key, value));
        if member(members, key) == Some(value) {
            assert(after =~= members);
        }
    }
}

/// The member `key` of an object.
pub open spec fn field(m: JsonModel, key: Seq<char>) -> Option<JsonModel> {
    match m {
        JsonModel::Object(members) => member(members, key),
        _ => None,
    }
}

/// The characters of a string value.
pub open spec fn str_of(m: JsonModel) -> Option<Seq<char>> {
    match m {
        JsonModel::Str(s) => Some(s),
        _ => None,
    }
}

/// The items of an array value.
pub open spec fn items_of(m: JsonModel) -> Option<Seq<JsonModel>> {
    match m {
        JsonModel::Array(items) => Some(items),
        _ => None,
    }
}

/// The member `key` of an object, where it is a string.
pub open spec fn str_field(m: JsonModel, key: Seq<char>) -> Option<Seq<char>> {
    match field(m, key) {
        Some(v) => str_of(v),
        None => None,
    }
}

/// The member `key` of an object, where it is an array.
pub open spec fn items_field(m: JsonModel, key: Seq<char>) -> Option<Seq<JsonModel>> {
    match field(m, key) {
        Some(v) => items_of(v),
        None => None,
    }
}

/// A member of an object is the value of the first one of its name, and missing where there is
/// none; what is no object has no members.
pub proof fn law_member(members: Seq<(Seq<char>, JsonModel)>, key: Seq<char>)
    ensures
        forall|k: int|
            #![trigger members[k]]
            0 <= k < members.len() && members[k].0 == key && (forall|j: int|
                0 <= j < k ==> (#[trigger] members[j]).0 != key) ==> field(
                JsonModel::Object(members),
                key,
            ) == Some(members[k].1),
        (forall|j: int| 0 <= j < members.len() ==> (#[trigger] members[j]).0 != key) ==> field(
            JsonModel::Object(members),
            key,
        ) is None,
    decreases members.len(),
{
    if members.len() > 0 {
        let rest = members.skip(1);
        law_member(rest, key);
        assert forall|k: int|
            #![trigger members[k]]
            0 <= k < members.len() && members[k].0 == key && (forall|j: int|
                0 <= j < k ==> (#[trigger] members[j]).0 != key) implies field(
            JsonModel::Object(members),
            key,
        ) == Some(members[k].1) by {
            if k > 0 {
                assert(members[0].0 != key);
                assert(rest[k - 1] == members[k]);
                assert forall|j: int| 0 <= j < k - 1 implies (#[trigger] rest[j]).0 != key by {
                    assert(members[j + 1].0 != key);
                }
            }
        }
        if forall|j: int| 0 <= j < members.len() ==> (#[trigger] members[j]).0 != key {
            assert(members[0].0 != key);
            assert forall|j: int| 0 <= j < rest.len() implies (#[trigger] rest[j]).0 != key by {
                assert(members[j + 1].0 != key);
            }
        }
    }
}

/// A member read as a string is that string, and missing where it is anything else; read as a list
/// it is that list.
pub proof fn law_typed_members(m: JsonModel, key: Seq<char>)
    ensures
        str_field(m, key) is Some <==> field(m, key) is Some && field(m, key)->0 is Str,
        str_field(m, key) is Some ==> field(m, key)->0 == JsonModel::Str(str_field(m, key)->0),
        items_field(m, key) is Some <==> field(m, key) is Some && field(m, key)->0 is Array,
        items_field(m, key) is Some ==> field(m, key)->0 == JsonModel::Array(
            items_field(m, key)->0,
        ),
        !(m is Object) ==> field(m, key) is None,
        !(m is Object) ==> members_of(m).len() == 0,
        m is Object ==> members_of(m) == m->Object_0,
{
}

/// The view of an optional value.
pub open spec fn json_opt(j: Option<Json>) -> Option<JsonModel> {
    match j {
        Some(v) => Some(v@),
        None => None,
    }
}

// ---------------------------------------------------------------------------
// Calls into serde_json
// ---------------------------------------------------------------------------

/// Wraps `serde_json::from_str::<Value>`. The result is named by `json_parsed`; the error that a
/// refused text gives is dropped.
#[verifier::external_body]
fn value_from_str(text: &str) -> (r: Option<serde_json::Value>)
    ensures
        json_parsed(text@) == (match r {
            Some(v) => Some(value_model(v)),
            None => None,
        }),
{
    serde_json::from_str::<serde_json::Value>(text).ok()
}

/// Wraps `serde_json::from_slice::<Value>`. The result is named by `json_parsed_bytes`; the error
/// that refused bytes give is dropped.
#[verifier::external_body]
fn value_from_slice(bytes: &[u8]) -> (r: Option<serde_json::Value>)
    ensures
        json_parsed_bytes(bytes@) == (match r {
            Some(v) => Some(value_model(v)),
            None => None,
        }),
{
    serde_json::from_slice::<serde_json::Value>(bytes).ok()
}

/// Tells the variants of `serde_json::Value` apart, and those of its numbers by `as_u64` and
/// `as_i64`. The parts are moved; what the level holds is what the value holds.
#[verifier::external_body]
fn open_value(v: serde_json::Value) -> (r: JsonLayer)
    ensures
        layer_model(r) == value_model(v),
{
    match v {
        serde_json::Value::Null => JsonLayer::Null,
        serde_json::Value::Bool(b) => JsonLayer::Bool(b),
        serde_json::Value::Number(n) => match (n.as_u64(), n.as_i64()) {
            (Some(u), _) => JsonLayer::Unsigned(u),
            (None, Some(i)) => JsonLayer::Negative(i),
            (None, None) => JsonLayer::Float(Decimal { number: n }),
        },
        serde_json::Value::String(s) => JsonLayer::Str(s),
        serde_json::Value::Array(items) => JsonLayer::Array(items),
        serde_json::Value::Object(members) => JsonLayer::Object(members.into_iter().collect()),
    }
}

/// Builds a `serde_json::Value` from one level. Its map orders the members by key and keeps the
/// last of equal keys; its numbers hold what is not negative as unsigned. A `Decimal` comes from
/// `open_value` alone, so it is no integer.
#[verifier::external_body]
fn close_value(l: JsonLayer) -> (r: serde_json::Value)
    ensures
        value_model(r) == tidy(layer_model(l)),
{
    match l {
        JsonLayer::Null => serde_json::Value::Null,
        JsonLayer::Bool(b) => serde_json::Value::Bool(b),
        JsonLayer::Unsigned(u) => serde_json::Value::from(u),
        JsonLayer::Negative(i) => serde_json::Value::from(i),
        JsonLayer::Float(n) => serde_json::Value::Number(n.number),
        JsonLayer::Str(s) => serde_json::Value::String(s),
        JsonLayer::Array(items) => serde_json::Value::Array(items),
        JsonLayer::Object(members) => serde_json::Value::Object(members.into_iter().collect()),
    }
}

/// Wraps `Value::to_string`, the text of `Display`, named by `json_compact`.
#[verifier::external_body]
fn value_compact(v: &serde_json::Value) -> (r: String)
    ensures
        r@ == json_compact(value_model(*v)),
{
    v.to_string()
}

/// Wraps `serde_json::to_string_pretty`, named by `json_pretty`. It does not fail on a `Value`,
/// whose keys are strings.
#[verifier::external_body]
fn value_pretty(v: &serde_json::Value) -> (r: String)
    ensures
        r@ == json_pretty(value_model(*v)),
{
    serde_json::to_string_pretty(v).unwrap_or_default()
}

/// Wraps `serde_json::Number::clone`: the copy is the same number.
#[verifier::external_body]
fn copy_decimal(n: &Decimal) -> (r: Decimal)
    ensures
        r == *n,
{
    Decimal { number: n.number.clone() }
}

// ---------------------------------------------------------------------------
// Values
// ---------------------------------------------------------------------------

fn from_value(v: serde_json::Value) -> (r: Json)
    ensures
        r@ == value_model(v),
    decreases value_model(v),
{
    let ghost m = value_model(v);
    match open_value(v) {
        JsonLayer::Null => Json::Null,
        JsonLayer::Bool(b) => Json::Bool(b),
        JsonLayer::Unsigned(n) => Json::Unsigned(n),
        JsonLayer::Negative(n) => Json::Negative(n),
        JsonLayer::Float(n) => Json::Float(n),
        JsonLayer::Str(s) => Json::Str(s),
        JsonLayer::Array(items) => {
            let ghost all = items@;
            let mut out: Vec<Json> = Vec::new();
            for head in it: items
                invariant
                    m == value_model(v),
                    m == JsonModel::Array(Seq::new(all.len(), |i: int| value_model(all[i]))),
                    it.seq() == all,
                    out@.len() == it.index(),
                    forall|i: int| 0 <= i < out@.len() ==> out@[i]@ == value_model(all[i]),
            {
                proof {
                    assert(head == all[it.index() as int]);
                    assert(m->Array_0[it.index() as int] == value_model(head));
                    assert(decreases_to!(m => m->Array_0));
                    assert(decreases_to!(m->Array_0 => m->Array_0[it.index() as int]));
                }
                out.push(from_value(head));
            }
            let r = Json::Array(out);
            assert(r@->Array_0 =~= m->Array_0);
            r
        },
        JsonLayer::Object(members) => {
            let ghost all = members@;
            let mut out: Vec<(String, Json)> = Vec::new();
            for head in it: members
                invariant
                    m == value_model(v),
                    m == JsonModel::Object(
                        Seq::new(all.len(), |i: int| (all[i].0@, value_model(all[i].1))),
                    ),
                    it.seq() == all,
                    out@.len() == it.index(),
                    forall|i: int|
                        0 <= i < out@.len() ==> out@[i].0@ == all[i].0@ && out@[i].1@
                            == value_model(all[i].1),
            {
                proof {
                    let k = it.index() as int;
                    assert(head == all[k]);
                    assert(m->Object_0[k].1 == value_model(head.1));
                    assert(decreases_to!(m => m->Object_0));
                    assert(decreases_to!(m->Object_0 => m->Object_0[k]));
                    assert(decreases_to!(m->Object_0[k] => m->Object_0[k].1));
                }
                out.push((head.0, from_value(head.1)));
            }
            let r = Json::Object(out);
            assert(r@->Object_0 =~= m->Object_0);
            r
        },
    }
}

/// Parses a JSON text.
pub fn parse_json(text: &str) -> (r: Option<Json>)
    ensures
        json_opt(r) == json_parsed(text@),
{
    match value_from_str(text) {
        Some(v) => Some(from_value(v)),
        None => None,
    }
}

/// Parses the bytes of a JSON text.
pub fn parse_json_bytes(bytes: &[u8]) -> (r: Option<Json>)
    ensures
        json_opt(r) == json_parsed_bytes(bytes@),
{
    match value_from_slice(bytes) {
        Some(v) => Some(from_value(v)),
        None => None,
    }
}

impl Clone for Json {
    fn clone(&self) -> (r: Json)
        ensures
            r@ == self@,
        decreases self,
    {
        match self {
            Json::Null => Json::Null,
            Json::Bool(b) => Json::Bool(*b),
            Json::Unsigned(n) => Json::Unsigned(*n),
            Json::Negative(n) => Json::Negative(*n),
            Json::Float(n) => Json::Float(copy_decimal(n)),
            Json::Str(s) => Json::Str(s.clone()),
            Json::Array(items) => {
                let mut out: Vec<Json> = Vec::new();
                let mut k: usize = 0;
                while k < items.len()
                    invariant
                        k <= items@.len(),
                        self == Json::Array(*items),
                        out@.len() == k,
                        forall|i: int| 0 <= i < k ==> out@[i]@ == items@[i]@,
                    decreases items@.len() - k,
                {
                    assert(decreases_to!(*self => self->Array_0));
                    assert(decreases_to!(*items => items[k as int]));
                    out.push(items[k].clone());
                    k = k + 1;
                }
                let r = Json::Array(out);
                assert(r@->Array_0 =~= self@->Array_0);
                r
            },
            Json::Object(members) => {
                let mut out: Vec<(String, Json)> = Vec::new();
                let mut k: usize = 0;
                while k < members.len()
                    invariant
                        k <= members@.len(),
                        self == Json::Object(*members),
                        out@.len() == k,
                        forall|i: int|
                            0 <= i < k ==> out@[i].0@ == members@[i].0@ && out@[i].1@
                                == members@[i].1@,
                    decreases members@.len() - k,
                {
                    assert(decreases_to!(*self => self->Object_0));
                    assert(decreases_to!(*members => members[k as int]));
                    assert(decreases_to!(members[k as int] => members[k as int].1));
                    out.push((members[k].0.clone(), members[k].1.clone()));
                    k = k + 1;
                }
                let r = Json::Object(out);
                assert(r@->Object_0 =~= self@->Object_0);
                r
            },
        }
    }
}

proof fn lemma_member_at(members: Seq<(Seq<char>, JsonModel)>, key: Seq<char>, k: int)
    requires
        0 <= k < members.len(),
        forall|i: int| 0 <= i < k ==> members[i].0 != key,
        members[k].0 == key,
    ensures
        member(members, key) == Some(members[k].1),
    decreases k,
{
    if k > 0 {
        lemma_member_at(members.skip(1), key, k - 1);
    }
}

proof fn lemma_member_absent(members: Seq<(Seq<char>, JsonModel)>, key: Seq<char>)
    requires
        forall|i: int| 0 <= i < members.len() ==> members[i].0 != key,
    ensures
        member(members, key) is None,
    decreases members.len(),
{
    if members.len() > 0 {
        lemma_member_absent(members.skip(1), key);
    }
}

impl Json {
    /// The member `key` of an object.
    pub fn get(&self, key: &str) -> (r: Option<&Json>)
        ensures
            match r {
                Some(v) => field(self@, key@) == Some(v@),
                None => field(self@, key@) is None,
            },
    {
        match self {
            Json::Object(members) => {
                let ghost ms = self@->Object_0;
                let mut k: usize = 0;
                while k < members.len()
                    invariant
                        k <= members@.len(),
                        *self == Json::Object(*members),
                        ms == self@->Object_0,
                        forall|i: int| 0 <= i < k ==> ms[i].0 != key@,
                    decreases members@.len() - k,
                {
                    if same_text(members[k].0.as_str(), key) {
                        proof {
                            lemma_member_at(ms, key@, k as int);
                        }
                        return Some(&members[k].1);
                    }
                    k = k + 1;
                }
                proof {
                    lemma_member_absent(ms, key@);
                }
                None
            },
            _ => None,
        }
    }

    /// The characters of a string value.
    pub fn as_str(&self) -> (r: Option<&str>)
        ensures
            match r {
                Some(s) => str_of(self@) == Some(s@),
                None => str_of(self@) is None,
            },
    {
        match self {
            Json::Str(s) => Some(s.as_str()),
            _ => None,
        }
    }

    /// The items of an array value.
    pub fn as_array(&self) -> (r: Option<&Vec<Json>>)
        ensures
            match r {
                Some(v) => *self == Json::Array(*v),
                None => items_of(self@) is None,
            },
    {
        match self {
            Json::Array(items) => Some(items),
            _ => None,
        }
    }

    /// The member `key` of an object, where it is a string.
    pub fn get_str(&self, key: &str) -> (r: Option<&str>)
        ensures
            match r {
                Some(s) => str_field(self@, key@) == Some(s@),
                None => str_field(self@, key@) is None,
            },
    {
        match self.get(key) {
            Some(v) => v.as_str(),
            None => None,
        }
    }

    /// The value with the member `key` bound to `value`. What is no object counts as an empty one.
    pub fn with(self, key: &str, value: Json) -> (r: Json)
        ensures
            r@ == JsonModel::Object(set_member(members_of(self@), key@, value@)),
    {
        let ghost before = members_of(self@);
        let mut members: Vec<(String, Json)> = match self {
            Json::Object(members) => members,
            _ => Vec::new(),
        };
        assert(members_of(Json::Object(members)@) =~= before);
        let mut k: usize = 0;
        while k < members.len()
            invariant
                k <= members@.len(),
                before == members_of(self@),
                before == members_of(Json::Object(members)@),
                before.len() == members@.len(),
                forall|i: int| 0 <= i < k ==> before[i].0 != key@,
            decreases members@.len() - k,
        {
            if same_text(members[k].0.as_str(), key) {
                proof {
                    lemma_set_at(before, key@, value@, k as int);
                }
                members.set(k, (key.to_owned(), value));
                let r = Json::Object(members);
                assert(r@->Object_0 =~= before.update(k as int, (key@, value@)));
                return r;
            }
            k = k + 1;
        }
        proof {
            lemma_set_absent(before, key@, value@);
        }
        members.push((key.to_owned(), value));
        let r = Json::Object(members);
        assert(r@->Object_0 =~= before.push((key@, value@)));
        r
    }

    fn to_value(&self) -> (r: serde_json::Value)
        ensures
            value_model(r) == canonical(self@),
        decreases self,
    {
        match self {
            Json::Null => close_value(JsonLayer::Null),
            Json::Bool(b) => close_value(JsonLayer::Bool(*b)),
            Json::Unsigned(n) => close_value(JsonLayer::Unsigned(*n)),
            Json::Negative(n) => close_value(JsonLayer::Negative(*n)),
            Json::Float(n) => close_value(JsonLayer::Float(copy_decimal(n))),
            Json::Str(s) => close_value(JsonLayer::Str(s.clone())),
            Json::Array(items) => {
                let mut out: Vec<serde_json::Value> = Vec::new();
                let mut k: usize = 0;
                while k < items.len()
                    invariant
                        k <= items@.len(),
                        self == Json::Array(*items),
                        out@.len() == k,
                        forall|i: int|
                            0 <= i < k ==> value_model(out@[i]) == canonical(items@[i]@),
                    decreases items@.len() - k,
                {
                    assert(decreases_to!(*self => self->Array_0));
                    assert(decreases_to!(*items => items[k as int]));
                    out.push(items[k].to_value());
                    k = k + 1;
                }
                let layer = JsonLayer::Array(out);
                assert(layer_model(layer)->Array_0 =~= canonical_items(self@->Array_0));
                close_value(layer)
            },
            Json::Object(members) => {
                let mut out: Vec<(String, serde_json::Value)> = Vec::new();
                let mut k: usize = 0;
                while k < members.len()
                    invariant
                        k <= members@.len(),
                        self == Json::Object(*members),
                        out@.len() == k,
                        forall|i: int|
                            0 <= i < k ==> out@[i].0@ == members@[i].0@ && value_model(out@[i].1)
                                == canonical(members@[i].1@),
                    decreases members@.len() - k,
                {
                    assert(decreases_to!(*self => self->Object_0));
                    assert(decreases_to!(*members => members[k as int]));
                    assert(decreases_to!(members[k as int] => members[k as int].1));
                    out.push((members[k].0.clone(), members[k].1.to_value()));
                    k = k + 1;
                }
                let layer = JsonLayer::Object(out);
                assert(layer_model(layer)->Object_0 =~= canonical_members(self@->Object_0));
                close_value(layer)
            },
        }
    }

    /// The indented text of the value.
    pub fn to_pretty(&self) -> (r: String)
        ensures
            r@ == pretty(self@),
    {
        value_pretty(&self.to_value())
    }

    /// The text of the value on one line.
    pub fn to_compact(&self) -> (r: String)
        ensures
            r@ == compact(self@),
    {
        value_compact(&self.to_value())
    }
}

} // verus!
