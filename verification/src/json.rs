//! JSON documents as trees of plain values.
//!
//! Reading and writing JSON text is `serde_json`'s work; this module holds
//! the tree that the rest of the crate reads and builds, and the conversions
//! between that tree and `serde_json::Value`.

use crate::text::same_text;
use vstd::prelude::*;

verus! {

/// A JSON document.
///
/// A number is kept only if it is an unsigned integer of at most 64 bits;
/// any other number is `Number(None)`. An object keeps its members in
/// document order.
#[derive(Debug, PartialEq, Eq)]
pub enum Json {
    Null,
    Bool(bool),
    Number(Option<u64>),
    Text(String),
    List(Vec<Json>),
    Object(Vec<(String, Json)>),
}

/// The mathematical value of a [`Json`] tree.
pub enum JsonValue {
    Null,
    Bool(bool),
    Number(Option<u64>),
    Text(Seq<char>),
    List(Seq<JsonValue>),
    Object(Seq<(Seq<char>, JsonValue)>),
}

/// The value of a tree.
pub open spec fn tree_value(doc: Json) -> JsonValue
    decreases doc,
{
    match doc {
        Json::Null => JsonValue::Null,
        Json::Bool(b) => JsonValue::Bool(b),
        Json::Number(n) => JsonValue::Number(n),
        Json::Text(s) => JsonValue::Text(s@),
        Json::List(items) => JsonValue::List(
            Seq::new(
                items@.len(),
                |i: int|
                    if 0 <= i < items@.len() {
                        tree_value(items@[i])
                    } else {
                        JsonValue::Null
                    },
            ),
        ),
        Json::Object(members) => JsonValue::Object(
            Seq::new(
                members@.len(),
                |i: int|
                    if 0 <= i < members@.len() {
                        (members@[i].0@, tree_value(members@[i].1))
                    } else {
                        (Seq::empty(), JsonValue::Null)
                    },
            ),
        ),
    }
}

impl View for Json {
    type V = JsonValue;

    open spec fn view(&self) -> JsonValue {
        tree_value(*self)
    }
}

impl DeepView for Json {
    type V = JsonValue;

    open spec fn deep_view(&self) -> JsonValue {
        tree_value(*self)
    }
}

/// The value of each tree of a sequence.
pub open spec fn items_view(items: Seq<Json>) -> Seq<JsonValue> {
    Seq::new(items.len(), |i: int| items[i]@)
}

/// The key and value of each member of a sequence.
pub open spec fn members_view(members: Seq<(String, Json)>) -> Seq<(Seq<char>, JsonValue)> {
    Seq::new(members.len(), |i: int| (members[i].0@, members[i].1@))
}

/// The value of a list is the list of its items' values.
pub proof fn lemma_list_view(items: Vec<Json>)
    ensures
        Json::List(items)@ == JsonValue::List(items_view(items@)),
{
    assert(tree_value(Json::List(items))->List_0.len() == items@.len());
    assert(Json::List(items)@->List_0 =~= items_view(items@));
}

/// The value of an object is the sequence of its members' keys and values.
pub proof fn lemma_object_view(members: Vec<(String, Json)>)
    ensures
        Json::Object(members)@ == JsonValue::Object(members_view(members@)),
{
    assert(Json::Object(members)@->Object_0 =~= members_view(members@));
}

impl JsonValue {
    /// The value of the first member named `key`, if this is an object that
    /// has one.
    pub open spec fn field(self, key: Seq<char>) -> Option<JsonValue> {
        match self {
            JsonValue::Object(members) => first_member(members, key),
            _ => None,
        }
    }

    /// Whether this document can be written as text: see [`printable`].
    pub open spec fn printable(self) -> bool {
        printable(self)
    }
}

/// Whether a document can be handed to `serde_json` as it is: every number
/// is kept, and no object names a member twice.
pub open spec fn printable(doc: JsonValue) -> bool
    decreases doc,
{
    match doc {
        JsonValue::Number(n) => n is Some,
        JsonValue::List(items) => forall|i: int|
            0 <= i < items.len() ==> printable(#[trigger] items[i]),
        JsonValue::Object(members) => {
            &&& distinct_keys(members)
            &&& forall|i: int| 0 <= i < members.len() ==> printable((#[trigger] members[i]).1)
        },
        _ => true,
    }
}

/// A list is printable exactly when each of its items is.
pub proof fn lemma_printable_list(items: Seq<JsonValue>)
    ensures
        printable(JsonValue::List(items)) <==> forall|i: int|
            0 <= i < items.len() ==> printable(#[trigger] items[i]),
{
    let doc = JsonValue::List(items);
    assert(doc->List_0 == items);
    assert forall|i: int| 0 <= i < items.len() implies decreases_to!(doc => doc->List_0[i]) by {}
}

/// An object is printable exactly when its keys are distinct and each of its
/// members' values is printable.
pub proof fn lemma_printable_object(members: Seq<(Seq<char>, JsonValue)>)
    ensures
        printable(JsonValue::Object(members)) <==> distinct_keys(members) && forall|i: int|
            0 <= i < members.len() ==> printable((#[trigger] members[i]).1),
{
    let doc = JsonValue::Object(members);
    assert(doc->Object_0 == members);
    assert forall|i: int| 0 <= i < members.len() implies decreases_to!(doc => doc->Object_0[i].1) by {}
}

/// The value of the first member named `key`.
pub open spec fn first_member(members: Seq<(Seq<char>, JsonValue)>, key: Seq<char>) -> Option<
    JsonValue,
> {
    member_from(members, key, 0)
}

/// The value of the first member named `key` at or after position `from`.
pub open spec fn member_from(members: Seq<(Seq<char>, JsonValue)>, key: Seq<char>, from: int) -> Option<
    JsonValue,
>
    decreases members.len() - from,
{
    if from < 0 || from >= members.len() {
        None
    } else if members[from].0 == key {
        Some(members[from].1)
    } else {
        member_from(members, key, from + 1)
    }
}

/// No two members share a key.
pub open spec fn distinct_keys<T>(members: Seq<(Seq<char>, T)>) -> bool {
    forall|i: int, j: int|
        0 <= i < j < members.len() ==> (#[trigger] members[i]).0 != (#[trigger] members[j]).0
}

/// `serde_json::Value`, of which nothing is known but what the functions
/// below say.
#[verifier::external_type_specification]
#[verifier::external_body]
pub struct ExValue(serde_json::Value);

/// The document that a `serde_json::Value` holds.
pub uninterp spec fn value_model(v: serde_json::Value) -> JsonValue;

/// The document that `serde_json` reads from a text, if it reads one.
pub uninterp spec fn parsed_json(text: Seq<char>) -> Option<JsonValue>;

/// The text that `serde_json` writes for a printable document, if it writes
/// one.
pub uninterp spec fn printed_json(doc: JsonValue) -> Option<Seq<char>>;

/// The documents that a sequence of `serde_json::Value`s holds.
pub open spec fn values_model(items: Seq<serde_json::Value>) -> Seq<JsonValue> {
    Seq::new(items.len(), |i: int| value_model(items[i]))
}

/// The members that a sequence of keyed `serde_json::Value`s holds.
pub open spec fn entries_model(members: Seq<(String, serde_json::Value)>) -> Seq<
    (Seq<char>, JsonValue),
> {
    Seq::new(members.len(), |i: int| (members[i].0@, value_model(members[i].1)))
}

/// The top level of a `serde_json::Value`; what lies below is still held by
/// `serde_json`.
enum Shape<'a> {
    Null,
    Bool(bool),
    Number(Option<u64>),
    Text(&'a String),
    List(&'a Vec<serde_json::Value>),
    Object(Vec<(&'a String, &'a serde_json::Value)>),
}

impl<'a> Shape<'a> {
    spec fn model(self) -> JsonValue {
        match self {
            Shape::Null => JsonValue::Null,
            Shape::Bool(b) => JsonValue::Bool(b),
            Shape::Number(n) => JsonValue::Number(n),
            Shape::Text(s) => JsonValue::Text(s@),
            Shape::List(items) => JsonValue::List(values_model(items@)),
            Shape::Object(members) => JsonValue::Object(
                Seq::new(
                    members@.len(),
                    |i: int| (members@[i].0@, value_model(*members@[i].1)),
                ),
            ),
        }
    }
}

/// `serde_json::from_str` at `serde_json::Value`: the value read from `text`,
/// or `None` where `serde_json` reports an error.
#[verifier::external_body]
fn value_from_text(text: &str) -> (r: Option<serde_json::Value>)
    ensures
        r matches Some(v) ==> parsed_json(text@) == Some(value_model(v)),
        r is None ==> parsed_json(text@) is None,
{
    serde_json::from_str::<serde_json::Value>(text).ok()
}

/// `serde_json::to_string` on a `serde_json::Value`: the text written for it,
/// or `None` where `serde_json` reports an error. The text of a value all of
/// whose numbers are kept in its document is settled by that document.
#[verifier::external_body]
fn text_from_value(v: &serde_json::Value) -> (r: Option<String>)
    requires
        printable(value_model(*v)),
    ensures
        r matches Some(s) ==> printed_json(value_model(*v)) == Some(s@),
        r is None ==> printed_json(value_model(*v)) is None,
{
    serde_json::to_string(v).ok()
}

/// Tells the variants of `serde_json::Value` apart and hands out what the
/// top one holds: a number through `Number::as_u64`, the members of an
/// object in the order in which `Map::iter` yields them.
#[verifier::external_body]
fn value_shape<'a>(v: &'a serde_json::Value) -> (r: Shape<'a>)
    ensures
        r.model() == value_model(*v),
{
    match v {
        serde_json::Value::Null => Shape::Null,
        serde_json::Value::Bool(b) => Shape::Bool(*b),
        serde_json::Value::Number(n) => Shape::Number(n.as_u64()),
        serde_json::Value::String(s) => Shape::Text(s),
        serde_json::Value::Array(items) => Shape::List(items),
        serde_json::Value::Object(members) => Shape::Object(members.iter().collect()),
    }
}

/// `serde_json::Value::Null`.
#[verifier::external_body]
fn value_null() -> (r: serde_json::Value)
    ensures
        value_model(r) == JsonValue::Null,
{
    serde_json::Value::Null
}

/// `serde_json::Value::Bool`.
#[verifier::external_body]
fn value_bool(b: bool) -> (r: serde_json::Value)
    ensures
        value_model(r) == JsonValue::Bool(b),
{
    serde_json::Value::Bool(b)
}

/// `From<u64> for serde_json::Value`: the number `n`, for which
/// `Number::as_u64` gives `n` back.
#[verifier::external_body]
fn value_number(n: u64) -> (r: serde_json::Value)
    ensures
        value_model(r) == JsonValue::Number(Some(n)),
{
    serde_json::Value::from(n)
}

/// `serde_json::Value::String`.
#[verifier::external_body]
fn value_text(s: String) -> (r: serde_json::Value)
    ensures
        value_model(r) == JsonValue::Text(s@),
{
    serde_json::Value::String(s)
}

/// `serde_json::Value::Array`.
#[verifier::external_body]
fn value_list(items: Vec<serde_json::Value>) -> (r: serde_json::Value)
    ensures
        value_model(r) == JsonValue::List(values_model(items@)),
{
    serde_json::Value::Array(items)
}

/// `serde_json::Value::Object` over `Map::from_iter`. With keys that are all
/// different, and a map that keeps insertion order, the object holds the
/// members as given.
#[verifier::external_body]
fn value_object(members: Vec<(String, serde_json::Value)>) -> (r: serde_json::Value)
    requires
        distinct_keys(entries_model(members@)),
    ensures
        value_model(r) == JsonValue::Object(entries_model(members@)),
{
    serde_json::Value::Object(members.into_iter().collect())
}

impl Json {
    /// The tree that a `serde_json::Value` holds.
    fn from_value(v: &serde_json::Value) -> (r: Json)
        ensures
            r@ == value_model(*v),
        decreases value_model(*v),
    {
        match value_shape(v) {
            Shape::Null => Json::Null,
            Shape::Bool(b) => Json::Bool(b),
            Shape::Number(n) => Json::Number(n),
            Shape::Text(s) => Json::Text(s.clone()),
            Shape::List(items) => {
                let mut out: Vec<Json> = Vec::new();
                let mut i: usize = 0;
                while i < items.len()
                    invariant
                        i <= items.len(),
                        out@.len() == i,
                        value_model(*v) == JsonValue::List(values_model(items@)),
                        forall|k: int| 0 <= k < i ==> (#[trigger] out@[k])@ == value_model(items@[k]),
                    decreases items.len() - i,
                {
                    assert(value_model(*v)->List_0[i as int] == value_model(items@[i as int]));
                    let item = Json::from_value(&items[i]);
                    out.push(item);
                    i += 1;
                }
                let r = Json::List(out);
                assert(r@->List_0 =~= values_model(items@));
                r
            },
            Shape::Object(members) => {
                let ghost model = Shape::Object(members).model();
                let mut out: Vec<(String, Json)> = Vec::new();
                let mut i: usize = 0;
                while i < members.len()
                    invariant
                        i <= members.len(),
                        out@.len() == i,
                        model == Shape::Object(members).model(),
                        value_model(*v) == model,
                        forall|k: int|
                            0 <= k < i ==> (#[trigger] out@[k]).0@ == members@[k].0@ && out@[k].1@
                                == value_model(*members@[k].1),
                    decreases members.len() - i,
                {
                    assert(model->Object_0[i as int].1 == value_model(*members@[i as int].1));
                    let value = Json::from_value(members[i].1);
                    out.push((members[i].0.clone(), value));
                    i += 1;
                }
                let r = Json::Object(out);
                assert(r@->Object_0 =~= model->Object_0);
                r
            },
        }
    }

    /// The `serde_json::Value` that holds this tree.
    fn to_value(&self) -> (r: serde_json::Value)
        requires
            self@.printable(),
        ensures
            value_model(r) == self@,
        decreases self,
    {
        match self {
            Json::Null => value_null(),
            Json::Bool(b) => value_bool(*b),
            Json::Number(n) => match n {
                Some(n) => value_number(*n),
                None => value_null(),
            },
            Json::Text(s) => value_text(s.clone()),
            Json::List(items) => {
                proof {
                    lemma_list_view(*items);
                }
                let mut out: Vec<serde_json::Value> = Vec::new();
                let mut i: usize = 0;
                while i < items.len()
                    invariant
                        i <= items.len(),
                        out@.len() == i,
                        self@.printable(),
                        self == Json::List(*items),
                        self@ == JsonValue::List(items_view(items@)),
                        forall|k: int|
                            0 <= k < i ==> value_model(#[trigger] out@[k]) == items@[k]@,
                    decreases items.len() - i,
                {
                    proof {
                        lemma_printable_list(items_view(items@));
                    }
                    assert(printable(items_view(items@)[i as int]));
                    let item = items[i].to_value();
                    out.push(item);
                    i += 1;
                }
                assert(values_model(out@) =~= items_view(items@));
                value_list(out)
            },
            Json::Object(members) => {
                proof {
                    lemma_object_view(*members);
                }
                let mut out: Vec<(String, serde_json::Value)> = Vec::new();
                let mut i: usize = 0;
                while i < members.len()
                    invariant
                        i <= members.len(),
                        out@.len() == i,
                        self@.printable(),
                        self == Json::Object(*members),
                        self@ == JsonValue::Object(members_view(members@)),
                        forall|k: int|
                            0 <= k < i ==> (#[trigger] out@[k]).0@ == members@[k].0@
                                && value_model(out@[k].1) == members@[k].1@,
                    decreases members.len() - i,
                {
                    proof {
                        lemma_printable_object(members_view(members@));
                    }
                    assert(printable(members_view(members@)[i as int].1));
                    let value = members[i].1.to_value();
                    out.push((members[i].0.clone(), value));
                    i += 1;
                }
                assert(entries_model(out@) =~= members_view(members@));
                value_object(out)
            },
        }
    }

    /// Whether the tree can be written as text: every number in it is kept,
    /// and no object in it names a member twice.
    pub fn is_printable(&self) -> (r: bool)
        ensures
            r == self@.printable(),
        decreases self,
    {
        match self {
            Json::Number(n) => n.is_some(),
            Json::List(items) => {
                proof {
                    lemma_list_view(*items);
                }
                let ghost model = items_view(items@);
                proof {
                    lemma_printable_list(model);
                }
                let mut i: usize = 0;
                while i < items.len()
                    invariant
                        i <= items.len(),
                        self == Json::List(*items),
                        model == items_view(items@),
                        self@ == JsonValue::List(model),
                        printable(JsonValue::List(model)) <==> forall|k: int|
                            0 <= k < model.len() ==> printable(#[trigger] model[k]),
                        forall|k: int| 0 <= k < i ==> printable(#[trigger] model[k]),
                    decreases items.len() - i,
                {
                    if !items[i].is_printable() {
                        assert(!printable(model[i as int]));
                        return false;
                    }
                    i += 1;
                }
                true
            },
            Json::Object(members) => {
                proof {
                    lemma_object_view(*members);
                }
                let ghost model = members_view(members@);
                proof {
                    lemma_printable_object(model);
                }
                let mut i: usize = 0;
                while i < members.len()
                    invariant
                        i <= members.len(),
                        self == Json::Object(*members),
                        model == members_view(members@),
                        self@ == JsonValue::Object(model),
                        printable(JsonValue::Object(model)) <==> distinct_keys(model) && forall|
                            k: int,
                        | 0 <= k < model.len() ==> printable((#[trigger] model[k]).1),
                        forall|k: int| 0 <= k < i ==> printable((#[trigger] model[k]).1),
                        forall|k: int, l: int|
                            0 <= k < l < members.len() && k < i ==> (#[trigger] model[k]).0 != (
                            #[trigger] model[l]).0,
                    decreases members.len() - i,
                {
                    if !members[i].1.is_printable() {
                        assert(!printable(model[i as int].1));
                        return false;
                    }
                    let mut j: usize = i + 1;
                    while j < members.len()
                        invariant
                            i < j <= members.len(),
                            model == members_view(members@),
                            self@ == JsonValue::Object(model),
                            printable(JsonValue::Object(model)) ==> distinct_keys(model),
                            forall|l: int| i < l < j ==> model[i as int].0 != (#[trigger] model[l]).0,
                        decreases members.len() - j,
                    {
                        if members[i].0 == members[j].0 {
                            assert(model[i as int].0 == model[j as int].0);
                            return false;
                        }
                        j += 1;
                    }
                    i += 1;
                }
                true
            },
            _ => true,
        }
    }

    /// Writes the tree as JSON text. `None` where the tree is not printable,
    /// or where `serde_json` reports an error.
    pub fn to_text(&self) -> (r: Option<String>)
        ensures
            self@.printable() ==> (match r {
                Some(s) => printed_json(self@) == Some(s@),
                None => printed_json(self@) is None,
            }),
            !self@.printable() ==> r is None,
    {
        if self.is_printable() {
            let v = self.to_value();
            text_from_value(&v)
        } else {
            None
        }
    }

    /// The first member named `key`, if this is an object that has one.
    pub fn get(&self, key: &str) -> (r: Option<&Json>)
        ensures
            r matches Some(v) ==> self@.field(key@) == Some(v@),
            r is None ==> self@.field(key@) is None,
    {
        match self {
            Json::Object(members) => {
                proof {
                    lemma_object_view(*members);
                }
                let ghost model = members_view(members@);
                let mut i: usize = 0;
                while i < members.len()
                    invariant
                        i <= members.len(),
                        model == members_view(members@),
                        self@ == JsonValue::Object(model),
                        first_member(model, key@) == member_from(model, key@, i as int),
                    decreases members.len() - i,
                {
                    assert(model[i as int] == (members@[i as int].0@, members@[i as int].1@));
                    if same_text(members[i].0.as_str(), key) {
                        return Some(&members[i].1);
                    }
                    i += 1;
                }
                None
            },
            _ => None,
        }
    }

    /// Reads a JSON text. `None` where `serde_json` rejects the text.
    pub fn parse(text: &str) -> (r: Option<Json>)
        ensures
            r matches Some(doc) ==> parsed_json(text@) == Some(doc@),
            r is None ==> parsed_json(text@) is None,
    {
        match value_from_text(text) {
            Some(v) => Some(Json::from_value(&v)),
            None => None,
        }
    }
}

} // verus!
