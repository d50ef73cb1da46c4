//! JSON values as the filter language sees them.
//!
//! The parser looks at the kind of a value, at the characters of a string and
//! at the items of an array. Numbers and objects are only carried from the
//! request to the argument list, so they stay in the form `serde_json` gives
//! them.

use vstd::prelude::*;
use vstd::string::*;

verus! {

/// `serde_json::Number`: carried through, never looked into.
#[verifier::external_type_specification]
#[verifier::external_body]
pub struct ExNumber(serde_json::Number);

/// `serde_json::Map`: carried through, never looked into.
#[verifier::external_type_specification]
#[verifier::external_body]
#[verifier::reject_recursive_types(K)]
#[verifier::reject_recursive_types(V)]
pub struct ExMap<K, V>(serde_json::Map<K, V>);

/// `serde_json::Value`: read through [`open`], built through [`close`].
#[verifier::external_type_specification]
#[verifier::external_body]
pub struct ExValue(serde_json::Value);

/// `Number::clone` of `serde_json`: the copy is the same number.
pub assume_specification[ <serde_json::Number as Clone>::clone ](
    number: &serde_json::Number,
) -> (res: serde_json::Number)
    ensures
        res == *number,
;

/// `Map::clone` of `serde_json`: the copy holds the same entries.
pub assume_specification[ <serde_json::Map<
    std::string::String,
    serde_json::Value,
> as Clone>::clone ](
    map: &serde_json::Map<std::string::String, serde_json::Value>,
) -> (res: serde_json::Map<std::string::String, serde_json::Value>)
    ensures
        res == *map,
;

/// A JSON value.
#[derive(Debug, PartialEq, Eq)]
pub enum Json {
    Null,
    Bool(bool),
    Number(serde_json::Number),
    String(String),
    Array(Vec<Json>),
    Object(serde_json::Map<String, serde_json::Value>),
}

/// What a [`Json`] value is, with strings and arrays as sequences.
pub enum JsonModel {
    Null,
    Bool(bool),
    Number(serde_json::Number),
    String(Seq<char>),
    Array(Seq<JsonModel>),
    Object(serde_json::Map<String, serde_json::Value>),
}

/// One level of a `serde_json::Value`: the items of an array are left closed.
pub(crate) enum Opened {
    Null,
    Bool(bool),
    Number(serde_json::Number),
    String(String),
    Array(Vec<serde_json::Value>),
    Object(serde_json::Map<String, serde_json::Value>),
}

/// What a `serde_json::Value` holds.
pub uninterp spec fn content(value: serde_json::Value) -> JsonModel;

/// The compact JSON text of a value.
pub uninterp spec fn compact(value: JsonModel) -> Seq<char>;

impl Json {
    pub open spec fn model(self) -> JsonModel
        decreases self,
    {
        match self {
            Json::Null => JsonModel::Null,
            Json::Bool(b) => JsonModel::Bool(b),
            Json::Number(n) => JsonModel::Number(n),
            Json::String(s) => JsonModel::String(s@),
            Json::Array(items) => JsonModel::Array(
                Seq::new(
                    items@.len(),
                    |i: int|
                        if 0 <= i < items@.len() {
                            items@[i].model()
                        } else {
                            arbitrary()
                        },
                ),
            ),
            Json::Object(map) => JsonModel::Object(map),
        }
    }
}

impl View for Json {
    type V = JsonModel;

    open spec fn view(&self) -> JsonModel {
        self.model()
    }
}

impl Opened {
    /// What the opened value holds, its items taken by their content.
    pub(crate) open spec fn model(self) -> JsonModel {
        match self {
            Opened::Null => JsonModel::Null,
            Opened::Bool(b) => JsonModel::Bool(b),
            Opened::Number(n) => JsonModel::Number(n),
            Opened::String(s) => JsonModel::String(s@),
            Opened::Array(items) => JsonModel::Array(
                items@.map_values(|item: serde_json::Value| content(item)),
            ),
            Opened::Object(map) => JsonModel::Object(map),
        }
    }
}

/// Tells the variants of `serde_json::Value` apart and hands out the payload.
#[verifier::external_body]
fn open(value: serde_json::Value) -> (res: Opened)
    ensures
        res.model() == content(value),
{
    match value {
        serde_json::Value::Null => Opened::Null,
        serde_json::Value::Bool(b) => Opened::Bool(b),
        serde_json::Value::Number(n) => Opened::Number(n),
        serde_json::Value::String(s) => Opened::String(s),
        serde_json::Value::Array(items) => Opened::Array(items),
        serde_json::Value::Object(map) => Opened::Object(map),
    }
}

/// Builds the variant of `serde_json::Value` with the given payload.
#[verifier::external_body]
fn close(opened: Opened) -> (res: serde_json::Value)
    ensures
        content(res) == opened.model(),
{
    match opened {
        Opened::Null => serde_json::Value::Null,
        Opened::Bool(b) => serde_json::Value::Bool(b),
        Opened::Number(n) => serde_json::Value::Number(n),
        Opened::String(s) => serde_json::Value::String(s),
        Opened::Array(items) => serde_json::Value::Array(items),
        Opened::Object(map) => serde_json::Value::Object(map),
    }
}

/// `Value::to_string` of `serde_json`, through its `Display`: the compact JSON
/// text, which depends on nothing but what the value holds.
#[verifier::external_body]
fn to_compact(value: &serde_json::Value) -> (res: String)
    ensures
        res@ == compact(content(*value)),
{
    value.to_string()
}

impl Clone for Json {
    fn clone(&self) -> (res: Self)
        ensures
            res@ == self@,
        decreases self,
    {
        match self {
            Json::Null => Json::Null,
            Json::Bool(b) => Json::Bool(*b),
            Json::Number(n) => Json::Number(n.clone()),
            Json::String(s) => Json::String(s.clone()),
            Json::Array(items) => {
                let mut copies: Vec<Json> = Vec::new();
                for i in 0..items.len()
                    invariant
                        *self is Array,
                        self->Array_0 == *items,
                        copies@.len() == i,
                        forall|j: int| 0 <= j < i ==> (#[trigger] copies@[j])@ == items@[j]@,
                {
                    assert(decreases_to!(*self => self->Array_0));
                    assert(decreases_to!(*items => items[i as int]));
                    copies.push(items[i].clone());
                }
                let res = Json::Array(copies);
                assert(res@->Array_0 =~= self@->Array_0);
                res
            },
            Json::Object(map) => Json::Object(map.clone()),
        }
    }
}

impl Json {
    /// Takes over a value of `serde_json`.
    pub fn from_value(value: serde_json::Value) -> (res: Json)
        ensures
            res@ == content(value),
        decreases content(value),
    {
        match open(value) {
            Opened::Null => Json::Null,
            Opened::Bool(b) => Json::Bool(b),
            Opened::Number(n) => Json::Number(n),
            Opened::String(s) => Json::String(s),
            Opened::Array(items) => {
                let ghost all = items@;
                let mut taken: Vec<Json> = Vec::new();
                for item in it: items
                    invariant
                        it.seq() == all,
                        content(value) is Array,
                        content(value)->Array_0.len() == all.len(),
                        forall|j: int|
                            0 <= j < all.len() ==> content(#[trigger] all[j]) == content(
                                value,
                            )->Array_0[j],
                        taken@.len() == it.index(),
                        forall|j: int|
                            0 <= j < taken@.len() ==> (#[trigger] taken@[j])@ == content(all[j]),
                {
                    let ghost at = taken@.len() as int;
                    assert(item == all[at]);
                    assert(decreases_to!(content(value) => content(value)->Array_0));
                    assert(decreases_to!(content(value)->Array_0 => content(value)->Array_0[at]));
                    taken.push(Json::from_value(item));
                }
                let res = Json::Array(taken);
                assert(res@->Array_0 =~= content(value)->Array_0);
                res
            },
            Opened::Object(map) => Json::Object(map),
        }
    }

    /// Hands the value to `serde_json`.
    pub fn to_value(&self) -> (res: serde_json::Value)
        ensures
            content(res) == self@,
        decreases self,
    {
        match self {
            Json::Null => close(Opened::Null),
            Json::Bool(b) => close(Opened::Bool(*b)),
            Json::Number(n) => close(Opened::Number(n.clone())),
            Json::String(s) => close(Opened::String(s.clone())),
            Json::Array(items) => {
                let mut values: Vec<serde_json::Value> = Vec::new();
                for i in 0..items.len()
                    invariant
                        *self is Array,
                        self->Array_0 == *items,
                        values@.len() == i,
                        forall|j: int|
                            0 <= j < i ==> content(#[trigger] values@[j]) == items@[j]@,
                {
                    assert(decreases_to!(*self => self->Array_0));
                    assert(decreases_to!(*items => items[i as int]));
                    values.push(items[i].to_value());
                }
                let opened = Opened::Array(values);
                assert(opened.model()->Array_0 =~= self@->Array_0);
                close(opened)
            },
            Json::Object(map) => close(Opened::Object(map.clone())),
        }
    }

    /// The compact JSON text of the value.
    pub fn to_text(&self) -> (res: String)
        ensures
            res@ == compact(self@),
    {
        to_compact(&self.to_value())
    }
}

} // verus!
