//! Reading JSON text.
//!
//! Parsing is serde_json's. What it hands back is then copied, item by item,
//! into the crate's own [`Json`].

use vstd::prelude::*;
use crate::json;
use crate::json::{Json, JsonModel, JsonNumber, JsonObject};

verus! {

// ---------------------------------------------------------------------------
// What serde_json holds and returns
// ---------------------------------------------------------------------------

/// Declares `serde_json::Value`, any JSON value.
#[verifier::external_type_specification]
#[verifier::external_body]
pub struct ExValue(serde_json::Value);

/// Declares `serde_json::Number`, a JSON number.
#[verifier::external_type_specification]
#[verifier::external_body]
pub struct ExNumber(serde_json::Number);

/// Declares `serde_json::Error`, why a text is no JSON value.
#[verifier::external_type_specification]
#[verifier::external_body]
pub struct ExError(serde_json::Error);

/// Declares `serde_json::Map`, the members of a JSON object.
#[verifier::external_type_specification]
#[verifier::external_body]
#[verifier::reject_recursive_types(K)]
#[verifier::reject_recursive_types(V)]
pub struct ExMap<K, V>(serde_json::Map<K, V>);

/// What a `serde_json::Value` holds.
pub uninterp spec fn value_model(value: serde_json::Value) -> JsonModel;

/// The members that a `serde_json::Map` holds, each a name and what its value
/// holds, in the order in which the map is walked.
pub uninterp spec fn map_model(
    map: serde_json::Map<String, serde_json::Value>,
) -> Seq<(Seq<char>, JsonModel)>;

/// What a `serde_json::Number` holds.
pub uninterp spec fn number_model(number: serde_json::Number) -> JsonNumber;

/// What `serde_json::from_str` makes of a text: the value it reads, or nothing
/// where it refuses the text.
pub uninterp spec fn parsed_json(text: Seq<char>) -> Option<JsonModel>;

/// One level of a `serde_json::Value`.
enum JsonNode<'a> {
    Null,
    Bool(bool),
    Number(&'a serde_json::Number),
    Str(&'a String),
    Array(&'a Vec<serde_json::Value>),
    Object(&'a serde_json::Map<String, serde_json::Value>),
}

impl<'a> JsonNode<'a> {
    /// The model of the value that the node is one level of.
    spec fn model(self) -> JsonModel {
        match self {
            JsonNode::Null => JsonModel::Null,
            JsonNode::Bool(b) => JsonModel::Bool(b),
            JsonNode::Number(n) => JsonModel::Number(number_model(*n)),
            JsonNode::Str(s) => JsonModel::Str(s@),
            JsonNode::Array(items) => JsonModel::Array(
                Seq::new(items@.len(), |i: int| value_model(items@[i])),
            ),
            JsonNode::Object(members) => JsonModel::Object(map_model(*members)),
        }
    }
}

/// Calls `serde_json::from_str`. It fails exactly on the texts for which
/// [`parsed_json`] is nothing; otherwise it returns a value with that model.
#[verifier::external_body]
fn value_from_str(text: &str) -> (result: Result<serde_json::Value, serde_json::Error>)
    ensures
        match result {
            Ok(value) => parsed_json(text@) == Some(value_model(value)),
            Err(_) => parsed_json(text@) is None,
        },
{
    serde_json::from_str(text)
}

/// Looks one level into a `serde_json::Value`: which variant it is, and what
/// that variant holds.
#[verifier::external_body]
fn open_value(value: &serde_json::Value) -> (node: JsonNode<'_>)
    ensures
        node.model() == value_model(*value),
{
    match value {
        serde_json::Value::Null => JsonNode::Null,
        serde_json::Value::Bool(b) => JsonNode::Bool(*b),
        serde_json::Value::Number(n) => JsonNode::Number(n),
        serde_json::Value::String(s) => JsonNode::Str(s),
        serde_json::Value::Array(items) => JsonNode::Array(items),
        serde_json::Value::Object(members) => JsonNode::Object(members),
    }
}

/// Calls `serde_json::Map::iter` and collects the names and values that it
/// walks. A map holds each name once.
#[verifier::external_body]
fn map_members<'a>(
    map: &'a serde_json::Map<String, serde_json::Value>,
) -> (members: Vec<(&'a String, &'a serde_json::Value)>)
    ensures
        members@.len() == map_model(*map).len(),
        forall|i: int|
            0 <= i < members@.len() ==> map_model(*map)[i] == (
                (#[trigger] members@[i]).0@,
                value_model(*members@[i].1),
            ),
        forall|i: int, j: int|
            0 <= i < j < members@.len() ==> (#[trigger] members@[i]).0@ != (
            #[trigger] members@[j]).0@,
{
    map.iter().collect()
}

/// Calls `serde_json::Number::as_u64`: the value of a non-negative integer,
/// nothing for a negative integer or a float.
#[verifier::external_body]
fn number_as_u64(number: &serde_json::Number) -> (n: Option<u64>)
    ensures
        n == match number_model(*number) {
            JsonNumber::PosInt(v) => Some(v),
            _ => None,
        },
{
    number.as_u64()
}

/// Calls `serde_json::Number::as_i64`: the value of an integer that fits in
/// 64 signed bits, nothing for a larger one or a float.
#[verifier::external_body]
fn number_as_i64(number: &serde_json::Number) -> (n: Option<i64>)
    ensures
        n == number_model(*number).int_model(),
{
    number.as_i64()
}

/// Calls `serde_json::Number::as_f64` and hands the result on by its bit
/// pattern. There always is one. Of an integer it is left unsaid which float
/// stands for it.
#[verifier::external_body]
fn number_as_float_bits(number: &serde_json::Number) -> (bits: Option<u64>)
    ensures
        bits is Some,
        number_model(*number) is Float ==> bits == Some(number_model(*number)->Float_0),
{
    number.as_f64().map(|x| x.to_bits())
}

// ---------------------------------------------------------------------------
// Copying into the crate's own type
// ---------------------------------------------------------------------------

/// A copy of a number.
fn number_from(number: &serde_json::Number) -> (copy: JsonNumber)
    ensures
        copy == number_model(*number),
{
    match number_as_u64(number) {
        Some(n) => JsonNumber::PosInt(n),
        None => match number_as_i64(number) {
            Some(n) => JsonNumber::NegInt(n),
            None => match number_as_float_bits(number) {
                Some(bits) => JsonNumber::Float(bits),
                None => JsonNumber::Float(0),
            },
        },
    }
}

/// A copy of a value, all of its levels.
fn json_from(value: &serde_json::Value) -> (copy: Json)
    ensures
        copy@ == value_model(*value),
        json::well_formed(copy@),
    decreases value_model(*value),
{
    let node = open_value(value);
    match node {
        JsonNode::Null => Json::Null,
        JsonNode::Bool(b) => Json::Bool(b),
        JsonNode::Number(n) => Json::Number(number_from(n)),
        JsonNode::Str(s) => Json::Str(s.clone()),
        JsonNode::Array(items) => {
            let ghost models = value_model(*value)->Array_0;
            let mut copies: Vec<Json> = Vec::new();
            let mut i: usize = 0;
            while i < items.len()
                invariant
                    i <= items@.len(),
                    value_model(*value) == JsonModel::Array(models),
                    models.len() == items@.len(),
                    forall|j: int| 0 <= j < models.len() ==> models[j] == #[trigger] value_model(items@[j]),
                    copies@.len() == i,
                    forall|j: int|
                        0 <= j < i ==> (#[trigger] copies@[j])@ == models[j] && json::well_formed(
                            models[j],
                        ),
                decreases items@.len() - i,
            {
                assert(decreases_to!(value_model(*value) => value_model(*value)->Array_0));
                assert(decreases_to!(models => models[i as int]));
                copies.push(json_from(&items[i]));
                i += 1;
            }
            assert(json::item_models(copies@) =~= models);
            Json::array(copies)
        },
        JsonNode::Object(map) => {
            let members = map_members(map);
            let ghost models = value_model(*value)->Object_0;
            let mut object = JsonObject::new();
            assert(object@ =~= models.take(0));
            let mut i: usize = 0;
            while i < members.len()
                invariant
                    i <= members@.len(),
                    value_model(*value) == JsonModel::Object(models),
                    models.len() == members@.len(),
                    forall|j: int|
                        0 <= j < models.len() ==> models[j] == ((#[trigger] members@[j]).0@, value_model(*members@[j].1)),
                    object@ == models.take(i as int),
                    forall|j: int| 0 <= j < i ==> json::well_formed((#[trigger] models[j]).1),
                decreases members@.len() - i,
            {
                assert(decreases_to!(value_model(*value) => value_model(*value)->Object_0));
                assert(decreases_to!(models => models[i as int]));
                assert(decreases_to!(models[i as int] => models[i as int].1));
                let (name, member) = members[i];
                object.push(name.as_str(), json_from(member));
                i += 1;
                assert(object@ =~= models.take(i as int));
            }
            assert(object@ =~= models);
            assert(json::distinct_names(models)) by {
                assert forall|j: int, k: int| 0 <= j < k < models.len() implies (
                #[trigger] models[j]).0 != (#[trigger] models[k]).0 by {
                    assert(members@[j].0@ != members@[k].0@);
                }
            }
            object.finish()
        },
    }
}

/// Reads a text as one JSON value.
///
/// Nothing is returned for a text that is no JSON value. Every object in what is
/// returned names each of its members once.
pub fn parse_json(text: &str) -> (parsed: Option<Json>)
    ensures
        json::owned_model(parsed) == parsed_json(text@),
        json::opt_well_formed(parsed_json(text@)),
{
    match value_from_str(text) {
        Ok(value) => Some(json_from(&value)),
        Err(_) => None,
    }
}

} // verus!
