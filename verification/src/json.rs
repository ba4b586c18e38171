//! JSON reading and writing through `serde_json`.
use vstd::prelude::*;
use crate::example::{Example, EntryModel, entry_models, distinct_keys, lemma_set_all_id};
use crate::value::{FieldValue, ValueModel};

verus! {

/// A parsed JSON text: invalid (with the parser's message), an object (its
/// members, each value as a field value), or another value.
#[derive(Debug)]
pub enum JsonDoc {
    Invalid(String),
    Object(Vec<(String, FieldValue)>),
    Other(FieldValue),
}

/// The model of a parsed JSON text.
pub enum JsonModel {
    Invalid(Seq<char>),
    Object(Seq<EntryModel>),
    Other(ValueModel),
}

/// The model of a `JsonDoc`.
pub open spec fn json_model(d: JsonDoc) -> JsonModel {
    match d {
        JsonDoc::Invalid(m) => JsonModel::Invalid(m@),
        JsonDoc::Object(v) => JsonModel::Object(entry_models(v@)),
        JsonDoc::Other(v) => JsonModel::Other(v@),
    }
}

/// What `serde_json::from_str::<Value>` gives for a text.
pub uninterp spec fn spec_parse_json(text: Seq<char>) -> JsonModel;

/// What `serde_json::to_string` gives for the JSON object whose members are
/// the given entries, set in order.
pub uninterp spec fn spec_json_object_text(entries: Seq<EntryModel>) -> Seq<char>;

/// Wraps `serde_json::from_str::<serde_json::Value>`: parses `text` as JSON.
/// A string becomes `FieldValue::Str`; any other value keeps its compact JSON
/// text.  The members of an object have distinct names, as a JSON map's keys
/// are.
#[verifier::external_body]
pub(crate) fn parse_json(text: &str) -> (r: JsonDoc)
    ensures
        json_model(r) == spec_parse_json(text@),
        r matches JsonDoc::Object(v) ==> distinct_keys(entry_models(v@)),
{
    match serde_json::from_str::<serde_json::Value>(text) {
        Err(e) => JsonDoc::Invalid(e.to_string()),
        Ok(serde_json::Value::Object(m)) => JsonDoc::Object(
            m.into_iter().map(|(k, v)| match v {
                serde_json::Value::String(s) => (k, FieldValue::Str(s)),
                other => (k, FieldValue::Json(other.to_string())),
            }).collect(),
        ),
        Ok(serde_json::Value::String(s)) => JsonDoc::Other(FieldValue::Str(s)),
        Ok(other) => JsonDoc::Other(FieldValue::Json(other.to_string())),
    }
}

/// Wraps `serde_json::to_string` of a `serde_json::Value::Object`: the JSON
/// text of the object whose members are `entries`, inserted in order (a
/// string field becomes a JSON string; another field's JSON text is read
/// back into its value).
#[verifier::external_body]
pub(crate) fn json_object_text(entries: &[(String, FieldValue)]) -> (r: String)
    ensures
        r@ == spec_json_object_text(entry_models(entries@)),
{
    let mut m = serde_json::Map::new();
    for (k, v) in entries {
        let value = match v {
            FieldValue::Str(s) => serde_json::Value::String(s.clone()),
            FieldValue::Json(t) => serde_json::from_str(t).unwrap_or(serde_json::Value::Null),
        };
        m.insert(k.clone(), value);
    }
    serde_json::to_string(&serde_json::Value::Object(m)).unwrap_or_default()
}

/// The JSON text of an example's fields: an object with one member per field.
pub fn fields_to_json(example: &Example) -> (r: String)
    ensures
        r@ == spec_json_object_text(example@.entries),
{
    json_object_text(example.iter())
}

/// The example whose fields are the members of a JSON object text; none
/// where the text is not a JSON object.
pub fn fields_from_json(text: &str) -> (r: Option<Example>)
    ensures
        match spec_parse_json(text@) {
            JsonModel::Object(members) => r matches Some(e) && e@.entries == members && e@.input_keys is None,
            _ => r is None,
        },
{
    match parse_json(text) {
        JsonDoc::Object(members) => {
            proof {
                lemma_set_all_id(entry_models(members@));
            }
            Some(Example::from_map(members))
        },
        _ => None,
    }
}

} // verus!
