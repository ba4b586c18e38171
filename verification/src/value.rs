//! The values that the fields of an `Example` hold.
use vstd::prelude::*;

verus! {

/// A field value: a JSON string, or any other JSON value kept as its compact
/// JSON text (a number, a boolean, `null`, an array or an object).
#[derive(Debug, Clone, PartialEq, Eq)]
pub enum FieldValue {
    /// A JSON string.
    Str(String),
    /// Any other JSON value, as its compact JSON text.
    Json(String),
}

/// The mathematical model of a `FieldValue`.
pub enum ValueModel {
    Str(Seq<char>),
    Json(Seq<char>),
}

impl View for FieldValue {
    type V = ValueModel;

    open spec fn view(&self) -> ValueModel {
        match self {
            FieldValue::Str(s) => ValueModel::Str(s@),
            FieldValue::Json(t) => ValueModel::Json(t@),
        }
    }
}

/// The text a value is shown as in a prompt: a string as it is, any other
/// value as its JSON text.
pub open spec fn value_text(v: ValueModel) -> Seq<char> {
    match v {
        ValueModel::Str(s) => s,
        ValueModel::Json(t) => t,
    }
}

/// The string a value holds, if it is a string.
pub open spec fn value_str(v: ValueModel) -> Option<Seq<char>> {
    match v {
        ValueModel::Str(s) => Some(s),
        ValueModel::Json(_) => None,
    }
}

impl FieldValue {
    /// A string value.
    pub fn string(s: &str) -> (r: FieldValue)
        ensures
            r@ == ValueModel::Str(s@),
    {
        FieldValue::Str(s.to_owned())
    }

    /// The string this value holds, if it is a string.
    pub fn as_str(&self) -> (r: Option<&str>)
        ensures
            match r {
                Some(s) => value_str(self@) == Some(s@),
                None => value_str(self@) is None,
            },
    {
        match self {
            FieldValue::Str(s) => Some(s.as_str()),
            FieldValue::Json(_) => None,
        }
    }

    /// The text this value is shown as in a prompt.
    pub fn to_text(&self) -> (r: String)
        ensures
            r@ == value_text(self@),
    {
        match self {
            FieldValue::Str(s) => s.clone(),
            FieldValue::Json(t) => t.clone(),
        }
    }

    /// A copy of this value.
    pub fn duplicate(&self) -> (r: FieldValue)
        ensures
            r@ == self@,
    {
        match self {
            FieldValue::Str(s) => FieldValue::Str(s.clone()),
            FieldValue::Json(t) => FieldValue::Json(t.clone()),
        }
    }
}

} // verus!
