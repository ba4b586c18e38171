//! Errors that parsing a reply can give.
use vstd::prelude::*;
use crate::text::concat3;

verus! {

/// Why a reply could not be parsed into the output fields.
#[derive(Debug, Clone)]
pub enum AdapterError {
    /// A chat-format reply lacks this output field.
    MissingField(String),
    /// A JSON reply lacks this output field.
    MissingJsonField(String),
    /// An XML reply lacks this output field.
    MissingXmlField(String),
    /// The reply is not valid JSON: the parser's message and the text.
    InvalidJson { message: String, raw: String },
    /// The reply is JSON but not an object.
    NotAnObject,
    /// The tag pattern of this field did not compile: the field and the message.
    InvalidPattern { field: String, message: String },
}

/// The model of an error: which kind, and the field name, message and raw
/// text it carries.
pub enum ErrorModel {
    MissingField(Seq<char>),
    MissingJsonField(Seq<char>),
    MissingXmlField(Seq<char>),
    InvalidJson(Seq<char>, Seq<char>),
    NotAnObject,
    InvalidPattern(Seq<char>, Seq<char>),
}

impl View for AdapterError {
    type V = ErrorModel;

    open spec fn view(&self) -> ErrorModel {
        match self {
            AdapterError::MissingField(f) => ErrorModel::MissingField(f@),
            AdapterError::MissingJsonField(f) => ErrorModel::MissingJsonField(f@),
            AdapterError::MissingXmlField(f) => ErrorModel::MissingXmlField(f@),
            AdapterError::InvalidJson { message, raw } => ErrorModel::InvalidJson(message@, raw@),
            AdapterError::NotAnObject => ErrorModel::NotAnObject,
            AdapterError::InvalidPattern { field, message } => ErrorModel::InvalidPattern(field@, message@),
        }
    }
}

impl AdapterError {
    /// The message this error is reported with.
    pub fn message(&self) -> (r: String)
        ensures
            match self {
                AdapterError::MissingField(f) => r@ == "Missing output field `"@ + f@ + "` in LM response"@,
                AdapterError::MissingJsonField(f) => r@ == "Missing output field `"@ + f@ + "` in JSON response"@,
                AdapterError::MissingXmlField(f) => r@ == "Missing output field <"@ + f@ + "> in XML response"@,
                AdapterError::InvalidJson { message, raw } => r@ == "Failed to parse JSON response: "@ + message@ + "\nRaw: "@ + raw@,
                AdapterError::NotAnObject => r@ == "Expected JSON object in response"@,
                AdapterError::InvalidPattern { field, message } => r@ == "Invalid regex for field "@ + field@ + ": "@ + message@,
            },
    {
        match self {
            AdapterError::MissingField(f) => concat3("Missing output field `", f.as_str(), "` in LM response"),
            AdapterError::MissingJsonField(f) => concat3("Missing output field `", f.as_str(), "` in JSON response"),
            AdapterError::MissingXmlField(f) => concat3("Missing output field <", f.as_str(), "> in XML response"),
            AdapterError::InvalidJson { message, raw } => {
                let mut r = concat3("Failed to parse JSON response: ", message.as_str(), "\nRaw: ");
                r.append(raw.as_str());
                r
            },
            AdapterError::NotAnObject => "Expected JSON object in response".to_owned(),
            AdapterError::InvalidPattern { field, message } => {
                let mut r = concat3("Invalid regex for field ", field.as_str(), ": ");
                r.append(message.as_str());
                r
            },
        }
    }
}

} // verus!
