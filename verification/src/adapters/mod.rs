//! Adapters: turn a signature's fields, demos and inputs into chat messages,
//! and parse a language model's reply back into field values.
pub mod error;
pub mod chat;
pub mod json_adapter;
pub mod xml_adapter;
