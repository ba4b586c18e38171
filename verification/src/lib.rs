//! Declarative signatures, prompt formats, module decisions and optimizer
//! choices for programming language models, each with a verified contract.
pub mod text;
pub mod value;
pub mod example;
pub mod prediction;
pub mod message;
pub mod signature;
pub mod patterns;
pub mod json;
pub mod adapters;
pub mod metrics;
pub mod evaluate;
pub mod usage;
pub mod predict;
pub mod streaming;
pub mod teleprompt;
pub mod retrieve;
pub mod provider;
