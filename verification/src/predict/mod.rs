//! The decision logic of the predict modules.
pub mod prompt;
pub mod react;
pub mod code;
pub mod state;
pub mod retry;
pub mod parallel;
