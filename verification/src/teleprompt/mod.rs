//! The optimizers' own logic: choosing demos and instructions, and
//! combining the answers of several programs.
pub mod fewshot;
pub mod instructions;
pub mod ensemble;
pub mod finetune;
