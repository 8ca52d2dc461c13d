//! Laws of the language, proved about the semantics.
//!
//! The executable interpreter computes [`crate::semantics::eval_script`] exactly, so what
//! is proved here of the semantics holds of every run of the interpreter.

pub mod blank;
pub mod commands;
pub mod frames;
pub mod limits;
