//! A small Tcl-like command interpreter with machine-checked contracts.
//!
//! A script is a sequence of commands; a command is a sequence of words; everything is text.
//! [`PicolInterpreter::eval`] evaluates a script and is proved to compute the function
//! [`semantics::eval_script`], which defines the language.
//!
//! - [`text`]: character classes, runs of characters, decimal integers.
//! - [`lexer`]: the tokens of a script, as a function and as the executable [`PicolParser`].
//! - [`semantics`]: the state of an interpreter and the meaning of scripts and commands.
//! - [`table`], [`frame`]: tables keyed by text, and the call frames built on them.
//! - [`interp`], [`commands`]: the executable interpreter and its built-in commands.
//! - [`laws`]: what holds of every script.

pub mod commands;
pub mod frame;
pub mod interp;
pub mod laws;
pub mod lexer;
pub mod semantics;
pub mod table;
pub mod text;

pub use crate::interp::PicolInterpreter;
pub use crate::lexer::{PicolParser, PicolType};
pub use crate::semantics::PicolResult;
