//! The shared parts of a small compiler's front end: source files, strings,
//! tokens and the lexer, the type table, constant evaluation, diagnostics
//! and scopes. The parser and the binder, which turn the tokens into syntax
//! trees and bound trees on top of these, are not part of this library.
pub mod compiler;
pub mod const_evaluator;
pub mod diagnostics;
pub mod lexer;
pub mod source;
pub mod variables;
pub mod memory;
pub mod traits;
pub mod types;
pub mod typing;
