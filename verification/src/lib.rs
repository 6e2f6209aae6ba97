//! Front end of a small statically-typed, expression-oriented scripting
//! language: it turns a pre-tokenized source stream into a validated, typed
//! abstract syntax tree, and provides the scope-indexed type tables that a
//! later analysis pass resolves identifiers against.

pub mod ast;
pub mod diagnostic;
pub mod parser;
pub mod token;
pub mod types;
pub mod typetab;
