//! Translation of object-oriented, C-family interface declarations into a
//! normalized statement model, together with a renderer that turns each
//! statement into binding source text, and a verified model of the
//! Foundation-style immutable set used by the generated bindings.

pub mod ast;
pub mod config;
pub mod diag;
pub mod laws;
pub mod merge;
pub mod ns_set;
pub mod ns_value;
pub mod parse;
pub mod render;
pub mod resolve;
pub mod stmt;
