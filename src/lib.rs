//! A JSON-to-JSON templating engine.
//!
//! A spec declares named inputs (inline templates, JSON files, or commands)
//! and an output template. Every string of a template that has the shape
//! `$name path | transform(args) | ...` is replaced by the value it denotes;
//! other values are kept, and arrays and objects are rebuilt in order.
//!
//! The library decides everything: it parses references, resolves inputs in
//! nested `let` scopes, applies the builtins `unwrap`, `map` and `ifelse`,
//! and loads and merges specs. File reads, commands and JSONPath queries are
//! handed to the caller as requests (see [`protocol`]).
use vstd::prelude::*;

pub mod command;
pub mod error;
pub mod eval;
pub mod expr;
pub mod input;
pub mod json;
pub mod laws;
pub mod protocol;
pub mod semantics;
pub mod transformer;
