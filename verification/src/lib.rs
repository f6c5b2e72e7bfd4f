//! Incremental bracket matching and highlight diffing for a code editor.
//!
//! The crate scans raw text for bracket delimiters, resolves them into
//! well-nested pairs with nesting depth, derives authoritative pairs and
//! tagged highlight spans from a syntax tree, answers innermost-enclosing
//! bracket queries, and turns successive highlight snapshots into minimal
//! add/remove change sets.

pub mod bridge;
pub mod engine;
pub mod tree;
pub mod lexer;
pub mod offsets;
pub mod package;
pub mod parser;
pub mod ser;
pub mod symbols;
pub mod text;
pub mod values;
