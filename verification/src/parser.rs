//! The parser: source text in, items out.

pub mod grammar;
pub mod reader;
