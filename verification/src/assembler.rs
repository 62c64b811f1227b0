//! The two-pass assembler: items in, a flat byte image out.

pub mod laws;
pub mod model;
pub mod passes;
pub mod source;
pub mod symbols;
