//! Toolchain for the VC2 machine: a two-pass assembler and a stepping
//! interpreter that share one instruction encoding.

pub mod assembler;
pub mod encoding;
pub mod error;
pub mod inspector;
pub mod instructions;
pub mod laws;
pub mod number;
pub mod parser;
pub mod peripherals;
pub mod picture;
pub mod text;
pub mod vm;
pub mod word;

pub use assembler::passes::Assembler;
pub use assembler::source::assemble;
pub use parser::reader::Parser;
pub use vm::machine::Vm;
