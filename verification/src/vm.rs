//! The interpreter: byte-addressed memory, four registers and a
//! fetch-decode-execute step.

pub mod alu;
pub mod encode;
pub mod instruction;
pub mod laws;
pub mod machine;
pub mod named_instruction;
pub mod semantics;
pub mod state;
