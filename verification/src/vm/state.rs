//! The mathematical model of the machine: its state and what reading and
//! writing registers and memory mean.

use crate::encoding::{Register, Selector};
use crate::word::{be_bytes, word_at, Word};
use vstd::prelude::*;

verus! {

/// Why a step of the machine failed.
#[derive(Clone, Copy, Debug, PartialEq, Eq, Structural)]
pub enum VmError {
    /// The program counter points at or past the end of memory.
    OutOfInstructions,
    /// A byte of the instruction lies at or past the end of memory.
    MissingByte { index: Word },
    /// The opcode byte is not in the opcode table.
    UnknownInstruction(u8),
    /// The packet pairs a destination and a source that the instruction does not accept.
    InvalidCombination { destination: Selector, source: Selector },
    /// A NOT was given an immediate, which has nothing to negate.
    NotImmediate,
    /// A word access reaches past the end of memory.
    MemoryOutOfRange { address: Word },
    /// The divisor of DIV, IDIV or REM is zero.
    DivisionByZero,
}

impl VmError {
    /// The text that describes this kind of failure.
    pub open spec fn text(self) -> Seq<char> {
        match self {
            VmError::OutOfInstructions => "out of instructions"@,
            VmError::MissingByte { .. } => "cannot get current byte"@,
            VmError::UnknownInstruction(_) => "unrecognized instruction"@,
            VmError::InvalidCombination { .. } => "invalid selector/destination combo"@,
            VmError::NotImmediate => "invalid selector 'immediate' for not instruction"@,
            VmError::MemoryOutOfRange { .. } => "cannot get memory word"@,
            VmError::DivisionByZero => "division by zero"@,
        }
    }

    /// Describes the failure in words.
    pub fn message(&self) -> (message: String)
        ensures
            message@ == self.text(),
    {
        match self {
            VmError::OutOfInstructions => String::from_str("out of instructions"),
            VmError::MissingByte { .. } => String::from_str("cannot get current byte"),
            VmError::UnknownInstruction(_) => String::from_str("unrecognized instruction"),
            VmError::InvalidCombination { .. } => String::from_str(
                "invalid selector/destination combo",
            ),
            VmError::NotImmediate => String::from_str(
                "invalid selector 'immediate' for not instruction",
            ),
            VmError::MemoryOutOfRange { .. } => String::from_str("cannot get memory word"),
            VmError::DivisionByZero => String::from_str("division by zero"),
        }
    }
}

/// The four registers of the machine.
#[derive(Clone, Copy, Debug, PartialEq, Eq, Structural)]
pub struct VmRegisters {
    pub general_purpose_0: Word,
    pub general_purpose_1: Word,
    pub flag: Word,
    pub program_counter: Word,
}

impl VmRegisters {
    /// The value that `register` holds.
    pub open spec fn get(self, register: Register) -> Word {
        match register {
            Register::GeneralPurpose0 => self.general_purpose_0,
            Register::GeneralPurpose1 => self.general_purpose_1,
            Register::Flag => self.flag,
            Register::ProgramCounter => self.program_counter,
        }
    }

    /// These registers with `register` holding `value`.
    pub open spec fn set(self, register: Register, value: Word) -> VmRegisters {
        match register {
            Register::GeneralPurpose0 => VmRegisters { general_purpose_0: value, ..self },
            Register::GeneralPurpose1 => VmRegisters { general_purpose_1: value, ..self },
            Register::Flag => VmRegisters { flag: value, ..self },
            Register::ProgramCounter => VmRegisters { program_counter: value, ..self },
        }
    }
}

/// A decoded operand: where a value is read from, and where one is written to.
#[derive(Clone, Copy, Debug, PartialEq, Eq, Structural)]
pub enum Operand {
    /// The register itself.
    Register(Register),
    /// The word that follows the packet.
    Immediate(Word),
    /// The memory word whose byte address the register holds.
    RegisterAddress(Register),
    /// The memory word whose byte address follows the packet.
    ImmediateAddress(Word),
}

/// Everything the machine holds between two steps.
pub struct VmState {
    /// Code and data, addressed by byte.
    pub memory: Seq<u8>,
    pub registers: VmRegisters,
    /// Where the program counter stood after the last HLT, while the halt lasts.
    pub hlt_location: Option<Word>,
}

impl VmState {
    /// Every byte of memory has a 32-bit address.
    pub open spec fn wf(self) -> bool {
        self.memory.len() <= u32::MAX
    }

    /// The program counter.
    pub open spec fn pc(self) -> Word {
        self.registers.program_counter
    }

    /// This state with the program counter at `pc`.
    pub open spec fn with_pc(self, pc: Word) -> VmState {
        VmState { registers: self.registers.set(Register::ProgramCounter, pc), ..self }
    }

    /// This state with `register` holding `value`.
    pub open spec fn write_register(self, register: Register, value: Word) -> VmState {
        VmState { registers: self.registers.set(register, value), ..self }
    }

    /// Whether the four bytes of the word at `address` lie inside memory.
    pub open spec fn in_range(self, address: Word) -> bool {
        address + 4 <= self.memory.len()
    }

    /// The big-endian word at `address`.
    pub open spec fn read_word(self, address: Word) -> Result<Word, VmError> {
        if self.in_range(address) {
            Ok(word_at(self.memory, address as int))
        } else {
            Err(VmError::MemoryOutOfRange { address })
        }
    }

    /// Memory after the big-endian bytes of `value` are stored from `address` on.
    /// Bytes that would fall past the end of memory are not stored.
    pub open spec fn stored(self, address: Word, value: Word) -> Seq<u8> {
        Seq::new(
            self.memory.len(),
            |i: int|
                if address <= i < address + 4 {
                    be_bytes(value)[i - address]
                } else {
                    self.memory[i]
                },
        )
    }

    /// This state after a word write at `address`.
    pub open spec fn write_word(self, address: Word, value: Word) -> VmState {
        VmState { memory: self.stored(address, value), ..self }
    }

    /// Whether a word write at `address` is reported as done.
    pub open spec fn write_result(self, address: Word) -> Result<(), VmError> {
        if self.in_range(address) {
            Ok(())
        } else {
            Err(VmError::MemoryOutOfRange { address })
        }
    }

    /// The value of an operand.
    pub open spec fn value(self, operand: Operand) -> Result<Word, VmError> {
        match operand {
            Operand::Register(register) => Ok(self.registers.get(register)),
            Operand::Immediate(immediate) => Ok(immediate),
            Operand::RegisterAddress(register) => self.read_word(self.registers.get(register)),
            Operand::ImmediateAddress(address) => self.read_word(address),
        }
    }

    /// This state after `value` is written to the place that `operand` names.
    /// An immediate names no place: the value is dropped.
    pub open spec fn store(self, operand: Operand, value: Word) -> VmState {
        match operand {
            Operand::Register(register) => self.write_register(register, value),
            Operand::Immediate(_) => self,
            Operand::RegisterAddress(register) => self.write_word(
                self.registers.get(register),
                value,
            ),
            Operand::ImmediateAddress(address) => self.write_word(address, value),
        }
    }
}

/// A word that was written is the word that is read back.
pub proof fn lemma_read_after_write(state: VmState, address: Word, value: Word)
    requires
        state.in_range(address),
    ensures
        state.write_word(address, value).read_word(address) == Ok::<Word, VmError>(value),
{
    crate::word::lemma_word_of_be_bytes(value);
}

/// Writing back the word that memory holds changes nothing.
pub proof fn lemma_write_same_word(state: VmState, address: Word)
    requires
        state.in_range(address),
    ensures
        state.write_word(address, word_at(state.memory, address as int)) == state,
{
    let a = address as int;
    crate::word::lemma_be_bytes_of_word(
        state.memory[a],
        state.memory[a + 1],
        state.memory[a + 2],
        state.memory[a + 3],
    );
    assert(state.stored(address, word_at(state.memory, a)) =~= state.memory);
}

/// Of two writes of a word at one address, only the second is seen.
pub proof fn lemma_write_twice(state: VmState, address: Word, first: Word, second: Word)
    ensures
        state.write_word(address, first).write_word(address, second) == state.write_word(
            address,
            second,
        ),
{
    assert(state.write_word(address, first).stored(address, second) =~= state.stored(
        address,
        second,
    ));
}

} // verus!
