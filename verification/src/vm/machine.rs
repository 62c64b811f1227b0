//! The machine itself: memory, registers, and the step that decodes and
//! executes one instruction.

use crate::encoding::{split_packet, Register, Selector};
use crate::vm::alu::Action;
use crate::vm::instruction::{
    build_two_operand, decode, decode_operand, decode_pair, lands, ConditionalJmpConfig,
    ConditionalJmpVariant, Config, Instruction, JmpConfig, JmpVariant, MathOpVariant, NotConfig,
};
use crate::vm::named_instruction::{NamedInstruction, Shape};
use crate::vm::state::{Operand, VmError, VmRegisters, VmState};
use crate::word::{from_be_bytes, to_be_bytes, word_at, Word};
use vstd::prelude::*;

verus! {

/// A VC2 machine.
pub struct Vm {
    memory: Vec<u8>,
    registers: VmRegisters,
    hlt_location: Option<Word>,
}

impl View for Vm {
    type V = VmState;

    closed spec fn view(&self) -> VmState {
        VmState {
            memory: self.memory@,
            registers: self.registers,
            hlt_location: self.hlt_location,
        }
    }
}

/// The text of the error for a machine whose addresses do not fit a word pointer.
pub fn invalid_architecture_message() -> (message: String)
    ensures
        message@ == "architecture should support 32 bit word pointers"@,
{
    String::from_str("architecture should support 32 bit word pointers")
}

impl Vm {
    /// Loads `instructions` at address 0 of a zeroed memory of `memory_size`
    /// bytes, with every register zero.
    pub fn new(instructions: Vec<u8>, memory_size: usize) -> (vm: Vm)
        requires
            instructions.len() <= memory_size <= u32::MAX,
        ensures
            vm@ == VmState::fresh(instructions@, memory_size as nat),
            vm@.wf(),
    {
        let mut memory: Vec<u8> = Vec::new();
        let mut index: usize = 0;
        while index < memory_size
            invariant
                index <= memory_size,
                instructions.len() <= memory_size,
                memory.len() == index,
                forall|i: int|
                    0 <= i < index ==> memory[i] == (if i < instructions.len() {
                        instructions[i]
                    } else {
                        0u8
                    }),
            decreases memory_size - index,
        {
            let byte = if index < instructions.len() {
                instructions[index]
            } else {
                0
            };
            memory.push(byte);
            index += 1;
        }
        assert(memory@ =~= VmState::fresh(instructions@, memory_size as nat).memory);
        Vm {
            memory,
            hlt_location: None,
            registers: VmRegisters {
                general_purpose_0: 0,
                general_purpose_1: 0,
                flag: 0,
                program_counter: 0,
            },
        }
    }

    /// How many bytes of memory the machine has.
    pub fn memory_size(&self) -> (size: usize)
        ensures
            size == self@.memory.len(),
    {
        self.memory.len()
    }

    /// Whether the program counter points inside memory.
    pub fn has_instruction(&self) -> (inside: bool)
        ensures
            inside == self@.has_instruction(),
    {
        (self.registers.program_counter as usize) < self.memory.len()
    }

    /// Whether the machine is halted.
    pub fn is_halted(&self) -> (halted: bool)
        ensures
            halted == self@.halted(),
    {
        match self.hlt_location {
            Some(location) => location == self.registers.program_counter,
            None => false,
        }
    }

    /// The byte at the program counter.
    fn current_byte(&self) -> (byte: Result<u8, VmError>)
        ensures
            self@.has_instruction() ==> byte == Ok::<u8, VmError>(
                self@.memory[self@.pc() as int],
            ),
            !self@.has_instruction() ==> byte == Err::<u8, VmError>(
                VmError::MissingByte { index: self@.pc() },
            ),
    {
        let index = self.registers.program_counter as usize;
        if index < self.memory.len() {
            Ok(self.memory[index])
        } else {
            Err(VmError::MissingByte { index: self.registers.program_counter })
        }
    }

    /// Moves the program counter to the next byte.
    fn step(&mut self)
        requires
            old(self)@.pc() < u32::MAX,
        ensures
            final(self)@ == old(self)@.with_pc((old(self)@.pc() + 1) as Word),
    {
        self.registers.program_counter += 1;
    }

    /// Reads the four bytes at the program counter as a big-endian word and
    /// moves past them. Where memory ends first, the program counter stops at
    /// its end.
    fn consume_immediate(&mut self) -> (immediate: Result<u32, VmError>)
        requires
            old(self)@.wf(),
            old(self)@.pc() <= old(self)@.memory.len(),
        ensures
            final(self)@ == old(self)@.with_pc(final(self)@.pc()),
            old(self)@.pc() + 4 <= old(self)@.memory.len() ==> immediate == Ok::<u32, VmError>(
                word_at(old(self)@.memory, old(self)@.pc() as int),
            ) && final(self)@.pc() == old(self)@.pc() + 4,
            old(self)@.pc() + 4 > old(self)@.memory.len() ==> immediate == Err::<u32, VmError>(
                VmError::MissingByte { index: old(self)@.memory.len() as Word },
            ) && final(self)@.pc() == old(self)@.memory.len(),
    {
        let byte_0 = match self.current_byte() {
            Ok(byte) => byte,
            Err(error) => { return Err(error); },
        };
        self.step();
        let byte_1 = match self.current_byte() {
            Ok(byte) => byte,
            Err(error) => { return Err(error); },
        };
        self.step();
        let byte_2 = match self.current_byte() {
            Ok(byte) => byte,
            Err(error) => { return Err(error); },
        };
        self.step();
        let byte_3 = match self.current_byte() {
            Ok(byte) => byte,
            Err(error) => { return Err(error); },
        };
        self.step();
        Ok(from_be_bytes(byte_0, byte_1, byte_2, byte_3))
    }

    /// Decodes one operand: a register operand takes nothing from memory, an
    /// immediate operand takes the word at the program counter.
    fn parse_operand(&mut self, selector: Selector, register: Register) -> (operand: Result<
        Operand,
        VmError,
    >)
        requires
            old(self)@.wf(),
            old(self)@.pc() <= old(self)@.memory.len(),
        ensures
            final(self)@ == old(self)@.with_pc(final(self)@.pc()),
            final(self)@.pc() <= old(self)@.memory.len(),
            match decode_operand(old(self)@.memory, selector, register, old(self)@.pc() as int) {
                Some((decoded, next)) => {
                    &&& operand == Ok::<Operand, VmError>(decoded)
                    &&& final(self)@.pc() == next
                    &&& decoded.selector() == selector
                },
                None => operand == Err::<Operand, VmError>(
                    VmError::MissingByte { index: old(self)@.memory.len() as Word },
                ) && final(self)@.pc() == old(self)@.memory.len(),
            },
    {
        match selector {
            Selector::Register => Ok(Operand::Register(register)),
            Selector::RegisterAddress => Ok(Operand::RegisterAddress(register)),
            Selector::Immediate => match self.consume_immediate() {
                Ok(immediate) => Ok(Operand::Immediate(immediate)),
                Err(error) => Err(error),
            },
            Selector::ImmediateAddress => match self.consume_immediate() {
                Ok(immediate) => Ok(Operand::ImmediateAddress(immediate)),
                Err(error) => Err(error),
            },
        }
    }

    /// Decodes a destination and then a source.
    fn parse_pair(
        &mut self,
        destination_selector: Selector,
        source_selector: Selector,
        destination: Register,
        source: Register,
    ) -> (pair: Result<(Operand, Operand), VmError>)
        requires
            old(self)@.wf(),
            old(self)@.pc() <= old(self)@.memory.len(),
        ensures
            final(self)@ == old(self)@.with_pc(final(self)@.pc()),
            match decode_pair(
                old(self)@.memory,
                destination_selector,
                destination,
                source_selector,
                source,
                old(self)@.pc() as int,
            ) {
                Some((first, second, next)) => pair == Ok::<(Operand, Operand), VmError>(
                    (first, second),
                ) && final(self)@.pc() == next && first.selector() == destination_selector
                    && second.selector() == source_selector,
                None => pair == Err::<(Operand, Operand), VmError>(
                    VmError::MissingByte { index: old(self)@.memory.len() as Word },
                ) && final(self)@.pc() == old(self)@.memory.len(),
            },
    {
        let first = match self.parse_operand(destination_selector, destination) {
            Ok(operand) => operand,
            Err(error) => { return Err(error); },
        };
        let second = match self.parse_operand(source_selector, source) {
            Ok(operand) => operand,
            Err(error) => { return Err(error); },
        };
        Ok((first, second))
    }

    /// Decodes the operands of a two-operand instruction from the program
    /// counter on, for a pair of selectors that such an instruction accepts.
    fn parse_target(
        &mut self,
        destination_selector: Selector,
        source_selector: Selector,
        destination: Register,
        source: Register,
    ) -> (config: Result<Config, VmError>)
        requires
            old(self)@.wf(),
            old(self)@.pc() <= old(self)@.memory.len(),
            Config::allows(destination_selector, source_selector),
        ensures
            final(self)@ == old(self)@.with_pc(final(self)@.pc()),
            match decode_pair(
                old(self)@.memory,
                destination_selector,
                destination,
                source_selector,
                source,
                old(self)@.pc() as int,
            ) {
                Some((first, second, next)) => config == Ok::<Config, VmError>(
                    Config::of(first, second).unwrap(),
                ) && final(self)@.pc() == next,
                None => config == Err::<Config, VmError>(
                    VmError::MissingByte { index: old(self)@.memory.len() as Word },
                ) && final(self)@.pc() == old(self)@.memory.len(),
            },
    {
        match self.parse_pair(destination_selector, source_selector, destination, source) {
            Err(error) => Err(error),
            Ok((first, second)) => match Config::from_operands(first, second) {
                Some(config) => Ok(config),
                None => Err(
                    VmError::InvalidCombination {
                        destination: destination_selector,
                        source: source_selector,
                    },
                ),
            },
        }
    }

    /// Decodes the operands of a conditional jump from the program counter
    /// on, for a pair of selectors that such a jump accepts.
    fn parse_conditional_jmp_target(
        &mut self,
        destination_selector: Selector,
        source_selector: Selector,
        destination: Register,
        source: Register,
    ) -> (config: Result<ConditionalJmpConfig, VmError>)
        requires
            old(self)@.wf(),
            old(self)@.pc() <= old(self)@.memory.len(),
            ConditionalJmpConfig::allows(destination_selector, source_selector),
        ensures
            final(self)@ == old(self)@.with_pc(final(self)@.pc()),
            match decode_pair(
                old(self)@.memory,
                destination_selector,
                destination,
                source_selector,
                source,
                old(self)@.pc() as int,
            ) {
                Some((first, second, next)) => config == Ok::<ConditionalJmpConfig, VmError>(
                    ConditionalJmpConfig::of(first, second).unwrap(),
                ) && final(self)@.pc() == next,
                None => config == Err::<ConditionalJmpConfig, VmError>(
                    VmError::MissingByte { index: old(self)@.memory.len() as Word },
                ) && final(self)@.pc() == old(self)@.memory.len(),
            },
    {
        match self.parse_pair(destination_selector, source_selector, destination, source) {
            Err(error) => Err(error),
            Ok((first, second)) => match ConditionalJmpConfig::from_operands(first, second) {
                Some(config) => Ok(config),
                None => Err(
                    VmError::InvalidCombination {
                        destination: destination_selector,
                        source: source_selector,
                    },
                ),
            },
        }
    }

    /// Moves past the opcode and reads the operand packet, staying on it.
    fn parse_packet(&mut self) -> (packet: Result<u8, VmError>)
        requires
            old(self)@.wf(),
            old(self)@.has_instruction(),
        ensures
            final(self)@ == old(self)@.with_pc((old(self)@.pc() + 1) as Word),
            old(self)@.pc() + 1 < old(self)@.memory.len() ==> packet == Ok::<u8, VmError>(
                old(self)@.memory[old(self)@.pc() + 1],
            ),
            old(self)@.pc() + 1 >= old(self)@.memory.len() ==> packet == Err::<u8, VmError>(
                VmError::MissingByte { index: (old(self)@.pc() + 1) as Word },
            ),
    {
        self.step();
        self.current_byte()
    }

    /// Decodes a two-operand instruction that is no conditional jump, from
    /// its opcode on.
    fn parse_two_operand(&mut self, named: NamedInstruction) -> (instruction: Result<
        Instruction,
        VmError,
    >)
        requires
            old(self)@.wf(),
            old(self)@.has_instruction(),
            NamedInstruction::of_opcode(old(self)@.memory[old(self)@.pc() as int]) == Some(named),
            named.shape() == Shape::TwoOperand,
            named != NamedInstruction::Jz,
            named != NamedInstruction::Jnz,
        ensures
            lands(
                old(self)@,
                final(self)@,
                instruction,
                decode(old(self)@.memory, old(self)@.pc()),
            ),
    {
        let input = match self.parse_packet() {
            Ok(byte) => byte,
            Err(error) => { return Err(error); },
        };
        let fields = split_packet(input);
        if !Config::accepts(&fields.destination_selector, &fields.source_selector) {
            return Err(
                VmError::InvalidCombination {
                    destination: fields.destination_selector,
                    source: fields.source_selector,
                },
            );
        }
        self.step();
        match self.parse_target(
            fields.destination_selector,
            fields.source_selector,
            fields.destination,
            fields.source,
        ) {
            Ok(config) => Ok(build_two_operand(named, config)),
            Err(error) => Err(error),
        }
    }

    /// Decodes a MOV from its opcode on.
    fn parse_mov(&mut self) -> (instruction: Result<Instruction, VmError>)
        requires
            old(self)@.wf(),
            old(self)@.has_instruction(),
            NamedInstruction::of_opcode(old(self)@.memory[old(self)@.pc() as int]) == Some(
                NamedInstruction::Mov,
            ),
        ensures
            lands(
                old(self)@,
                final(self)@,
                instruction,
                decode(old(self)@.memory, old(self)@.pc()),
            ),
    {
        self.parse_two_operand(NamedInstruction::Mov)
    }

    /// Decodes a NOP.
    fn parse_nop(&mut self) -> (instruction: Result<Instruction, VmError>)
        requires
            old(self)@.wf(),
            old(self)@.has_instruction(),
            NamedInstruction::of_opcode(old(self)@.memory[old(self)@.pc() as int]) == Some(
                NamedInstruction::Nop,
            ),
        ensures
            lands(
                old(self)@,
                final(self)@,
                instruction,
                decode(old(self)@.memory, old(self)@.pc()),
            ),
    {
        self.step();
        Ok(Instruction::Nop)
    }

    /// Decodes a HLT.
    fn parse_hlt(&mut self) -> (instruction: Result<Instruction, VmError>)
        requires
            old(self)@.wf(),
            old(self)@.has_instruction(),
            NamedInstruction::of_opcode(old(self)@.memory[old(self)@.pc() as int]) == Some(
                NamedInstruction::Hlt,
            ),
        ensures
            lands(
                old(self)@,
                final(self)@,
                instruction,
                decode(old(self)@.memory, old(self)@.pc()),
            ),
    {
        self.step();
        Ok(Instruction::Hlt)
    }

    /// Decodes a NOT from its opcode on. Its packet holds one selector, in
    /// the top two bits, and one register index, in bits 2 and 3.
    fn parse_not(&mut self) -> (instruction: Result<Instruction, VmError>)
        requires
            old(self)@.wf(),
            old(self)@.has_instruction(),
            NamedInstruction::of_opcode(old(self)@.memory[old(self)@.pc() as int]) == Some(
                NamedInstruction::Not,
            ),
        ensures
            lands(
                old(self)@,
                final(self)@,
                instruction,
                decode(old(self)@.memory, old(self)@.pc()),
            ),
    {
        let input = match self.parse_packet() {
            Ok(byte) => byte,
            Err(error) => { return Err(error); },
        };
        let fields = split_packet(input);
        match fields.destination_selector {
            Selector::Immediate => { return Err(VmError::NotImmediate); },
            _ => {},
        }
        self.step();
        match self.parse_operand(fields.destination_selector, fields.destination) {
            Err(error) => Err(error),
            Ok(operand) => match NotConfig::from_operand(operand) {
                Some(config) => Ok(Instruction::Not(config)),
                None => Err(VmError::NotImmediate),
            },
        }
    }

    /// Decodes a JMP from its opcode on. The low bit of its packet tells an
    /// absolute jump from a relative one.
    fn parse_jmp(&mut self) -> (instruction: Result<Instruction, VmError>)
        requires
            old(self)@.wf(),
            old(self)@.has_instruction(),
            NamedInstruction::of_opcode(old(self)@.memory[old(self)@.pc() as int]) == Some(
                NamedInstruction::Jmp,
            ),
        ensures
            lands(
                old(self)@,
                final(self)@,
                instruction,
                decode(old(self)@.memory, old(self)@.pc()),
            ),
    {
        let input = match self.parse_packet() {
            Ok(byte) => byte,
            Err(error) => { return Err(error); },
        };
        let fields = split_packet(input);
        self.step();
        match self.parse_operand(fields.destination_selector, fields.destination) {
            Err(error) => Err(error),
            Ok(operand) => Ok(
                Instruction::Jmp(JmpConfig::from_operand(operand), JmpVariant::from_packet(input)),
            ),
        }
    }

    /// Decodes a JZ or a JNZ from its opcode on.
    fn parse_conditional_jmp(&mut self) -> (instruction: Result<Instruction, VmError>)
        requires
            old(self)@.wf(),
            old(self)@.has_instruction(),
            ({
                let named = NamedInstruction::of_opcode(old(self)@.memory[old(self)@.pc() as int]);
                named == Some(NamedInstruction::Jz) || named == Some(NamedInstruction::Jnz)
            }),
        ensures
            lands(
                old(self)@,
                final(self)@,
                instruction,
                decode(old(self)@.memory, old(self)@.pc()),
            ),
    {
        let opcode = match self.current_byte() {
            Ok(byte) => byte,
            Err(error) => { return Err(error); },
        };
        let input = match self.parse_packet() {
            Ok(byte) => byte,
            Err(error) => { return Err(error); },
        };
        let fields = split_packet(input);
        if !ConditionalJmpConfig::accepts(&fields.destination_selector, &fields.source_selector) {
            return Err(
                VmError::InvalidCombination {
                    destination: fields.destination_selector,
                    source: fields.source_selector,
                },
            );
        }
        self.step();
        let config = match self.parse_conditional_jmp_target(
            fields.destination_selector,
            fields.source_selector,
            fields.destination,
            fields.source,
        ) {
            Ok(config) => config,
            Err(error) => { return Err(error); },
        };
        match NamedInstruction::try_from(opcode) {
            Ok(NamedInstruction::Jz) => Ok(Instruction::Jz(config)),
            _ => Ok(Instruction::Jnz(config)),
        }
    }

    /// Decodes one of the two-operand instructions that compute, from its
    /// opcode on.
    fn parse_math_op(&mut self) -> (instruction: Result<Instruction, VmError>)
        requires
            old(self)@.wf(),
            old(self)@.has_instruction(),
            ({
                let named = NamedInstruction::of_opcode(old(self)@.memory[old(self)@.pc() as int]);
                &&& named is Some
                &&& named.unwrap().shape() == Shape::TwoOperand
                &&& named != Some(NamedInstruction::Jz)
                &&& named != Some(NamedInstruction::Jnz)
            }),
        ensures
            lands(
                old(self)@,
                final(self)@,
                instruction,
                decode(old(self)@.memory, old(self)@.pc()),
            ),
    {
        let opcode = match self.current_byte() {
            Ok(byte) => byte,
            Err(error) => { return Err(error); },
        };
        match NamedInstruction::try_from(opcode) {
            Ok(named) => self.parse_two_operand(named),
            Err(byte) => Err(VmError::UnknownInstruction(byte)),
        }
    }

    /// Decodes the instruction at the program counter.
    fn parse_next_instruction(&mut self) -> (instruction: Result<Instruction, VmError>)
        requires
            old(self)@.wf(),
            old(self)@.has_instruction(),
        ensures
            lands(
                old(self)@,
                final(self)@,
                instruction,
                decode(old(self)@.memory, old(self)@.pc()),
            ),
    {
        let current_byte = match self.current_byte() {
            Ok(byte) => byte,
            Err(error) => { return Err(error); },
        };
        let next = match NamedInstruction::try_from(current_byte) {
            Ok(named) => named,
            Err(byte) => {
                assert(self@ == old(self)@.with_pc(old(self)@.pc()));
                return Err(VmError::UnknownInstruction(byte));
            },
        };
        match next {
            NamedInstruction::Nop => self.parse_nop(),
            NamedInstruction::Hlt => self.parse_hlt(),
            NamedInstruction::Mov => self.parse_mov(),
            NamedInstruction::Or
            | NamedInstruction::And
            | NamedInstruction::Xor
            | NamedInstruction::Shl
            | NamedInstruction::Shr
            | NamedInstruction::Add
            | NamedInstruction::Sub
            | NamedInstruction::Mul
            | NamedInstruction::IMul
            | NamedInstruction::Div
            | NamedInstruction::IDiv
            | NamedInstruction::Rem
            | NamedInstruction::Cmp => self.parse_math_op(),
            NamedInstruction::Not => self.parse_not(),
            NamedInstruction::Jmp => self.parse_jmp(),
            NamedInstruction::Jz | NamedInstruction::Jnz => self.parse_conditional_jmp(),
        }
    }

    /// The value that `register` holds.
    pub fn register_value(&self, register: &Register) -> (value: Word)
        ensures
            value == self@.registers.get(*register),
    {
        match register {
            Register::GeneralPurpose0 => self.registers.general_purpose_0,
            Register::GeneralPurpose1 => self.registers.general_purpose_1,
            Register::Flag => self.registers.flag,
            Register::ProgramCounter => self.registers.program_counter,
        }
    }

    /// Gives `register` a new value. Writing the program counter ends a halt.
    pub fn set_register_value(&mut self, register: &Register, value: Word)
        ensures
            final(self)@ == old(self)@.write_register(*register, value),
    {
        match register {
            Register::GeneralPurpose0 => self.registers.general_purpose_0 = value,
            Register::GeneralPurpose1 => self.registers.general_purpose_1 = value,
            Register::Flag => self.registers.flag = value,
            Register::ProgramCounter => self.registers.program_counter = value,
        }
    }

    /// Stores `value` big-endian in the four bytes from `address` on. Where
    /// memory ends before the fourth byte, the bytes that fit are stored and
    /// the write is reported as failed.
    pub fn set_memory_value(&mut self, address: &Word, value: Word) -> (written: Result<
        (),
        VmError,
    >)
        requires
            old(self)@.wf(),
        ensures
            final(self)@ == old(self)@.write_word(*address, value),
            written == old(self)@.write_result(*address),
    {
        let bytes = to_be_bytes(value);
        let base = *address as usize;
        let mut offset: usize = 0;
        while offset < 4
            invariant
                offset <= 4,
                base == *address,
                bytes@ == crate::word::be_bytes(value),
                self@.wf(),
                self.memory.len() == old(self).memory.len(),
                self.registers == old(self).registers,
                self.hlt_location == old(self).hlt_location,
                offset > 0 ==> base + offset <= self.memory.len(),
                forall|i: int|
                    0 <= i < self.memory.len() ==> self.memory[i] == (if base <= i < base
                        + offset {
                        bytes[i - base]
                    } else {
                        old(self).memory[i]
                    }),
            decreases 4 - offset,
        {
            if base >= self.memory.len() || offset >= self.memory.len() - base {
                assert(self.memory@ =~= old(self)@.stored(*address, value));
                return Err(VmError::MemoryOutOfRange { address: *address });
            }
            self.memory.set(base + offset, bytes[offset]);
            offset += 1;
        }
        assert(self.memory@ =~= old(self)@.stored(*address, value));
        Ok(())
    }

    /// The big-endian word in the four bytes from `address` on.
    pub fn memory_value(&self, address: &Word) -> (value: Result<Word, VmError>)
        ensures
            value == self@.read_word(*address),
    {
        let base = *address as usize;
        let size = self.memory.len();
        if size < 4 || base > size - 4 {
            return Err(VmError::MemoryOutOfRange { address: *address });
        }
        Ok(
            from_be_bytes(
                self.memory[base],
                self.memory[base + 1],
                self.memory[base + 2],
                self.memory[base + 3],
            ),
        )
    }

    /// The value of an operand.
    fn operand_value(&self, operand: &Operand) -> (value: Result<Word, VmError>)
        ensures
            value == self@.value(*operand),
    {
        match operand {
            Operand::Register(register) => Ok(self.register_value(register)),
            Operand::Immediate(immediate) => Ok(*immediate),
            Operand::RegisterAddress(register) => {
                let address = self.register_value(register);
                self.memory_value(&address)
            },
            Operand::ImmediateAddress(address) => self.memory_value(address),
        }
    }

    /// Writes `value` to the place that `operand` names; an immediate names none.
    fn store_operand(&mut self, operand: &Operand, value: Word) -> (written: Result<(), VmError>)
        requires
            old(self)@.wf(),
            old(self)@.value(*operand) is Ok,
        ensures
            final(self)@ == old(self)@.store(*operand, value),
            final(self)@.wf(),
            written == Ok::<(), VmError>(()),
    {
        match operand {
            Operand::Register(register) => {
                self.set_register_value(register, value);
                Ok(())
            },
            Operand::Immediate(_) => Ok(()),
            Operand::RegisterAddress(register) => {
                let address = self.register_value(register);
                self.set_memory_value(&address, value)
            },
            Operand::ImmediateAddress(address) => self.set_memory_value(address, value),
        }
    }

    /// Executes a two-operand instruction: reads both operands, lets
    /// `action` compute, writes the destination and then the flag register.
    fn run_action_with_config(&mut self, config: Config, action: Action) -> (done: Result<
        (),
        VmError,
    >)
        requires
            old(self)@.wf(),
        ensures
            (final(self)@, done) == old(self)@.after_action(config, action),
            final(self)@.wf(),
    {
        let destination = config.destination_operand();
        let source = config.source_operand();
        let destination_value = match self.operand_value(&destination) {
            Ok(value) => value,
            Err(error) => { return Err(error); },
        };
        let source_value = match self.operand_value(&source) {
            Ok(value) => value,
            Err(error) => { return Err(error); },
        };
        let flags = self.register_value(&Register::Flag);
        let outcome = match action.apply(flags, destination_value, source_value) {
            Ok(outcome) => outcome,
            Err(error) => { return Err(error); },
        };
        match outcome.value {
            Some(value) => {
                let written = self.store_operand(&destination, value);
            },
            None => {},
        }
        match outcome.flag {
            Some(flags) => self.set_register_value(&Register::Flag, flags),
            None => {},
        }
        Ok(())
    }

    /// Executes MOV.
    fn run_mov(&mut self, config: Config) -> (done: Result<(), VmError>)
        requires
            old(self)@.wf(),
        ensures
            (final(self)@, done) == old(self)@.after_action(config, Action::Mov),
            final(self)@.wf(),
    {
        self.run_action_with_config(config, Action::Mov)
    }

    /// Executes NOT.
    fn run_not(&mut self, config: NotConfig) -> (done: Result<(), VmError>)
        requires
            old(self)@.wf(),
        ensures
            (final(self)@, done) == old(self)@.after_not(config),
            final(self)@.wf(),
    {
        let operand = config.to_operand();
        let value = match self.operand_value(&operand) {
            Ok(value) => value,
            Err(error) => { return Err(error); },
        };
        self.store_operand(&operand, !value)
    }

    /// Executes CMP: the destination stays, the flag register is overwritten.
    fn run_cmp(&mut self, config: Config) -> (done: Result<(), VmError>)
        requires
            old(self)@.wf(),
        ensures
            (final(self)@, done) == old(self)@.after_action(config, Action::Cmp),
            final(self)@.wf(),
    {
        self.run_action_with_config(config, Action::Cmp)
    }

    /// Executes SUB with borrow.
    fn run_sub(&mut self, config: Config) -> (done: Result<(), VmError>)
        requires
            old(self)@.wf(),
        ensures
            (final(self)@, done) == old(self)@.after_action(config, Action::Sub),
            final(self)@.wf(),
    {
        self.run_action_with_config(config, Action::Sub)
    }

    /// Executes ADD with carry.
    fn run_add(&mut self, config: Config) -> (done: Result<(), VmError>)
        requires
            old(self)@.wf(),
        ensures
            (final(self)@, done) == old(self)@.after_action(config, Action::Add),
            final(self)@.wf(),
    {
        self.run_action_with_config(config, Action::Add)
    }

    /// Executes JZ or JNZ.
    fn run_conditional_jmp(
        &mut self,
        config: ConditionalJmpConfig,
        variant: ConditionalJmpVariant,
    ) -> (done: Result<(), VmError>)
        requires
            old(self)@.wf(),
        ensures
            (final(self)@, done) == old(self)@.after_conditional_jmp(config, variant),
            final(self)@.wf(),
    {
        let destination = match self.operand_value(&config.destination_operand()) {
            Ok(value) => value,
            Err(error) => { return Err(error); },
        };
        let source = match self.operand_value(&config.source_operand()) {
            Ok(value) => value,
            Err(error) => { return Err(error); },
        };
        let should_jump = match variant {
            ConditionalJmpVariant::Jz => source == 0,
            ConditionalJmpVariant::Jnz => source != 0,
        };
        if should_jump {
            self.set_register_value(&Register::ProgramCounter, destination)
        }
        Ok(())
    }

    /// Executes JMP from an instruction whose opcode is at `origin`.
    fn run_jmp(&mut self, config: JmpConfig, variant: JmpVariant, origin: Word) -> (done: Result<
        (),
        VmError,
    >)
        requires
            old(self)@.wf(),
        ensures
            (final(self)@, done) == old(self)@.after_jmp(config, variant, origin),
            final(self)@.wf(),
    {
        let target = match self.operand_value(&config.to_operand()) {
            Ok(value) => value,
            Err(error) => { return Err(error); },
        };
        let destination = match variant {
            JmpVariant::Absolute => target,
            JmpVariant::Relative => crate::vm::alu::wrap_wide(
                origin as i64 + crate::vm::alu::to_signed(target),
            ),
        };
        self.set_register_value(&Register::ProgramCounter, destination);
        Ok(())
    }

    /// Executes one of the plain two-word operations.
    fn run_generic_math_op(&mut self, config: Config, variant: MathOpVariant) -> (done: Result<
        (),
        VmError,
    >)
        requires
            old(self)@.wf(),
        ensures
            (final(self)@, done) == old(self)@.after_action(config, Action::Math(variant)),
            final(self)@.wf(),
    {
        self.run_action_with_config(config, Action::Math(variant))
    }

    /// Executes one instruction, or finds the machine halted and leaves it so.
    pub fn run_next_instruction(&mut self) -> (done: Result<(), VmError>)
        requires
            old(self)@.wf(),
        ensures
            (final(self)@, done) == old(self)@.step(),
            final(self)@.wf(),
    {
        let instruction_location = self.register_value(&Register::ProgramCounter);
        if !self.has_instruction() {
            return Err(VmError::OutOfInstructions);
        }
        if let Some(hlt_location) = self.hlt_location {
            if instruction_location == hlt_location {
                return Ok(());
            }
            self.hlt_location = None;
        }
        let instruction = match self.parse_next_instruction() {
            Ok(instruction) => instruction,
            Err(error) => { return Err(error); },
        };
        match instruction {
            Instruction::Nop => Ok(()),
            Instruction::Hlt => {
                self.hlt_location = Some(self.register_value(&Register::ProgramCounter));
                Ok(())
            },
            Instruction::Mov(config) => self.run_mov(config),
            Instruction::Not(config) => self.run_not(config),
            Instruction::Or(config) => self.run_generic_math_op(config, MathOpVariant::Or),
            Instruction::And(config) => self.run_generic_math_op(config, MathOpVariant::And),
            Instruction::Xor(config) => self.run_generic_math_op(config, MathOpVariant::Xor),
            Instruction::Shl(config) => self.run_generic_math_op(config, MathOpVariant::Shl),
            Instruction::Shr(config) => self.run_generic_math_op(config, MathOpVariant::Shr),
            Instruction::Add(config) => self.run_add(config),
            Instruction::Sub(config) => self.run_sub(config),
            Instruction::Mul(config) => self.run_generic_math_op(config, MathOpVariant::Mul),
            Instruction::IMul(config) => self.run_generic_math_op(config, MathOpVariant::IMul),
            Instruction::Div(config) => self.run_generic_math_op(config, MathOpVariant::Div),
            Instruction::IDiv(config) => self.run_generic_math_op(config, MathOpVariant::IDiv),
            Instruction::Rem(config) => self.run_generic_math_op(config, MathOpVariant::Rem),
            Instruction::Cmp(config) => self.run_cmp(config),
            Instruction::Jmp(config, variant) => self.run_jmp(config, variant, instruction_location),
            Instruction::Jz(config) => self.run_conditional_jmp(config, ConditionalJmpVariant::Jz),
            Instruction::Jnz(config) => self.run_conditional_jmp(
                config,
                ConditionalJmpVariant::Jnz,
            ),
        }
    }

    /// Steps until the machine is halted, a step fails, or `limit` steps
    /// were taken, and says how many steps that were.
    pub fn run(&mut self, limit: usize) -> (taken: (usize, Result<(), VmError>))
        requires
            old(self)@.wf(),
        ensures
            (final(self)@, taken.0 as nat, taken.1) == old(self)@.run(limit as nat),
            final(self)@.wf(),
    {
        let mut steps: usize = 0;
        while steps < limit
            invariant
                steps <= limit,
                self@.wf(),
                old(self)@.run(limit as nat) == ({
                    let (last, more, outcome) = self@.run((limit - steps) as nat);
                    (last, more + (steps as nat), outcome)
                }),
            decreases limit - steps,
        {
            if self.has_instruction() && self.is_halted() {
                return (steps, Ok(()));
            }
            match self.run_next_instruction() {
                Ok(()) => {},
                Err(error) => { return (steps, Err(error)); },
            }
            steps += 1;
        }
        (steps, Ok(()))
    }
}

} // verus!
