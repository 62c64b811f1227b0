//! Decoded instructions, and what the bytes at the program counter decode to.

use crate::encoding::{
    packet_destination_register, packet_destination_selector, packet_source_register,
    packet_source_selector, Register, Selector,
};
use crate::vm::named_instruction::NamedInstruction;
use crate::vm::state::{Operand, VmError};
use crate::word::{word_at, Word};
use vstd::prelude::*;

verus! {

/// A word that follows the operand packet.
pub type Immediate = Word;

/// The operands of a two-operand instruction: destination, then source.
#[derive(Clone, Copy, Debug, PartialEq, Eq, Structural)]
pub enum Config {
    RegisterFromRegister(Register, Register),
    RegisterFromImmediate(Register, Immediate),
    RegisterFromRegisterAddress(Register, Register),
    RegisterFromImmediateAddress(Register, Immediate),
    RegisterAddressFromRegister(Register, Register),
    RegisterAddressFromImmediate(Register, Immediate),
    ImmediateAddressFromRegister(Immediate, Register),
    ImmediateAddressFromImmediate(Immediate, Immediate),
    ImmediateFromImmediate(Immediate, Immediate),
    ImmediateFromRegister(Immediate, Register),
}

/// The operand of a jump: where the target is read from.
#[derive(Clone, Copy, Debug, PartialEq, Eq, Structural)]
pub enum JmpConfig {
    Register(Register),
    Immediate(Immediate),
    RegisterAddress(Register),
    ImmediateAddress(Immediate),
}

/// The operands of a conditional jump: target, then condition.
#[derive(Clone, Copy, Debug, PartialEq, Eq, Structural)]
pub enum ConditionalJmpConfig {
    RegisterFromRegister(Register, Register),
    RegisterFromImmediate(Register, Immediate),
    RegisterFromRegisterAddress(Register, Register),
    RegisterFromImmediateAddress(Register, Immediate),
    ImmediateFromRegister(Immediate, Register),
    ImmediateFromImmediate(Immediate, Immediate),
    ImmediateFromRegisterAddress(Immediate, Register),
    ImmediateFromImmediateAddress(Immediate, Immediate),
    RegisterAddressFromRegister(Register, Register),
    RegisterAddressFromImmediate(Register, Immediate),
    ImmediateAddressFromRegister(Immediate, Register),
    ImmediateAddressFromImmediate(Immediate, Immediate),
}

/// The operand of a NOT: the place that is negated.
#[derive(Clone, Copy, Debug, PartialEq, Eq, Structural)]
pub enum NotConfig {
    Register(Register),
    RegisterAddress(Register),
    ImmediateAddress(Immediate),
}

/// How the target of a JMP becomes the next program counter.
#[derive(Clone, Copy, Debug, PartialEq, Eq, Structural)]
pub enum JmpVariant {
    /// The target is the next program counter.
    Absolute,
    /// The target is a signed distance from the opcode of the jump.
    Relative,
}

/// Which condition a conditional jump tests.
#[derive(Clone, Copy, Debug, PartialEq, Eq, Structural)]
pub enum ConditionalJmpVariant {
    /// Jump when the condition is zero.
    Jz,
    /// Jump when the condition is not zero.
    Jnz,
}

/// The two-operand instructions that only combine two words into one.
#[derive(Clone, Copy, Debug, PartialEq, Eq, Structural)]
pub enum MathOpVariant {
    Or,
    And,
    Xor,
    Shl,
    Shr,
    Mul,
    IMul,
    Div,
    IDiv,
    Rem,
}

/// One decoded instruction.
#[derive(Clone, Copy, Debug, PartialEq, Eq, Structural)]
pub enum Instruction {
    Nop,
    Hlt,
    Mov(Config),
    Not(NotConfig),
    Or(Config),
    And(Config),
    Xor(Config),
    Shl(Config),
    Shr(Config),
    Add(Config),
    Sub(Config),
    Mul(Config),
    IMul(Config),
    Div(Config),
    IDiv(Config),
    Rem(Config),
    Cmp(Config),
    Jmp(JmpConfig, JmpVariant),
    Jz(ConditionalJmpConfig),
    Jnz(ConditionalJmpConfig),
}

impl Operand {
    /// The selector that encodes this kind of operand.
    pub open spec fn selector(self) -> Selector {
        match self {
            Operand::Register(_) => Selector::Register,
            Operand::Immediate(_) => Selector::Immediate,
            Operand::RegisterAddress(_) => Selector::RegisterAddress,
            Operand::ImmediateAddress(_) => Selector::ImmediateAddress,
        }
    }
}

impl Config {
    /// Whether a two-operand instruction accepts this pair of selectors.
    /// Memory is never both destination and source, and an immediate
    /// destination takes only a register or an immediate as its source.
    pub open spec fn allows(destination: Selector, source: Selector) -> bool {
        match destination {
            Selector::Register => true,
            _ => source == Selector::Register || source == Selector::Immediate,
        }
    }

    /// The operand that is written.
    pub open spec fn destination(self) -> Operand {
        match self {
            Config::RegisterFromRegister(d, _) => Operand::Register(d),
            Config::RegisterFromImmediate(d, _) => Operand::Register(d),
            Config::RegisterFromRegisterAddress(d, _) => Operand::Register(d),
            Config::RegisterFromImmediateAddress(d, _) => Operand::Register(d),
            Config::RegisterAddressFromRegister(d, _) => Operand::RegisterAddress(d),
            Config::RegisterAddressFromImmediate(d, _) => Operand::RegisterAddress(d),
            Config::ImmediateAddressFromRegister(d, _) => Operand::ImmediateAddress(d),
            Config::ImmediateAddressFromImmediate(d, _) => Operand::ImmediateAddress(d),
            Config::ImmediateFromImmediate(d, _) => Operand::Immediate(d),
            Config::ImmediateFromRegister(d, _) => Operand::Immediate(d),
        }
    }

    /// The operand that is only read.
    pub open spec fn source(self) -> Operand {
        match self {
            Config::RegisterFromRegister(_, s) => Operand::Register(s),
            Config::RegisterFromImmediate(_, s) => Operand::Immediate(s),
            Config::RegisterFromRegisterAddress(_, s) => Operand::RegisterAddress(s),
            Config::RegisterFromImmediateAddress(_, s) => Operand::ImmediateAddress(s),
            Config::RegisterAddressFromRegister(_, s) => Operand::Register(s),
            Config::RegisterAddressFromImmediate(_, s) => Operand::Immediate(s),
            Config::ImmediateAddressFromRegister(_, s) => Operand::Register(s),
            Config::ImmediateAddressFromImmediate(_, s) => Operand::Immediate(s),
            Config::ImmediateFromImmediate(_, s) => Operand::Immediate(s),
            Config::ImmediateFromRegister(_, s) => Operand::Register(s),
        }
    }

    /// The configuration with the given destination and source, where the pair is allowed.
    pub open spec fn of(destination: Operand, source: Operand) -> Option<Config> {
        match (destination, source) {
            (Operand::Register(d), Operand::Register(s)) => Some(Config::RegisterFromRegister(d, s)),
            (Operand::Register(d), Operand::Immediate(s)) => Some(
                Config::RegisterFromImmediate(d, s),
            ),
            (Operand::Register(d), Operand::RegisterAddress(s)) => Some(
                Config::RegisterFromRegisterAddress(d, s),
            ),
            (Operand::Register(d), Operand::ImmediateAddress(s)) => Some(
                Config::RegisterFromImmediateAddress(d, s),
            ),
            (Operand::RegisterAddress(d), Operand::Register(s)) => Some(
                Config::RegisterAddressFromRegister(d, s),
            ),
            (Operand::RegisterAddress(d), Operand::Immediate(s)) => Some(
                Config::RegisterAddressFromImmediate(d, s),
            ),
            (Operand::ImmediateAddress(d), Operand::Register(s)) => Some(
                Config::ImmediateAddressFromRegister(d, s),
            ),
            (Operand::ImmediateAddress(d), Operand::Immediate(s)) => Some(
                Config::ImmediateAddressFromImmediate(d, s),
            ),
            (Operand::Immediate(d), Operand::Immediate(s)) => Some(
                Config::ImmediateFromImmediate(d, s),
            ),
            (Operand::Immediate(d), Operand::Register(s)) => Some(
                Config::ImmediateFromRegister(d, s),
            ),
            _ => None,
        }
    }
}

impl ConditionalJmpConfig {
    /// Whether a conditional jump accepts this pair of selectors.
    /// Memory is never both target and condition.
    pub open spec fn allows(destination: Selector, source: Selector) -> bool {
        match destination {
            Selector::Register | Selector::Immediate => true,
            _ => source == Selector::Register || source == Selector::Immediate,
        }
    }

    /// The operand that holds the target.
    pub open spec fn destination(self) -> Operand {
        match self {
            ConditionalJmpConfig::RegisterFromRegister(d, _) => Operand::Register(d),
            ConditionalJmpConfig::RegisterFromImmediate(d, _) => Operand::Register(d),
            ConditionalJmpConfig::RegisterFromRegisterAddress(d, _) => Operand::Register(d),
            ConditionalJmpConfig::RegisterFromImmediateAddress(d, _) => Operand::Register(d),
            ConditionalJmpConfig::ImmediateFromRegister(d, _) => Operand::Immediate(d),
            ConditionalJmpConfig::ImmediateFromImmediate(d, _) => Operand::Immediate(d),
            ConditionalJmpConfig::ImmediateFromRegisterAddress(d, _) => Operand::Immediate(d),
            ConditionalJmpConfig::ImmediateFromImmediateAddress(d, _) => Operand::Immediate(d),
            ConditionalJmpConfig::RegisterAddressFromRegister(d, _) => Operand::RegisterAddress(d),
            ConditionalJmpConfig::RegisterAddressFromImmediate(d, _) => Operand::RegisterAddress(d),
            ConditionalJmpConfig::ImmediateAddressFromRegister(d, _) => Operand::ImmediateAddress(
                d,
            ),
            ConditionalJmpConfig::ImmediateAddressFromImmediate(d, _) => Operand::ImmediateAddress(
                d,
            ),
        }
    }

    /// The operand that holds the condition.
    pub open spec fn source(self) -> Operand {
        match self {
            ConditionalJmpConfig::RegisterFromRegister(_, s) => Operand::Register(s),
            ConditionalJmpConfig::RegisterFromImmediate(_, s) => Operand::Immediate(s),
            ConditionalJmpConfig::RegisterFromRegisterAddress(_, s) => Operand::RegisterAddress(s),
            ConditionalJmpConfig::RegisterFromImmediateAddress(_, s) => Operand::ImmediateAddress(
                s,
            ),
            ConditionalJmpConfig::ImmediateFromRegister(_, s) => Operand::Register(s),
            ConditionalJmpConfig::ImmediateFromImmediate(_, s) => Operand::Immediate(s),
            ConditionalJmpConfig::ImmediateFromRegisterAddress(_, s) => Operand::RegisterAddress(s),
            ConditionalJmpConfig::ImmediateFromImmediateAddress(_, s) => Operand::ImmediateAddress(
                s,
            ),
            ConditionalJmpConfig::RegisterAddressFromRegister(_, s) => Operand::Register(s),
            ConditionalJmpConfig::RegisterAddressFromImmediate(_, s) => Operand::Immediate(s),
            ConditionalJmpConfig::ImmediateAddressFromRegister(_, s) => Operand::Register(s),
            ConditionalJmpConfig::ImmediateAddressFromImmediate(_, s) => Operand::Immediate(s),
        }
    }

    /// The configuration with the given target and condition, where the pair is allowed.
    pub open spec fn of(destination: Operand, source: Operand) -> Option<ConditionalJmpConfig> {
        match (destination, source) {
            (Operand::Register(d), Operand::Register(s)) => Some(
                ConditionalJmpConfig::RegisterFromRegister(d, s),
            ),
            (Operand::Register(d), Operand::Immediate(s)) => Some(
                ConditionalJmpConfig::RegisterFromImmediate(d, s),
            ),
            (Operand::Register(d), Operand::RegisterAddress(s)) => Some(
                ConditionalJmpConfig::RegisterFromRegisterAddress(d, s),
            ),
            (Operand::Register(d), Operand::ImmediateAddress(s)) => Some(
                ConditionalJmpConfig::RegisterFromImmediateAddress(d, s),
            ),
            (Operand::Immediate(d), Operand::Register(s)) => Some(
                ConditionalJmpConfig::ImmediateFromRegister(d, s),
            ),
            (Operand::Immediate(d), Operand::Immediate(s)) => Some(
                ConditionalJmpConfig::ImmediateFromImmediate(d, s),
            ),
            (Operand::Immediate(d), Operand::RegisterAddress(s)) => Some(
                ConditionalJmpConfig::ImmediateFromRegisterAddress(d, s),
            ),
            (Operand::Immediate(d), Operand::ImmediateAddress(s)) => Some(
                ConditionalJmpConfig::ImmediateFromImmediateAddress(d, s),
            ),
            (Operand::RegisterAddress(d), Operand::Register(s)) => Some(
                ConditionalJmpConfig::RegisterAddressFromRegister(d, s),
            ),
            (Operand::RegisterAddress(d), Operand::Immediate(s)) => Some(
                ConditionalJmpConfig::RegisterAddressFromImmediate(d, s),
            ),
            (Operand::ImmediateAddress(d), Operand::Register(s)) => Some(
                ConditionalJmpConfig::ImmediateAddressFromRegister(d, s),
            ),
            (Operand::ImmediateAddress(d), Operand::Immediate(s)) => Some(
                ConditionalJmpConfig::ImmediateAddressFromImmediate(d, s),
            ),
            _ => None,
        }
    }
}

impl JmpConfig {
    /// The operand that holds the target.
    pub open spec fn operand(self) -> Operand {
        match self {
            JmpConfig::Register(register) => Operand::Register(register),
            JmpConfig::Immediate(immediate) => Operand::Immediate(immediate),
            JmpConfig::RegisterAddress(register) => Operand::RegisterAddress(register),
            JmpConfig::ImmediateAddress(address) => Operand::ImmediateAddress(address),
        }
    }

    /// The configuration that reads the target from `operand`.
    pub open spec fn of(operand: Operand) -> JmpConfig {
        match operand {
            Operand::Register(register) => JmpConfig::Register(register),
            Operand::Immediate(immediate) => JmpConfig::Immediate(immediate),
            Operand::RegisterAddress(register) => JmpConfig::RegisterAddress(register),
            Operand::ImmediateAddress(address) => JmpConfig::ImmediateAddress(address),
        }
    }
}

impl NotConfig {
    /// The operand that is negated.
    pub open spec fn operand(self) -> Operand {
        match self {
            NotConfig::Register(register) => Operand::Register(register),
            NotConfig::RegisterAddress(register) => Operand::RegisterAddress(register),
            NotConfig::ImmediateAddress(address) => Operand::ImmediateAddress(address),
        }
    }

    /// The configuration that negates `operand`, which is no immediate.
    pub open spec fn of(operand: Operand) -> Option<NotConfig> {
        match operand {
            Operand::Register(register) => Some(NotConfig::Register(register)),
            Operand::Immediate(_) => None,
            Operand::RegisterAddress(register) => Some(NotConfig::RegisterAddress(register)),
            Operand::ImmediateAddress(address) => Some(NotConfig::ImmediateAddress(address)),
        }
    }
}

impl JmpVariant {
    /// The variant that the low bit of a JMP packet selects: 1 absolute, 0 relative.
    pub open spec fn of_packet(packet: u8) -> JmpVariant {
        if packet & 1 == 1 {
            JmpVariant::Absolute
        } else {
            JmpVariant::Relative
        }
    }
}

/// What the bytes at the program counter decode to.
pub enum Decoded {
    /// An instruction, and the address of the byte after it.
    Instruction { instruction: Instruction, next: Word },
    /// No instruction, and the address of the byte that is to blame.
    Failure { error: VmError, at: Word },
}

/// The operand that `selector` and `register` describe, with its immediate
/// taken from `memory` at `at` where the selector asks for one, and the
/// address after the operand. `None` where memory ends inside the immediate.
pub open spec fn decode_operand(
    memory: Seq<u8>,
    selector: Selector,
    register: Register,
    at: int,
) -> Option<(Operand, int)> {
    match selector {
        Selector::Register => Some((Operand::Register(register), at)),
        Selector::RegisterAddress => Some((Operand::RegisterAddress(register), at)),
        Selector::Immediate => if at + 4 <= memory.len() {
            Some((Operand::Immediate(word_at(memory, at)), at + 4))
        } else {
            None
        },
        Selector::ImmediateAddress => if at + 4 <= memory.len() {
            Some((Operand::ImmediateAddress(word_at(memory, at)), at + 4))
        } else {
            None
        },
    }
}

/// The two-operand instruction that `named` and a configuration make.
pub open spec fn two_operand(named: NamedInstruction, config: Config) -> Instruction {
    match named {
        NamedInstruction::Or => Instruction::Or(config),
        NamedInstruction::And => Instruction::And(config),
        NamedInstruction::Xor => Instruction::Xor(config),
        NamedInstruction::Shl => Instruction::Shl(config),
        NamedInstruction::Shr => Instruction::Shr(config),
        NamedInstruction::Add => Instruction::Add(config),
        NamedInstruction::Sub => Instruction::Sub(config),
        NamedInstruction::Mul => Instruction::Mul(config),
        NamedInstruction::IMul => Instruction::IMul(config),
        NamedInstruction::Div => Instruction::Div(config),
        NamedInstruction::IDiv => Instruction::IDiv(config),
        NamedInstruction::Rem => Instruction::Rem(config),
        NamedInstruction::Cmp => Instruction::Cmp(config),
        _ => Instruction::Mov(config),
    }
}

/// The failure of a decode that ran out of memory inside an immediate: the
/// blame lies at the first address past the end.
pub open spec fn missing_immediate(memory: Seq<u8>) -> Decoded {
    Decoded::Failure {
        error: VmError::MissingByte { index: memory.len() as Word },
        at: memory.len() as Word,
    }
}

/// A destination and a source decoded one after the other from `at` on, and
/// the address after both. `None` where memory ends inside an immediate.
pub open spec fn decode_pair(
    memory: Seq<u8>,
    destination_selector: Selector,
    destination_register: Register,
    source_selector: Selector,
    source_register: Register,
    at: int,
) -> Option<(Operand, Operand, int)> {
    match decode_operand(memory, destination_selector, destination_register, at) {
        None => None,
        Some((destination, middle)) => match decode_operand(
            memory,
            source_selector,
            source_register,
            middle,
        ) {
            None => None,
            Some((source, next)) => Some((destination, source, next)),
        },
    }
}

/// What follows the opcode of `named` decodes to, given the packet at `packet_at`.
pub open spec fn decode_operands(
    memory: Seq<u8>,
    named: NamedInstruction,
    packet_at: int,
) -> Decoded {
    let packet = memory[packet_at];
    let destination_selector = Selector::of_bits(packet_destination_selector(packet));
    let source_selector = Selector::of_bits(packet_source_selector(packet));
    let destination_register = Register::of_bits(packet_destination_register(packet));
    let source_register = Register::of_bits(packet_source_register(packet));
    let single = decode_operand(memory, destination_selector, destination_register, packet_at + 1);
    let pair = decode_pair(
        memory,
        destination_selector,
        destination_register,
        source_selector,
        source_register,
        packet_at + 1,
    );
    match named {
        NamedInstruction::Not => if destination_selector == Selector::Immediate {
            Decoded::Failure { error: VmError::NotImmediate, at: packet_at as Word }
        } else {
            match single {
                None => missing_immediate(memory),
                Some((operand, next)) => Decoded::Instruction {
                    instruction: Instruction::Not(NotConfig::of(operand).unwrap()),
                    next: next as Word,
                },
            }
        },
        NamedInstruction::Jmp => match single {
            None => missing_immediate(memory),
            Some((operand, next)) => Decoded::Instruction {
                instruction: Instruction::Jmp(JmpConfig::of(operand), JmpVariant::of_packet(packet)),
                next: next as Word,
            },
        },
        NamedInstruction::Jz | NamedInstruction::Jnz => if !ConditionalJmpConfig::allows(
            destination_selector,
            source_selector,
        ) {
            Decoded::Failure {
                error: VmError::InvalidCombination {
                    destination: destination_selector,
                    source: source_selector,
                },
                at: packet_at as Word,
            }
        } else {
            match pair {
                None => missing_immediate(memory),
                Some((target, condition, next)) => {
                    let config = ConditionalJmpConfig::of(target, condition).unwrap();
                    Decoded::Instruction {
                        instruction: if named == NamedInstruction::Jz {
                            Instruction::Jz(config)
                        } else {
                            Instruction::Jnz(config)
                        },
                        next: next as Word,
                    }
                },
            }
        },
        _ => if !Config::allows(destination_selector, source_selector) {
            Decoded::Failure {
                error: VmError::InvalidCombination {
                    destination: destination_selector,
                    source: source_selector,
                },
                at: packet_at as Word,
            }
        } else {
            match pair {
                None => missing_immediate(memory),
                Some((written, read, next)) => Decoded::Instruction {
                    instruction: two_operand(named, Config::of(written, read).unwrap()),
                    next: next as Word,
                },
            }
        },
    }
}

/// What the bytes of `memory` at `pc` decode to.
pub open spec fn decode(memory: Seq<u8>, pc: Word) -> Decoded
    recommends
        pc < memory.len() <= u32::MAX,
{
    let opcode = memory[pc as int];
    match NamedInstruction::of_opcode(opcode) {
        None => Decoded::Failure { error: VmError::UnknownInstruction(opcode), at: pc },
        Some(NamedInstruction::Nop) => Decoded::Instruction {
            instruction: Instruction::Nop,
            next: (pc + 1) as Word,
        },
        Some(NamedInstruction::Hlt) => Decoded::Instruction {
            instruction: Instruction::Hlt,
            next: (pc + 1) as Word,
        },
        Some(named) => if pc + 1 >= memory.len() {
            Decoded::Failure {
                error: VmError::MissingByte { index: (pc + 1) as Word },
                at: (pc + 1) as Word,
            }
        } else {
            decode_operands(memory, named, pc + 1)
        },
    }
}

impl Operand {
    /// The operand that a selector makes of a register or of an immediate.
    pub open spec fn of(selector: Selector, register: Register, immediate: Word) -> Operand {
        match selector {
            Selector::Register => Operand::Register(register),
            Selector::Immediate => Operand::Immediate(immediate),
            Selector::RegisterAddress => Operand::RegisterAddress(register),
            Selector::ImmediateAddress => Operand::ImmediateAddress(immediate),
        }
    }
}

impl Config {
    /// Tests whether a two-operand instruction accepts a pair of selectors.
    pub fn accepts(destination: &Selector, source: &Selector) -> (accepted: bool)
        ensures
            accepted == Config::allows(*destination, *source),
    {
        match destination {
            Selector::Register => true,
            _ => match source {
                Selector::Register | Selector::Immediate => true,
                _ => false,
            },
        }
    }

    /// Pairs a destination and a source, where a two-operand instruction accepts them.
    pub fn from_operands(destination: Operand, source: Operand) -> (config: Option<Config>)
        ensures
            config == Config::of(destination, source),
            config is Some <==> Config::allows(destination.selector(), source.selector()),
            config matches Some(c) ==> c.destination() == destination && c.source() == source,
    {
        match (destination, source) {
            (Operand::Register(d), Operand::Register(s)) => Some(Config::RegisterFromRegister(d, s)),
            (Operand::Register(d), Operand::Immediate(s)) => Some(
                Config::RegisterFromImmediate(d, s),
            ),
            (Operand::Register(d), Operand::RegisterAddress(s)) => Some(
                Config::RegisterFromRegisterAddress(d, s),
            ),
            (Operand::Register(d), Operand::ImmediateAddress(s)) => Some(
                Config::RegisterFromImmediateAddress(d, s),
            ),
            (Operand::RegisterAddress(d), Operand::Register(s)) => Some(
                Config::RegisterAddressFromRegister(d, s),
            ),
            (Operand::RegisterAddress(d), Operand::Immediate(s)) => Some(
                Config::RegisterAddressFromImmediate(d, s),
            ),
            (Operand::ImmediateAddress(d), Operand::Register(s)) => Some(
                Config::ImmediateAddressFromRegister(d, s),
            ),
            (Operand::ImmediateAddress(d), Operand::Immediate(s)) => Some(
                Config::ImmediateAddressFromImmediate(d, s),
            ),
            (Operand::Immediate(d), Operand::Immediate(s)) => Some(
                Config::ImmediateFromImmediate(d, s),
            ),
            (Operand::Immediate(d), Operand::Register(s)) => Some(
                Config::ImmediateFromRegister(d, s),
            ),
            _ => None,
        }
    }

    /// The operand that is written.
    pub fn destination_operand(&self) -> (operand: Operand)
        ensures
            operand == self.destination(),
    {
        match self {
            Config::RegisterFromRegister(d, _) => Operand::Register(*d),
            Config::RegisterFromImmediate(d, _) => Operand::Register(*d),
            Config::RegisterFromRegisterAddress(d, _) => Operand::Register(*d),
            Config::RegisterFromImmediateAddress(d, _) => Operand::Register(*d),
            Config::RegisterAddressFromRegister(d, _) => Operand::RegisterAddress(*d),
            Config::RegisterAddressFromImmediate(d, _) => Operand::RegisterAddress(*d),
            Config::ImmediateAddressFromRegister(d, _) => Operand::ImmediateAddress(*d),
            Config::ImmediateAddressFromImmediate(d, _) => Operand::ImmediateAddress(*d),
            Config::ImmediateFromImmediate(d, _) => Operand::Immediate(*d),
            Config::ImmediateFromRegister(d, _) => Operand::Immediate(*d),
        }
    }

    /// The operand that is only read.
    pub fn source_operand(&self) -> (operand: Operand)
        ensures
            operand == self.source(),
    {
        match self {
            Config::RegisterFromRegister(_, s) => Operand::Register(*s),
            Config::RegisterFromImmediate(_, s) => Operand::Immediate(*s),
            Config::RegisterFromRegisterAddress(_, s) => Operand::RegisterAddress(*s),
            Config::RegisterFromImmediateAddress(_, s) => Operand::ImmediateAddress(*s),
            Config::RegisterAddressFromRegister(_, s) => Operand::Register(*s),
            Config::RegisterAddressFromImmediate(_, s) => Operand::Immediate(*s),
            Config::ImmediateAddressFromRegister(_, s) => Operand::Register(*s),
            Config::ImmediateAddressFromImmediate(_, s) => Operand::Immediate(*s),
            Config::ImmediateFromImmediate(_, s) => Operand::Immediate(*s),
            Config::ImmediateFromRegister(_, s) => Operand::Register(*s),
        }
    }
}

impl ConditionalJmpConfig {
    /// Tests whether a conditional jump accepts a pair of selectors.
    pub fn accepts(destination: &Selector, source: &Selector) -> (accepted: bool)
        ensures
            accepted == ConditionalJmpConfig::allows(*destination, *source),
    {
        match destination {
            Selector::Register | Selector::Immediate => true,
            _ => match source {
                Selector::Register | Selector::Immediate => true,
                _ => false,
            },
        }
    }

    /// Pairs a target and a condition, where a conditional jump accepts them.
    pub fn from_operands(destination: Operand, source: Operand) -> (config: Option<
        ConditionalJmpConfig,
    >)
        ensures
            config == ConditionalJmpConfig::of(destination, source),
            config is Some <==> ConditionalJmpConfig::allows(
                destination.selector(),
                source.selector(),
            ),
            config matches Some(c) ==> c.destination() == destination && c.source() == source,
    {
        match (destination, source) {
            (Operand::Register(d), Operand::Register(s)) => Some(
                ConditionalJmpConfig::RegisterFromRegister(d, s),
            ),
            (Operand::Register(d), Operand::Immediate(s)) => Some(
                ConditionalJmpConfig::RegisterFromImmediate(d, s),
            ),
            (Operand::Register(d), Operand::RegisterAddress(s)) => Some(
                ConditionalJmpConfig::RegisterFromRegisterAddress(d, s),
            ),
            (Operand::Register(d), Operand::ImmediateAddress(s)) => Some(
                ConditionalJmpConfig::RegisterFromImmediateAddress(d, s),
            ),
            (Operand::Immediate(d), Operand::Register(s)) => Some(
                ConditionalJmpConfig::ImmediateFromRegister(d, s),
            ),
            (Operand::Immediate(d), Operand::Immediate(s)) => Some(
                ConditionalJmpConfig::ImmediateFromImmediate(d, s),
            ),
            (Operand::Immediate(d), Operand::RegisterAddress(s)) => Some(
                ConditionalJmpConfig::ImmediateFromRegisterAddress(d, s),
            ),
            (Operand::Immediate(d), Operand::ImmediateAddress(s)) => Some(
                ConditionalJmpConfig::ImmediateFromImmediateAddress(d, s),
            ),
            (Operand::RegisterAddress(d), Operand::Register(s)) => Some(
                ConditionalJmpConfig::RegisterAddressFromRegister(d, s),
            ),
            (Operand::RegisterAddress(d), Operand::Immediate(s)) => Some(
                ConditionalJmpConfig::RegisterAddressFromImmediate(d, s),
            ),
            (Operand::ImmediateAddress(d), Operand::Register(s)) => Some(
                ConditionalJmpConfig::ImmediateAddressFromRegister(d, s),
            ),
            (Operand::ImmediateAddress(d), Operand::Immediate(s)) => Some(
                ConditionalJmpConfig::ImmediateAddressFromImmediate(d, s),
            ),
            _ => None,
        }
    }

    /// The operand that holds the target.
    pub fn destination_operand(&self) -> (operand: Operand)
        ensures
            operand == self.destination(),
    {
        match self {
            ConditionalJmpConfig::RegisterFromRegister(d, _) => Operand::Register(*d),
            ConditionalJmpConfig::RegisterFromImmediate(d, _) => Operand::Register(*d),
            ConditionalJmpConfig::RegisterFromRegisterAddress(d, _) => Operand::Register(*d),
            ConditionalJmpConfig::RegisterFromImmediateAddress(d, _) => Operand::Register(*d),
            ConditionalJmpConfig::ImmediateFromRegister(d, _) => Operand::Immediate(*d),
            ConditionalJmpConfig::ImmediateFromImmediate(d, _) => Operand::Immediate(*d),
            ConditionalJmpConfig::ImmediateFromRegisterAddress(d, _) => Operand::Immediate(*d),
            ConditionalJmpConfig::ImmediateFromImmediateAddress(d, _) => Operand::Immediate(*d),
            ConditionalJmpConfig::RegisterAddressFromRegister(d, _) => Operand::RegisterAddress(*d),
            ConditionalJmpConfig::RegisterAddressFromImmediate(d, _) => Operand::RegisterAddress(
                *d,
            ),
            ConditionalJmpConfig::ImmediateAddressFromRegister(d, _) => Operand::ImmediateAddress(
                *d,
            ),
            ConditionalJmpConfig::ImmediateAddressFromImmediate(d, _) => Operand::ImmediateAddress(
                *d,
            ),
        }
    }

    /// The operand that holds the condition.
    pub fn source_operand(&self) -> (operand: Operand)
        ensures
            operand == self.source(),
    {
        match self {
            ConditionalJmpConfig::RegisterFromRegister(_, s) => Operand::Register(*s),
            ConditionalJmpConfig::RegisterFromImmediate(_, s) => Operand::Immediate(*s),
            ConditionalJmpConfig::RegisterFromRegisterAddress(_, s) => Operand::RegisterAddress(*s),
            ConditionalJmpConfig::RegisterFromImmediateAddress(_, s) => Operand::ImmediateAddress(
                *s,
            ),
            ConditionalJmpConfig::ImmediateFromRegister(_, s) => Operand::Register(*s),
            ConditionalJmpConfig::ImmediateFromImmediate(_, s) => Operand::Immediate(*s),
            ConditionalJmpConfig::ImmediateFromRegisterAddress(_, s) => Operand::RegisterAddress(
                *s,
            ),
            ConditionalJmpConfig::ImmediateFromImmediateAddress(_, s) => Operand::ImmediateAddress(
                *s,
            ),
            ConditionalJmpConfig::RegisterAddressFromRegister(_, s) => Operand::Register(*s),
            ConditionalJmpConfig::RegisterAddressFromImmediate(_, s) => Operand::Immediate(*s),
            ConditionalJmpConfig::ImmediateAddressFromRegister(_, s) => Operand::Register(*s),
            ConditionalJmpConfig::ImmediateAddressFromImmediate(_, s) => Operand::Immediate(*s),
        }
    }
}

impl JmpConfig {
    /// The configuration that reads the target from `operand`.
    pub fn from_operand(operand: Operand) -> (config: JmpConfig)
        ensures
            config == JmpConfig::of(operand),
            config.operand() == operand,
    {
        match operand {
            Operand::Register(register) => JmpConfig::Register(register),
            Operand::Immediate(immediate) => JmpConfig::Immediate(immediate),
            Operand::RegisterAddress(register) => JmpConfig::RegisterAddress(register),
            Operand::ImmediateAddress(address) => JmpConfig::ImmediateAddress(address),
        }
    }

    /// The operand that holds the target.
    pub fn to_operand(&self) -> (operand: Operand)
        ensures
            operand == self.operand(),
    {
        match self {
            JmpConfig::Register(register) => Operand::Register(*register),
            JmpConfig::Immediate(immediate) => Operand::Immediate(*immediate),
            JmpConfig::RegisterAddress(register) => Operand::RegisterAddress(*register),
            JmpConfig::ImmediateAddress(address) => Operand::ImmediateAddress(*address),
        }
    }
}

impl NotConfig {
    /// The configuration that negates `operand`; an immediate has none.
    pub fn from_operand(operand: Operand) -> (config: Option<NotConfig>)
        ensures
            config == NotConfig::of(operand),
            config is None <==> operand is Immediate,
            config matches Some(c) ==> c.operand() == operand,
    {
        match operand {
            Operand::Register(register) => Some(NotConfig::Register(register)),
            Operand::Immediate(_) => None,
            Operand::RegisterAddress(register) => Some(NotConfig::RegisterAddress(register)),
            Operand::ImmediateAddress(address) => Some(NotConfig::ImmediateAddress(address)),
        }
    }

    /// The operand that is negated.
    pub fn to_operand(&self) -> (operand: Operand)
        ensures
            operand == self.operand(),
    {
        match self {
            NotConfig::Register(register) => Operand::Register(*register),
            NotConfig::RegisterAddress(register) => Operand::RegisterAddress(*register),
            NotConfig::ImmediateAddress(address) => Operand::ImmediateAddress(*address),
        }
    }
}

impl JmpVariant {
    /// Reads the variant from the low bit of a JMP packet.
    pub fn from_packet(packet: u8) -> (variant: JmpVariant)
        ensures
            variant == JmpVariant::of_packet(packet),
    {
        if packet & 1 == 1 {
            JmpVariant::Absolute
        } else {
            JmpVariant::Relative
        }
    }
}


/// Makes the two-operand instruction that `named` and a configuration describe.
pub fn build_two_operand(named: NamedInstruction, config: Config) -> (instruction: Instruction)
    ensures
        instruction == two_operand(named, config),
{
    match named {
        NamedInstruction::Or => Instruction::Or(config),
        NamedInstruction::And => Instruction::And(config),
        NamedInstruction::Xor => Instruction::Xor(config),
        NamedInstruction::Shl => Instruction::Shl(config),
        NamedInstruction::Shr => Instruction::Shr(config),
        NamedInstruction::Add => Instruction::Add(config),
        NamedInstruction::Sub => Instruction::Sub(config),
        NamedInstruction::Mul => Instruction::Mul(config),
        NamedInstruction::IMul => Instruction::IMul(config),
        NamedInstruction::Div => Instruction::Div(config),
        NamedInstruction::IDiv => Instruction::IDiv(config),
        NamedInstruction::Rem => Instruction::Rem(config),
        NamedInstruction::Cmp => Instruction::Cmp(config),
        _ => Instruction::Mov(config),
    }
}

/// Whether a result and a state are what decoding promised: on success the
/// instruction, with the program counter past it; on failure the error, with
/// the program counter at the byte that is to blame. Nothing else changes.
pub open spec fn lands(
    before: crate::vm::state::VmState,
    after: crate::vm::state::VmState,
    result: Result<Instruction, VmError>,
    decoded: Decoded,
) -> bool {
    match decoded {
        Decoded::Instruction { instruction, next } => {
            &&& result == Ok::<Instruction, VmError>(instruction)
            &&& after == before.with_pc(next)
        },
        Decoded::Failure { error, at } => {
            &&& result == Err::<Instruction, VmError>(error)
            &&& after == before.with_pc(at)
        },
    }
}

} // verus!
