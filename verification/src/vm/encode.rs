//! The bytes of a decoded instruction, and the proof that decoding them
//! gives the instruction back.

use crate::encoding::{
    lemma_packet_fields, packet, packet_destination_register, packet_destination_selector,
    packet_source_register, packet_source_selector, Register, Selector,
};
use crate::vm::instruction::{
    decode, decode_operand, decode_pair, two_operand, ConditionalJmpConfig, Config, Decoded,
    Instruction, JmpVariant,
};
use crate::vm::named_instruction::NamedInstruction;
use crate::vm::state::Operand;
use crate::word::{be_bytes, lemma_word_of_be_bytes, Word};
use vstd::prelude::*;

verus! {

impl Operand {
    /// The register bits of the operand in the packet: zero unless it names
    /// a register.
    pub open spec fn register_bits(self) -> u8 {
        match self {
            Operand::Register(register) => register.bits(),
            Operand::RegisterAddress(register) => register.bits(),
            _ => 0,
        }
    }

    /// The bytes that follow the packet for the operand: the big-endian
    /// bytes of its immediate, if it has one.
    pub open spec fn immediate_bytes(self) -> Seq<u8> {
        match self {
            Operand::Immediate(word) => be_bytes(word),
            Operand::ImmediateAddress(word) => be_bytes(word),
            _ => Seq::empty(),
        }
    }
}

impl Instruction {
    /// The opcode of the instruction.
    pub open spec fn named(self) -> NamedInstruction {
        match self {
            Instruction::Nop => NamedInstruction::Nop,
            Instruction::Hlt => NamedInstruction::Hlt,
            Instruction::Mov(_) => NamedInstruction::Mov,
            Instruction::Not(_) => NamedInstruction::Not,
            Instruction::Or(_) => NamedInstruction::Or,
            Instruction::And(_) => NamedInstruction::And,
            Instruction::Xor(_) => NamedInstruction::Xor,
            Instruction::Shl(_) => NamedInstruction::Shl,
            Instruction::Shr(_) => NamedInstruction::Shr,
            Instruction::Add(_) => NamedInstruction::Add,
            Instruction::Sub(_) => NamedInstruction::Sub,
            Instruction::Mul(_) => NamedInstruction::Mul,
            Instruction::IMul(_) => NamedInstruction::IMul,
            Instruction::Div(_) => NamedInstruction::Div,
            Instruction::IDiv(_) => NamedInstruction::IDiv,
            Instruction::Rem(_) => NamedInstruction::Rem,
            Instruction::Cmp(_) => NamedInstruction::Cmp,
            Instruction::Jmp(_, _) => NamedInstruction::Jmp,
            Instruction::Jz(_) => NamedInstruction::Jz,
            Instruction::Jnz(_) => NamedInstruction::Jnz,
        }
    }

    /// The destination, or the only operand, of the instruction.
    pub open spec fn first(self) -> Option<Operand> {
        match self {
            Instruction::Nop | Instruction::Hlt => None,
            Instruction::Not(config) => Some(config.operand()),
            Instruction::Jmp(config, _) => Some(config.operand()),
            Instruction::Jz(config) | Instruction::Jnz(config) => Some(config.destination()),
            _ => Some(self.action().unwrap().0.destination()),
        }
    }

    /// The source of the instruction, if it has one.
    pub open spec fn second(self) -> Option<Operand> {
        match self {
            Instruction::Nop | Instruction::Hlt | Instruction::Not(_) | Instruction::Jmp(
                _,
                _,
            ) => None,
            Instruction::Jz(config) | Instruction::Jnz(config) => Some(config.source()),
            _ => Some(self.action().unwrap().0.source()),
        }
    }

    /// The operand packet of the instruction.
    pub open spec fn packet(self) -> u8 {
        match (self.first(), self.second()) {
            (Some(first), Some(second)) => packet(
                first.selector().bits(),
                second.selector().bits(),
                first.register_bits(),
                second.register_bits(),
            ),
            (Some(first), None) => packet(
                first.selector().bits(),
                0,
                first.register_bits(),
                if self matches Instruction::Jmp(_, JmpVariant::Absolute) {
                    1
                } else {
                    0
                },
            ),
            _ => 0,
        }
    }

    /// The bytes of the instruction: the opcode, the packet if it has
    /// operands, and the immediate of each operand that has one.
    pub open spec fn encoding(self) -> Seq<u8> {
        match (self.first(), self.second()) {
            (Some(first), Some(second)) => seq![self.named().opcode(), self.packet()]
                + first.immediate_bytes() + second.immediate_bytes(),
            (Some(first), None) => seq![self.named().opcode(), self.packet()]
                + first.immediate_bytes(),
            _ => seq![self.named().opcode()],
        }
    }
}

/// The bits of a selector and of a register name them.
pub proof fn lemma_bits_name(selector: Selector, register: Register)
    ensures
        selector.bits() < 4,
        Selector::of_bits(selector.bits()) == selector,
        register.bits() < 4,
        Register::of_bits(register.bits()) == register,
{
}

/// An operand whose immediate bytes lie in memory at `at` decodes to itself.
pub proof fn lemma_decode_operand(memory: Seq<u8>, operand: Operand, at: int)
    requires
        0 <= at,
        at + operand.immediate_bytes().len() <= memory.len(),
        memory.subrange(at, at + operand.immediate_bytes().len()) == operand.immediate_bytes(),
    ensures
        decode_operand(
            memory,
            operand.selector(),
            Register::of_bits(operand.register_bits()),
            at,
        ) == Some((operand, at + operand.immediate_bytes().len())),
{
    match operand {
        Operand::Immediate(word) => {
            lemma_word_of_be_bytes(word);
            let part = memory.subrange(at, at + 4);
            assert(part[0] == memory[at] && part[1] == memory[at + 1] && part[2] == memory[at + 2]
                && part[3] == memory[at + 3]);
        },
        Operand::ImmediateAddress(word) => {
            lemma_word_of_be_bytes(word);
            let part = memory.subrange(at, at + 4);
            assert(part[0] == memory[at] && part[1] == memory[at + 1] && part[2] == memory[at + 2]
                && part[3] == memory[at + 3]);
        },
        Operand::Register(register) => {
            lemma_bits_name(Selector::Register, register);
        },
        Operand::RegisterAddress(register) => {
            lemma_bits_name(Selector::Register, register);
        },
    }
}

/// The low bit of a JMP packet is the variant it was built with.
pub proof fn lemma_variant_bit(dd: u8, rr: u8, absolute: bool)
    requires
        dd < 4,
        rr < 4,
    ensures
        JmpVariant::of_packet(
            packet(
                dd,
                0,
                rr,
                if absolute {
                    1
                } else {
                    0
                },
            ),
        ) == (if absolute {
            JmpVariant::Absolute
        } else {
            JmpVariant::Relative
        }),
{
    let low: u8 = if absolute { 1 } else { 0 };
    assert((dd << 6 | 0u8 << 4 | rr << 2 | low) & 1 == low) by (bit_vector)
        requires
            dd < 4,
            rr < 4,
            low <= 1,
    ;
}

/// The fields that the packet of two operands decodes to.
pub proof fn lemma_operand_fields(first: Operand, second: Operand)
    ensures
        ({
            let byte = packet(
                first.selector().bits(),
                second.selector().bits(),
                first.register_bits(),
                second.register_bits(),
            );
            &&& Selector::of_bits(packet_destination_selector(byte)) == first.selector()
            &&& Selector::of_bits(packet_source_selector(byte)) == second.selector()
            &&& packet_destination_register(byte) == first.register_bits()
            &&& packet_source_register(byte) == second.register_bits()
        }),
{
    lemma_bits_name(first.selector(), Register::GeneralPurpose0);
    lemma_bits_name(second.selector(), Register::GeneralPurpose0);
    lemma_bits_name(Selector::Register, Register::of_bits(first.register_bits()));
    lemma_bits_name(Selector::Register, Register::of_bits(second.register_bits()));
    lemma_packet_fields(
        first.selector().bits(),
        second.selector().bits(),
        first.register_bits(),
        second.register_bits(),
    );
}

/// The fields that the packet of one operand decodes to, and its low bit.
pub proof fn lemma_single_fields(first: Operand, absolute: bool)
    ensures
        ({
            let byte = packet(
                first.selector().bits(),
                0,
                first.register_bits(),
                if absolute {
                    1
                } else {
                    0
                },
            );
            &&& Selector::of_bits(packet_destination_selector(byte)) == first.selector()
            &&& packet_destination_register(byte) == first.register_bits()
            &&& JmpVariant::of_packet(byte) == (if absolute {
                JmpVariant::Absolute
            } else {
                JmpVariant::Relative
            })
        }),
{
    lemma_bits_name(first.selector(), Register::GeneralPurpose0);
    lemma_bits_name(Selector::Register, Register::of_bits(first.register_bits()));
    lemma_packet_fields(
        first.selector().bits(),
        0,
        first.register_bits(),
        if absolute {
            1
        } else {
            0
        },
    );
    lemma_variant_bit(first.selector().bits(), first.register_bits(), absolute);
}

/// Two operands whose immediate bytes lie in memory one after the other
/// decode to themselves.
pub proof fn lemma_decode_pair(memory: Seq<u8>, first: Operand, second: Operand, at: int)
    requires
        0 <= at,
        at + first.immediate_bytes().len() + second.immediate_bytes().len() <= memory.len(),
        memory.subrange(
            at,
            at + first.immediate_bytes().len() + second.immediate_bytes().len(),
        ) == first.immediate_bytes() + second.immediate_bytes(),
    ensures
        decode_pair(
            memory,
            first.selector(),
            Register::of_bits(first.register_bits()),
            second.selector(),
            Register::of_bits(second.register_bits()),
            at,
        ) == Some(
            (first, second, at + first.immediate_bytes().len() + second.immediate_bytes().len()),
        ),
{
    let both = first.immediate_bytes() + second.immediate_bytes();
    let part = memory.subrange(at, at + both.len());
    let middle = at + first.immediate_bytes().len();
    assert(memory.subrange(at, middle) =~= first.immediate_bytes()) by {
        assert forall|i: int| 0 <= i < first.immediate_bytes().len() implies memory[at + i]
            == first.immediate_bytes()[i] by {
            assert(part[i] == memory[at + i]);
            assert(both[i] == first.immediate_bytes()[i]);
        }
    }
    assert(memory.subrange(middle, middle + second.immediate_bytes().len())
        =~= second.immediate_bytes()) by {
        assert forall|i: int| 0 <= i < second.immediate_bytes().len() implies memory[middle + i]
            == second.immediate_bytes()[i] by {
            assert(part[middle - at + i] == memory[middle + i]);
            assert(both[middle - at + i] == second.immediate_bytes()[i]);
        }
    }
    lemma_decode_operand(memory, first, at);
    lemma_decode_operand(memory, second, middle);
}

/// Where memory holds a run of bytes at a place, it holds each of them and
/// every part of the run.
pub proof fn lemma_parts(memory: Seq<u8>, at: int, head: Seq<u8>, tail: Seq<u8>)
    requires
        0 <= at,
        at + head.len() + tail.len() <= memory.len(),
        memory.subrange(at, at + head.len() + tail.len()) == head + tail,
    ensures
        memory.subrange(at, at + head.len()) == head,
        memory.subrange(at + head.len(), at + head.len() + tail.len()) == tail,
        forall|i: int| 0 <= i < head.len() ==> memory[at + i] == head[i],
{
    let whole = memory.subrange(at, at + head.len() + tail.len());
    assert forall|i: int| 0 <= i < head.len() implies memory[at + i] == head[i] by {
        assert(whole[i] == memory[at + i]);
        assert((head + tail)[i] == head[i]);
    }
    assert forall|i: int| 0 <= i < tail.len() implies memory[at + head.len() + i] == tail[i] by {
        assert(whole[head.len() + i] == memory[at + head.len() + i]);
        assert((head + tail)[head.len() + i] == tail[i]);
    }
    assert(memory.subrange(at, at + head.len()) =~= head);
    assert(memory.subrange(at + head.len(), at + head.len() + tail.len()) =~= tail);
}

/// The configuration of two operands that a two-operand instruction accepts
/// holds those operands.
pub proof fn lemma_config_of(config: Config)
    ensures
        Config::of(config.destination(), config.source()) == Some(config),
        Config::allows(config.destination().selector(), config.source().selector()),
{
}

/// The configuration of two operands that a conditional jump accepts holds
/// those operands.
pub proof fn lemma_conditional_config_of(config: ConditionalJmpConfig)
    ensures
        ConditionalJmpConfig::of(config.destination(), config.source()) == Some(config),
        ConditionalJmpConfig::allows(
            config.destination().selector(),
            config.source().selector(),
        ),
{
}

/// A two-operand instruction that is no jump decodes from its bytes.
pub proof fn lemma_decode_two(memory: Seq<u8>, pc: Word, named: NamedInstruction, config: Config)
    requires
        memory.len() <= u32::MAX,
        named.shape() == crate::vm::named_instruction::Shape::TwoOperand,
        named != NamedInstruction::Jz,
        named != NamedInstruction::Jnz,
        ({
            let first = config.destination();
            let second = config.source();
            let bytes = seq![
                named.opcode(),
                packet(
                    first.selector().bits(),
                    second.selector().bits(),
                    first.register_bits(),
                    second.register_bits(),
                ),
            ] + (first.immediate_bytes() + second.immediate_bytes());
            &&& pc + bytes.len() <= memory.len()
            &&& memory.subrange(pc as int, pc + bytes.len()) == bytes
        }),
    ensures
        decode(memory, pc) == (Decoded::Instruction {
            instruction: two_operand(named, config),
            next: (pc + 2 + config.destination().immediate_bytes().len()
                + config.source().immediate_bytes().len()) as Word,
        }),
{
    let first = config.destination();
    let second = config.source();
    let byte = packet(
        first.selector().bits(),
        second.selector().bits(),
        first.register_bits(),
        second.register_bits(),
    );
    let head = seq![named.opcode(), byte];
    let tail = first.immediate_bytes() + second.immediate_bytes();
    lemma_parts(memory, pc as int, head, tail);
    assert(memory[pc + 0] == head[0] && memory[pc + 1] == head[1]);
    lemma_operand_fields(first, second);
    lemma_decode_pair(memory, first, second, pc + 2);
    lemma_config_of(config);
    assert(NamedInstruction::of_opcode(named.opcode()) == Some(named));
}

/// A conditional jump decodes from its bytes.
pub proof fn lemma_decode_conditional(
    memory: Seq<u8>,
    pc: Word,
    named: NamedInstruction,
    config: ConditionalJmpConfig,
)
    requires
        memory.len() <= u32::MAX,
        named == NamedInstruction::Jz || named == NamedInstruction::Jnz,
        ({
            let first = config.destination();
            let second = config.source();
            let bytes = seq![
                named.opcode(),
                packet(
                    first.selector().bits(),
                    second.selector().bits(),
                    first.register_bits(),
                    second.register_bits(),
                ),
            ] + (first.immediate_bytes() + second.immediate_bytes());
            &&& pc + bytes.len() <= memory.len()
            &&& memory.subrange(pc as int, pc + bytes.len()) == bytes
        }),
    ensures
        decode(memory, pc) == (Decoded::Instruction {
            instruction: if named == NamedInstruction::Jz {
                Instruction::Jz(config)
            } else {
                Instruction::Jnz(config)
            },
            next: (pc + 2 + config.destination().immediate_bytes().len()
                + config.source().immediate_bytes().len()) as Word,
        }),
{
    let first = config.destination();
    let second = config.source();
    let byte = packet(
        first.selector().bits(),
        second.selector().bits(),
        first.register_bits(),
        second.register_bits(),
    );
    let head = seq![named.opcode(), byte];
    let tail = first.immediate_bytes() + second.immediate_bytes();
    lemma_parts(memory, pc as int, head, tail);
    assert(memory[pc + 0] == head[0] && memory[pc + 1] == head[1]);
    lemma_operand_fields(first, second);
    lemma_decode_pair(memory, first, second, pc + 2);
    lemma_conditional_config_of(config);
}

/// A NOT or a JMP decodes from its bytes.
pub proof fn lemma_decode_one(memory: Seq<u8>, pc: Word, instruction: Instruction)
    requires
        memory.len() <= u32::MAX,
        instruction is Not || instruction is Jmp,
        pc + instruction.encoding().len() <= memory.len(),
        memory.subrange(pc as int, pc + instruction.encoding().len()) == instruction.encoding(),
    ensures
        decode(memory, pc) == (Decoded::Instruction {
            instruction,
            next: (pc + instruction.encoding().len()) as Word,
        }),
{
    let first = instruction.first().unwrap();
    let absolute = instruction matches Instruction::Jmp(_, JmpVariant::Absolute);
    let head = seq![instruction.named().opcode(), instruction.packet()];
    lemma_parts(memory, pc as int, head, first.immediate_bytes());
    assert(memory[pc + 0] == head[0] && memory[pc + 1] == head[1]);
    lemma_single_fields(first, absolute);
    lemma_decode_operand(memory, first, pc + 2);
}

/// Decoding the bytes of an instruction gives the instruction back, and
/// the address after its last byte.
pub proof fn lemma_decode_encoding(memory: Seq<u8>, pc: Word, instruction: Instruction)
    requires
        memory.len() <= u32::MAX,
        pc + instruction.encoding().len() <= memory.len(),
        memory.subrange(pc as int, pc + instruction.encoding().len()) == instruction.encoding(),
    ensures
        decode(memory, pc) == (Decoded::Instruction {
            instruction,
            next: (pc + instruction.encoding().len()) as Word,
        }),
{
    match instruction {
        Instruction::Nop | Instruction::Hlt => {
            let part = memory.subrange(pc as int, pc + 1);
            assert(part[0] == memory[pc as int]);
        },
        Instruction::Not(_) | Instruction::Jmp(_, _) => {
            lemma_decode_one(memory, pc, instruction);
        },
        Instruction::Jz(config) | Instruction::Jnz(config) => {
            assert(instruction.encoding() =~= seq![instruction.named().opcode(), instruction.packet()]
                + (config.destination().immediate_bytes() + config.source().immediate_bytes()));
            lemma_decode_conditional(memory, pc, instruction.named(), config);
        },
        _ => {
            let config = instruction.action().unwrap().0;
            assert(instruction.encoding() =~= seq![instruction.named().opcode(), instruction.packet()]
                + (config.destination().immediate_bytes() + config.source().immediate_bytes()));
            lemma_decode_two(memory, pc, instruction.named(), config);
        },
    }
}

} // verus!
