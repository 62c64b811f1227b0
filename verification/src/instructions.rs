//! What the parser hands to the assembler: instructions with their operands,
//! directives and labels.

use crate::encoding::{Register, Selector};
use crate::text::{bytes_of, spells};
use crate::word::Word;
use vstd::prelude::*;

verus! {

/// A literal word in the source.
pub type Immediate = u32;

/// An operand as written in the source. Names are kept as the bytes of the
/// source.
#[derive(Debug, PartialEq, Clone)]
pub enum Target {
    /// `r0`, `r1`, `fl` or `pc`.
    Register(Register),
    /// `[r0]`: the memory word whose address the register holds.
    RegisterAddress(Register),
    /// A number.
    Immediate(Immediate),
    /// `[number]`: the memory word at that address.
    ImmediateAddress(Immediate),
    /// The name of a label or of a constant.
    Constant(Vec<u8>),
    /// `[name]`.
    ConstantAddress(Vec<u8>),
    /// `.name`: a name in the scope of the latest label.
    SubConstant(Vec<u8>),
    /// `[.name]`.
    SubConstantAddress(Vec<u8>),
}

/// What an operand holds besides its addressing mode.
pub enum Payload {
    /// A register.
    Register(Register),
    /// A literal word.
    Literal(Word),
    /// A name, looked up when the image is fixed up.
    Symbol(Seq<u8>),
    /// A name in the scope of the latest label.
    SubSymbol(Seq<u8>),
}

/// The model of an operand: its addressing mode and what it holds.
pub struct TargetView {
    pub selector: Selector,
    pub payload: Payload,
}

impl View for Target {
    type V = TargetView;

    open spec fn view(&self) -> TargetView {
        match self {
            Target::Register(register) => TargetView {
                selector: Selector::Register,
                payload: Payload::Register(*register),
            },
            Target::RegisterAddress(register) => TargetView {
                selector: Selector::RegisterAddress,
                payload: Payload::Register(*register),
            },
            Target::Immediate(immediate) => TargetView {
                selector: Selector::Immediate,
                payload: Payload::Literal(*immediate),
            },
            Target::ImmediateAddress(immediate) => TargetView {
                selector: Selector::ImmediateAddress,
                payload: Payload::Literal(*immediate),
            },
            Target::Constant(name) => TargetView {
                selector: Selector::Immediate,
                payload: Payload::Symbol(name@),
            },
            Target::ConstantAddress(name) => TargetView {
                selector: Selector::ImmediateAddress,
                payload: Payload::Symbol(name@),
            },
            Target::SubConstant(name) => TargetView {
                selector: Selector::Immediate,
                payload: Payload::SubSymbol(name@),
            },
            Target::SubConstantAddress(name) => TargetView {
                selector: Selector::ImmediateAddress,
                payload: Payload::SubSymbol(name@),
            },
        }
    }
}

impl TargetView {
    /// Whether the addressing mode and the payload go together: a register
    /// mode holds a register, an immediate mode holds a word or a name.
    pub open spec fn wf(self) -> bool {
        self.selector.has_immediate() <==> !(self.payload is Register)
    }

    /// The operand that reads memory where this one reads a value.
    pub open spec fn indirect(self) -> TargetView {
        TargetView {
            selector: match self.selector {
                Selector::Register | Selector::RegisterAddress => Selector::RegisterAddress,
                _ => Selector::ImmediateAddress,
            },
            payload: self.payload,
        }
    }
}

/// The model of every operand pairs its addressing mode with what it can hold.
pub proof fn lemma_target_wf(target: Target)
    ensures
        target@.wf(),
{
}

/// Whether JMP takes its target as an address or as a distance.
#[derive(Clone, Copy, Debug, PartialEq, Eq, Structural)]
pub enum JmpVariant {
    /// `jmpabs`.
    Absolute,
    /// `jmp`.
    Relative,
}

/// An instruction as written in the source.
#[derive(Debug, PartialEq, Clone)]
pub enum Instruction {
    Nop,
    Hlt,
    Mov(Target, Target),
    Not(Target),
    Or(Target, Target),
    And(Target, Target),
    Xor(Target, Target),
    Shl(Target, Target),
    Shr(Target, Target),
    Add(Target, Target),
    Sub(Target, Target),
    Mul(Target, Target),
    IMul(Target, Target),
    Div(Target, Target),
    IDiv(Target, Target),
    Rem(Target, Target),
    Cmp(Target, Target),
    Jmp(Target, JmpVariant),
    Jz(Target, Target),
    Jnz(Target, Target),
}

/// The model of an instruction: its opcode and its operands, by shape.
pub enum InstructionView {
    /// NOP or HLT.
    ZeroOperand { opcode: u8 },
    /// NOT.
    Not { target: TargetView },
    /// JMP; `absolute` is the low bit of its packet.
    Jmp { target: TargetView, absolute: bool },
    /// Every other instruction: a destination and a source.
    TwoOperand { opcode: u8, destination: TargetView, source: TargetView },
}

impl View for Instruction {
    type V = InstructionView;

    open spec fn view(&self) -> InstructionView {
        match self {
            Instruction::Nop => InstructionView::ZeroOperand { opcode: 0x00 },
            Instruction::Hlt => InstructionView::ZeroOperand { opcode: 0x01 },
            Instruction::Not(target) => InstructionView::Not { target: target@ },
            Instruction::Jmp(target, variant) => InstructionView::Jmp {
                target: target@,
                absolute: *variant == JmpVariant::Absolute,
            },
            Instruction::Mov(d, s) => InstructionView::TwoOperand {
                opcode: 0x02,
                destination: d@,
                source: s@,
            },
            Instruction::Or(d, s) => InstructionView::TwoOperand {
                opcode: 0x03,
                destination: d@,
                source: s@,
            },
            Instruction::And(d, s) => InstructionView::TwoOperand {
                opcode: 0x04,
                destination: d@,
                source: s@,
            },
            Instruction::Xor(d, s) => InstructionView::TwoOperand {
                opcode: 0x05,
                destination: d@,
                source: s@,
            },
            Instruction::Shl(d, s) => InstructionView::TwoOperand {
                opcode: 0x07,
                destination: d@,
                source: s@,
            },
            Instruction::Shr(d, s) => InstructionView::TwoOperand {
                opcode: 0x08,
                destination: d@,
                source: s@,
            },
            Instruction::Add(d, s) => InstructionView::TwoOperand {
                opcode: 0x09,
                destination: d@,
                source: s@,
            },
            Instruction::Sub(d, s) => InstructionView::TwoOperand {
                opcode: 0x0a,
                destination: d@,
                source: s@,
            },
            Instruction::Mul(d, s) => InstructionView::TwoOperand {
                opcode: 0x0b,
                destination: d@,
                source: s@,
            },
            Instruction::IMul(d, s) => InstructionView::TwoOperand {
                opcode: 0x0c,
                destination: d@,
                source: s@,
            },
            Instruction::Div(d, s) => InstructionView::TwoOperand {
                opcode: 0x0d,
                destination: d@,
                source: s@,
            },
            Instruction::IDiv(d, s) => InstructionView::TwoOperand {
                opcode: 0x0e,
                destination: d@,
                source: s@,
            },
            Instruction::Rem(d, s) => InstructionView::TwoOperand {
                opcode: 0x0f,
                destination: d@,
                source: s@,
            },
            Instruction::Cmp(d, s) => InstructionView::TwoOperand {
                opcode: 0x10,
                destination: d@,
                source: s@,
            },
            Instruction::Jz(d, s) => InstructionView::TwoOperand {
                opcode: 0x12,
                destination: d@,
                source: s@,
            },
            Instruction::Jnz(d, s) => InstructionView::TwoOperand {
                opcode: 0x13,
                destination: d@,
                source: s@,
            },
        }
    }
}

impl InstructionView {
    /// The opcode byte.
    pub open spec fn opcode(self) -> u8 {
        match self {
            InstructionView::ZeroOperand { opcode } => opcode,
            InstructionView::Not { .. } => 0x06,
            InstructionView::Jmp { .. } => 0x11,
            InstructionView::TwoOperand { opcode, .. } => opcode,
        }
    }
}

/// A directive.
#[derive(Debug, PartialEq, Clone)]
pub enum PreprocessorCommand {
    /// `%offset n`, or `%offset_word n` with `n` already multiplied by 4:
    /// so many zero bytes.
    Offset(u32),
    /// `%define name value`.
    Define(Vec<u8>, u32),
    /// `%define .name value`: a constant in the scope of the latest label.
    DefineSub(Vec<u8>, u32),
    /// `db`: raw bytes.
    DeclareBytes(Vec<u8>),
    /// `dw`: one big-endian word.
    DeclareWord(u32),
}

/// The model of a directive.
pub enum PreprocessorCommandView {
    Offset(u32),
    Define(Seq<u8>, u32),
    DefineSub(Seq<u8>, u32),
    DeclareBytes(Seq<u8>),
    DeclareWord(u32),
}

impl View for PreprocessorCommand {
    type V = PreprocessorCommandView;

    open spec fn view(&self) -> PreprocessorCommandView {
        match self {
            PreprocessorCommand::Offset(count) => PreprocessorCommandView::Offset(*count),
            PreprocessorCommand::Define(name, value) => PreprocessorCommandView::Define(
                name@,
                *value,
            ),
            PreprocessorCommand::DefineSub(name, value) => PreprocessorCommandView::DefineSub(
                name@,
                *value,
            ),
            PreprocessorCommand::DeclareBytes(bytes) => PreprocessorCommandView::DeclareBytes(
                bytes@,
            ),
            PreprocessorCommand::DeclareWord(word) => PreprocessorCommandView::DeclareWord(*word),
        }
    }
}

/// One item of the source: an instruction, a directive, a label, or the end.
#[derive(Debug, PartialEq, Clone)]
pub enum InstructionOrLabel {
    Instruction(Instruction),
    PreprocessorCommand(PreprocessorCommand),
    /// `name:`.
    Label(Vec<u8>),
    /// `.name:`, in the scope of the latest label.
    SubLabel(Vec<u8>),
    /// The end of the source. Nothing after it is assembled.
    EOF,
}

/// The model of one item of the source.
pub enum Item {
    Instruction(InstructionView),
    PreprocessorCommand(PreprocessorCommandView),
    Label(Seq<u8>),
    SubLabel(Seq<u8>),
    EOF,
}

impl View for InstructionOrLabel {
    type V = Item;

    open spec fn view(&self) -> Item {
        match self {
            InstructionOrLabel::Instruction(instruction) => Item::Instruction(instruction@),
            InstructionOrLabel::PreprocessorCommand(command) => Item::PreprocessorCommand(
                command@,
            ),
            InstructionOrLabel::Label(name) => Item::Label(name@),
            InstructionOrLabel::SubLabel(name) => Item::SubLabel(name@),
            InstructionOrLabel::EOF => Item::EOF,
        }
    }
}

/// The models of a run of items.
pub open spec fn items_of(tokens: Seq<InstructionOrLabel>) -> Seq<Item> {
    Seq::new(tokens.len(), |i: int| tokens[i]@)
}

/// An instruction named by its mnemonic, before its operands are parsed.
#[derive(Clone, Copy, Debug, PartialEq, Eq, Structural)]
pub enum NamedInstruction {
    Nop,
    Hlt,
    Mov,
    Not,
    Or,
    And,
    Xor,
    Shl,
    Shr,
    Add,
    Sub,
    Mul,
    IMul,
    Div,
    IDiv,
    Rem,
    Cmp,
    Jmp,
    JmpAbs,
    Jz,
    Jnz,
}

/// The instruction that a word names, if it is a mnemonic.
pub open spec fn named(text: Seq<u8>) -> Option<NamedInstruction> {
    if text == bytes_of("nop") {
        Some(NamedInstruction::Nop)
    } else if text == bytes_of("hlt") {
        Some(NamedInstruction::Hlt)
    } else if text == bytes_of("mov") {
        Some(NamedInstruction::Mov)
    } else if text == bytes_of("not") {
        Some(NamedInstruction::Not)
    } else if text == bytes_of("or") {
        Some(NamedInstruction::Or)
    } else if text == bytes_of("and") {
        Some(NamedInstruction::And)
    } else if text == bytes_of("xor") {
        Some(NamedInstruction::Xor)
    } else if text == bytes_of("shl") {
        Some(NamedInstruction::Shl)
    } else if text == bytes_of("shr") {
        Some(NamedInstruction::Shr)
    } else if text == bytes_of("add") {
        Some(NamedInstruction::Add)
    } else if text == bytes_of("sub") {
        Some(NamedInstruction::Sub)
    } else if text == bytes_of("mul") {
        Some(NamedInstruction::Mul)
    } else if text == bytes_of("imul") {
        Some(NamedInstruction::IMul)
    } else if text == bytes_of("div") {
        Some(NamedInstruction::Div)
    } else if text == bytes_of("idiv") {
        Some(NamedInstruction::IDiv)
    } else if text == bytes_of("rem") {
        Some(NamedInstruction::Rem)
    } else if text == bytes_of("cmp") {
        Some(NamedInstruction::Cmp)
    } else if text == bytes_of("jmp") {
        Some(NamedInstruction::Jmp)
    } else if text == bytes_of("jmpabs") {
        Some(NamedInstruction::JmpAbs)
    } else if text == bytes_of("jz") {
        Some(NamedInstruction::Jz)
    } else if text == bytes_of("jnz") {
        Some(NamedInstruction::Jnz)
    } else {
        None
    }
}

/// Looks a word up among the mnemonics.
pub fn instruction_from_text(text: &[u8]) -> (instruction: Option<NamedInstruction>)
    ensures
        instruction == named(text@),
{
    if spells(text, "nop") {
        Some(NamedInstruction::Nop)
    } else if spells(text, "hlt") {
        Some(NamedInstruction::Hlt)
    } else if spells(text, "mov") {
        Some(NamedInstruction::Mov)
    } else if spells(text, "not") {
        Some(NamedInstruction::Not)
    } else if spells(text, "or") {
        Some(NamedInstruction::Or)
    } else if spells(text, "and") {
        Some(NamedInstruction::And)
    } else if spells(text, "xor") {
        Some(NamedInstruction::Xor)
    } else if spells(text, "shl") {
        Some(NamedInstruction::Shl)
    } else if spells(text, "shr") {
        Some(NamedInstruction::Shr)
    } else if spells(text, "add") {
        Some(NamedInstruction::Add)
    } else if spells(text, "sub") {
        Some(NamedInstruction::Sub)
    } else if spells(text, "mul") {
        Some(NamedInstruction::Mul)
    } else if spells(text, "imul") {
        Some(NamedInstruction::IMul)
    } else if spells(text, "div") {
        Some(NamedInstruction::Div)
    } else if spells(text, "idiv") {
        Some(NamedInstruction::IDiv)
    } else if spells(text, "rem") {
        Some(NamedInstruction::Rem)
    } else if spells(text, "cmp") {
        Some(NamedInstruction::Cmp)
    } else if spells(text, "jmp") {
        Some(NamedInstruction::Jmp)
    } else if spells(text, "jmpabs") {
        Some(NamedInstruction::JmpAbs)
    } else if spells(text, "jz") {
        Some(NamedInstruction::Jz)
    } else if spells(text, "jnz") {
        Some(NamedInstruction::Jnz)
    } else {
        None
    }
}

impl Instruction {
    /// The destination and the source of an instruction that has both.
    pub fn destination_and_source(&self) -> (pair: Option<(&Target, &Target)>)
        ensures
            match self@ {
                InstructionView::TwoOperand { destination, source, .. } => match pair {
                    Some((first, second)) => first@ == destination && second@ == source,
                    None => false,
                },
                _ => pair is None,
            },
    {
        match self {
            Instruction::Nop => None,
            Instruction::Hlt => None,
            Instruction::Not(_) => None,
            Instruction::Jmp(_, _) => None,
            Instruction::Mov(d, s) => Some((d, s)),
            Instruction::Or(d, s) => Some((d, s)),
            Instruction::And(d, s) => Some((d, s)),
            Instruction::Xor(d, s) => Some((d, s)),
            Instruction::Shl(d, s) => Some((d, s)),
            Instruction::Shr(d, s) => Some((d, s)),
            Instruction::Add(d, s) => Some((d, s)),
            Instruction::Sub(d, s) => Some((d, s)),
            Instruction::Mul(d, s) => Some((d, s)),
            Instruction::IMul(d, s) => Some((d, s)),
            Instruction::Div(d, s) => Some((d, s)),
            Instruction::IDiv(d, s) => Some((d, s)),
            Instruction::Rem(d, s) => Some((d, s)),
            Instruction::Cmp(d, s) => Some((d, s)),
            Instruction::Jz(d, s) => Some((d, s)),
            Instruction::Jnz(d, s) => Some((d, s)),
        }
    }
}

impl NamedInstruction {
    /// How many operands the mnemonic takes.
    pub open spec fn arity(self) -> nat {
        match self {
            NamedInstruction::Nop | NamedInstruction::Hlt => 0,
            NamedInstruction::Not | NamedInstruction::Jmp | NamedInstruction::JmpAbs => 1,
            _ => 2,
        }
    }

    /// The opcode that the mnemonic assembles to.
    pub open spec fn opcode(self) -> u8 {
        match self {
            NamedInstruction::Nop => 0x00,
            NamedInstruction::Hlt => 0x01,
            NamedInstruction::Mov => 0x02,
            NamedInstruction::Or => 0x03,
            NamedInstruction::And => 0x04,
            NamedInstruction::Xor => 0x05,
            NamedInstruction::Not => 0x06,
            NamedInstruction::Shl => 0x07,
            NamedInstruction::Shr => 0x08,
            NamedInstruction::Add => 0x09,
            NamedInstruction::Sub => 0x0a,
            NamedInstruction::Mul => 0x0b,
            NamedInstruction::IMul => 0x0c,
            NamedInstruction::Div => 0x0d,
            NamedInstruction::IDiv => 0x0e,
            NamedInstruction::Rem => 0x0f,
            NamedInstruction::Cmp => 0x10,
            NamedInstruction::Jmp => 0x11,
            NamedInstruction::JmpAbs => 0x11,
            NamedInstruction::Jz => 0x12,
            NamedInstruction::Jnz => 0x13,
        }
    }

    /// The instruction that the mnemonic makes of one operand.
    pub open spec fn with_one(self, target: TargetView) -> InstructionView {
        match self {
            NamedInstruction::Not => InstructionView::Not { target },
            NamedInstruction::JmpAbs => InstructionView::Jmp { target, absolute: true },
            _ => InstructionView::Jmp { target, absolute: false },
        }
    }

    /// The instruction that the mnemonic makes of two operands.
    pub open spec fn with_two(self, destination: TargetView, source: TargetView) -> InstructionView {
        InstructionView::TwoOperand { opcode: self.opcode(), destination, source }
    }
}

impl NamedInstruction {
    /// How many operands the mnemonic takes.
    pub fn operand_count(&self) -> (count: u8)
        ensures
            count == self.arity(),
    {
        match self {
            NamedInstruction::Nop | NamedInstruction::Hlt => 0,
            NamedInstruction::Not | NamedInstruction::Jmp | NamedInstruction::JmpAbs => 1,
            _ => 2,
        }
    }

    /// The instruction that a mnemonic without operands names.
    pub fn alone(&self) -> (instruction: Instruction)
        requires
            self.arity() == 0,
        ensures
            instruction@ == (InstructionView::ZeroOperand { opcode: self.opcode() }),
    {
        match self {
            NamedInstruction::Nop => Instruction::Nop,
            _ => Instruction::Hlt,
        }
    }

    /// The instruction that the mnemonic makes of one operand.
    pub fn one(&self, target: Target) -> (instruction: Instruction)
        requires
            self.arity() == 1,
        ensures
            instruction@ == self.with_one(target@),
    {
        match self {
            NamedInstruction::Not => Instruction::Not(target),
            NamedInstruction::JmpAbs => Instruction::Jmp(target, JmpVariant::Absolute),
            _ => Instruction::Jmp(target, JmpVariant::Relative),
        }
    }

    /// The instruction that the mnemonic makes of two operands.
    pub fn two(&self, destination: Target, source: Target) -> (instruction: Instruction)
        requires
            self.arity() == 2,
        ensures
            instruction@ == self.with_two(destination@, source@),
    {
        match self {
            NamedInstruction::Mov => Instruction::Mov(destination, source),
            NamedInstruction::Or => Instruction::Or(destination, source),
            NamedInstruction::And => Instruction::And(destination, source),
            NamedInstruction::Xor => Instruction::Xor(destination, source),
            NamedInstruction::Shl => Instruction::Shl(destination, source),
            NamedInstruction::Shr => Instruction::Shr(destination, source),
            NamedInstruction::Add => Instruction::Add(destination, source),
            NamedInstruction::Sub => Instruction::Sub(destination, source),
            NamedInstruction::Mul => Instruction::Mul(destination, source),
            NamedInstruction::IMul => Instruction::IMul(destination, source),
            NamedInstruction::Div => Instruction::Div(destination, source),
            NamedInstruction::IDiv => Instruction::IDiv(destination, source),
            NamedInstruction::Rem => Instruction::Rem(destination, source),
            NamedInstruction::Cmp => Instruction::Cmp(destination, source),
            NamedInstruction::Jz => Instruction::Jz(destination, source),
            _ => Instruction::Jnz(destination, source),
        }
    }
}

impl Target {
    /// The operand that reads memory where a direct operand reads a value.
    pub fn into_address(self) -> (target: Target)
        ensures
            target@ == self@.indirect(),
    {
        match self {
            Target::Register(register) => Target::RegisterAddress(register),
            Target::Immediate(immediate) => Target::ImmediateAddress(immediate),
            Target::Constant(label) => Target::ConstantAddress(label),
            Target::SubConstant(label) => Target::SubConstantAddress(label),
            Target::RegisterAddress(register) => Target::RegisterAddress(register),
            Target::ImmediateAddress(immediate) => Target::ImmediateAddress(immediate),
            Target::ConstantAddress(label) => Target::ConstantAddress(label),
            Target::SubConstantAddress(label) => Target::SubConstantAddress(label),
        }
    }
}

} // verus!
