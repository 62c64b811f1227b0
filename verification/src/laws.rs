//! Laws that tie the assembler to the interpreter.

use crate::assembler::laws::{layout, lemma_instruction_layout, operand_bytes};
use crate::assembler::model::{
    assemble, emit, emit_prefix, end_of, label_key, register_bits, resolve,
};
use crate::assembler::source::assemble_source;
use crate::assembler::symbols::PreprocessorConstant;
use crate::encoding::Register;
use crate::instructions::{InstructionView, Item, Payload, TargetView};
use crate::vm::encode::lemma_decode_encoding;
use crate::vm::instruction::{
    decode, two_operand, ConditionalJmpConfig, Config, Decoded, Instruction, JmpConfig, JmpVariant,
    NotConfig,
};
use crate::vm::named_instruction::{NamedInstruction, Shape};
use crate::vm::state::{Operand, VmState};
use crate::word::Word;
use vstd::prelude::*;

verus! {

/// The word of an operand as written in the source: nothing for a
/// register, a literal itself, and for a name the word it resolves to.
pub open spec fn word_of_target(
    target: TargetView,
    current_label: Option<Seq<u8>>,
    symbols: Map<Seq<u8>, PreprocessorConstant>,
    position: int,
) -> Word {
    match target.payload {
        Payload::Register(_) => 0,
        Payload::Literal(word) => word,
        Payload::Symbol(name) => resolve(symbols, name, position).unwrap(),
        Payload::SubSymbol(name) => resolve(
            symbols,
            label_key(current_label, name).unwrap(),
            position,
        ).unwrap(),
    }
}

/// The operand that the interpreter sees for an operand of the source.
pub open spec fn operand_of_target(
    target: TargetView,
    current_label: Option<Seq<u8>>,
    symbols: Map<Seq<u8>, PreprocessorConstant>,
    position: int,
) -> Operand {
    Operand::of(
        target.selector,
        match target.payload {
            Payload::Register(register) => register,
            _ => Register::GeneralPurpose0,
        },
        word_of_target(target, current_label, symbols, position),
    )
}

/// The instruction that the interpreter sees for an instruction of the
/// source, where the interpreter accepts its operands.
pub open spec fn machine_instruction(
    instruction: InstructionView,
    current_label: Option<Seq<u8>>,
    symbols: Map<Seq<u8>, PreprocessorConstant>,
    position: int,
) -> Option<Instruction> {
    match instruction {
        InstructionView::ZeroOperand { opcode } => if opcode == 0x00 {
            Some(Instruction::Nop)
        } else if opcode == 0x01 {
            Some(Instruction::Hlt)
        } else {
            None
        },
        InstructionView::Not { target } => match NotConfig::of(
            operand_of_target(target, current_label, symbols, position),
        ) {
            Some(config) => Some(Instruction::Not(config)),
            None => None,
        },
        InstructionView::Jmp { target, absolute } => Some(
            Instruction::Jmp(
                JmpConfig::of(operand_of_target(target, current_label, symbols, position)),
                if absolute {
                    JmpVariant::Absolute
                } else {
                    JmpVariant::Relative
                },
            ),
        ),
        InstructionView::TwoOperand { opcode, destination, source } => {
            let first = operand_of_target(destination, current_label, symbols, position);
            let second = operand_of_target(source, current_label, symbols, position);
            match NamedInstruction::of_opcode(opcode) {
                Some(NamedInstruction::Jz) => match ConditionalJmpConfig::of(first, second) {
                    Some(config) => Some(Instruction::Jz(config)),
                    None => None,
                },
                Some(NamedInstruction::Jnz) => match ConditionalJmpConfig::of(first, second) {
                    Some(config) => Some(Instruction::Jnz(config)),
                    None => None,
                },
                Some(named) => if named.shape() == Shape::TwoOperand {
                    match Config::of(first, second) {
                        Some(config) => Some(two_operand(named, config)),
                        None => None,
                    }
                } else {
                    None
                },
                None => None,
            }
        },
    }
}

impl InstructionView {
    /// The operands of the instruction pair each addressing mode with what
    /// it can hold.
    pub open spec fn wf(self) -> bool {
        match self {
            InstructionView::ZeroOperand { .. } => true,
            InstructionView::Not { target } => target.wf(),
            InstructionView::Jmp { target, .. } => target.wf(),
            InstructionView::TwoOperand { destination, source, .. } => destination.wf()
                && source.wf(),
        }
    }
}

/// The operand that the interpreter sees has the addressing mode, the
/// register bits and the bytes of the operand of the source.
pub proof fn lemma_operand_of_target(
    target: TargetView,
    current_label: Option<Seq<u8>>,
    symbols: Map<Seq<u8>, PreprocessorConstant>,
    position: int,
)
    requires
        target.wf(),
    ensures
        ({
            let operand = operand_of_target(target, current_label, symbols, position);
            &&& operand.selector() == target.selector
            &&& operand.register_bits() == register_bits(target)
            &&& operand.immediate_bytes() == operand_bytes(target, current_label, symbols, position)
        }),
{
}

/// The layout that the assembler gives an instruction is the encoding of
/// the instruction that the interpreter sees.
pub proof fn lemma_layout_is_encoding(
    instruction: InstructionView,
    current_label: Option<Seq<u8>>,
    symbols: Map<Seq<u8>, PreprocessorConstant>,
    position: int,
)
    requires
        instruction.wf(),
        machine_instruction(instruction, current_label, symbols, position) is Some,
    ensures
        layout(instruction, current_label, symbols, position) == machine_instruction(
            instruction,
            current_label,
            symbols,
            position,
        ).unwrap().encoding(),
{
    let seen = machine_instruction(instruction, current_label, symbols, position).unwrap();
    match instruction {
        InstructionView::ZeroOperand { opcode } => {},
        InstructionView::Not { target } => {
            lemma_operand_of_target(target, current_label, symbols, position);
            assert(seen.first() == Some(
                operand_of_target(target, current_label, symbols, position),
            ));
        },
        InstructionView::Jmp { target, absolute } => {
            lemma_operand_of_target(target, current_label, symbols, position);
            assert(seen.first() == Some(
                operand_of_target(target, current_label, symbols, position),
            ));
        },
        InstructionView::TwoOperand { opcode, destination, source } => {
            lemma_operand_of_target(destination, current_label, symbols, position);
            lemma_operand_of_target(source, current_label, symbols, position);
            let first = operand_of_target(destination, current_label, symbols, position);
            let second = operand_of_target(source, current_label, symbols, position);
            assert(seen.first() == Some(first));
            assert(seen.second() == Some(second));
            assert(seen.named().opcode() == opcode);
        },
    }
}

/// What the assembler lays out for an instruction, the interpreter decodes
/// as that instruction: in a freshly loaded machine, the bytes at the offset
/// of an assembled instruction decode to the instruction, with each name
/// replaced by the word it resolves to, and to the offset after it.
pub proof fn lemma_assembled_instruction_decodes(items: Seq<Item>, index: nat, memory_size: nat)
    requires
        assemble(items) is Ok,
        assemble(items)->Ok_0.len() <= memory_size <= u32::MAX,
        index < end_of(items, 0),
        items[index as int] is Instruction,
        items[index as int]->Instruction_0.wf(),
        machine_instruction(
            items[index as int]->Instruction_0,
            emit_prefix(items, index)->Ok_0.current_label,
            emit(items)->Ok_0.symbols,
            emit_prefix(items, index)->Ok_0.entries.len() as int,
        ) is Some,
    ensures
        ({
            let at = emit_prefix(items, index)->Ok_0.entries.len();
            let instruction = machine_instruction(
                items[index as int]->Instruction_0,
                emit_prefix(items, index)->Ok_0.current_label,
                emit(items)->Ok_0.symbols,
                at as int,
            ).unwrap();
            decode(VmState::fresh(assemble(items)->Ok_0, memory_size).memory, at as Word) == (
                Decoded::Instruction {
                    instruction,
                    next: (at + instruction.encoding().len()) as Word,
                })
        }),
{
    let image = assemble(items)->Ok_0;
    let before = emit_prefix(items, index)->Ok_0;
    let last = emit(items)->Ok_0;
    let at = before.entries.len() as int;
    let written = items[index as int]->Instruction_0;
    let memory = VmState::fresh(image, memory_size).memory;
    lemma_instruction_layout(items, index);
    lemma_layout_is_encoding(written, before.current_label, last.symbols, at);
    let instruction = machine_instruction(written, before.current_label, last.symbols, at).unwrap();
    let bytes = instruction.encoding();
    assert(memory.subrange(at, at + bytes.len()) =~= image.subrange(at, at + bytes.len()));
    lemma_decode_encoding(memory, at as Word, instruction);
}

/// A machine that stands on an assembled instruction executes that
/// instruction: where the memory of a running machine holds the bytes that
/// the assembler laid out for an instruction, and the program counter is at
/// the offset of the instruction, one step moves the program counter past
/// the instruction and does what the instruction says, with each name
/// replaced by the word it resolves to.
pub proof fn lemma_step_runs_assembled(items: Seq<Item>, index: nat, state: VmState)
    requires
        assemble(items) is Ok,
        index < end_of(items, 0),
        items[index as int] is Instruction,
        items[index as int]->Instruction_0.wf(),
        machine_instruction(
            items[index as int]->Instruction_0,
            emit_prefix(items, index)->Ok_0.current_label,
            emit(items)->Ok_0.symbols,
            emit_prefix(items, index)->Ok_0.entries.len() as int,
        ) is Some,
        state.wf(),
        assemble(items)->Ok_0.len() <= state.memory.len(),
        state.memory.subrange(0, assemble(items)->Ok_0.len() as int) == assemble(items)->Ok_0,
        state.pc() == emit_prefix(items, index)->Ok_0.entries.len(),
        !state.halted(),
    ensures
        ({
            let at = state.pc();
            let instruction = machine_instruction(
                items[index as int]->Instruction_0,
                emit_prefix(items, index)->Ok_0.current_label,
                emit(items)->Ok_0.symbols,
                at as int,
            ).unwrap();
            let next = (at + instruction.encoding().len()) as Word;
            state.step() == (VmState { hlt_location: None, ..state }).with_pc(next).after(
                instruction,
                at,
            )
        }),
{
    let image = assemble(items)->Ok_0;
    let before = emit_prefix(items, index)->Ok_0;
    let last = emit(items)->Ok_0;
    let at = before.entries.len() as int;
    let written = items[index as int]->Instruction_0;
    lemma_instruction_layout(items, index);
    lemma_layout_is_encoding(written, before.current_label, last.symbols, at);
    let instruction = machine_instruction(written, before.current_label, last.symbols, at).unwrap();
    let bytes = instruction.encoding();
    assert(bytes.len() > 0);
    let code = state.memory.subrange(0, image.len() as int);
    assert(state.memory.subrange(at, at + bytes.len()) =~= code.subrange(at, at + bytes.len()));
    lemma_decode_encoding(state.memory, at as Word, instruction);
}

/// The run of a machine depends on the image alone: two sources that
/// assemble to the same image give, from a fresh machine and after any
/// number of steps, the same registers, the same memory and the same
/// outcome.
pub proof fn lemma_run_depends_on_image(
    first: Seq<u8>,
    second: Seq<u8>,
    memory_size: nat,
    steps: nat,
)
    requires
        assemble_source(first) is Ok,
        assemble_source(second) == assemble_source(first),
    ensures
        VmState::fresh(assemble_source(first)->Ok_0, memory_size).run(steps) == VmState::fresh(
            assemble_source(second)->Ok_0,
            memory_size,
        ).run(steps),
{
}

} // verus!
