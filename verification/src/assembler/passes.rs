//! The assembler itself: the first pass, which emits the intermediate
//! output and declares names, and the second, which resolves references.

use crate::assembler::model::{
    assemble_from, byte_entries, emit_item, emit_range, end_of, entries_of, first_unresolved,
    image_byte, in_place, is_reference, lemma_emit_item_well_formed, lemma_end_of_bounds,
    lemma_entries_push, lemma_first_unresolved_stays, nothing_emitted, operand_entries,
    reference_entries, well_formed, word_of_reference, zero_entries, AssembleError, Emitted, Entry,
    IntermediaryOutput,
};
use crate::assembler::symbols::{PreprocessorConstant, SymbolTable};
use crate::encoding::{make_packet, Register};
use crate::error::ErrorKind;
use crate::instructions::{
    items_of, Instruction, InstructionOrLabel, Item, JmpVariant, PreprocessorCommand, Target,
};
use crate::text::same_bytes;
use crate::word::{be_bytes, modulus, to_be_bytes, wrap};
use vstd::prelude::*;

verus! {

/// An assembly in progress: the items, how far the first pass has come, and
/// what it has emitted and declared.
pub struct Assembler<'a> {
    cursor: usize,
    inner: &'a [InstructionOrLabel],
    constants: SymbolTable,
    current_label: Option<Vec<u8>>,
    instructions: Vec<IntermediaryOutput>,
}

/// The model of an assembly in progress.
pub struct Progress {
    /// Every item, assembled or not.
    pub items: Seq<Item>,
    /// The number of the next item.
    pub cursor: nat,
    /// What the first pass has made so far.
    pub state: Emitted,
}

/// The name behind an optional label.
pub open spec fn label_of(label: Option<Vec<u8>>) -> Option<Seq<u8>> {
    match label {
        Some(name) => Some(name@),
        None => None,
    }
}

impl<'a> View for Assembler<'a> {
    type V = Progress;

    closed spec fn view(&self) -> Progress {
        Progress {
            items: items_of(self.inner@),
            cursor: self.cursor as nat,
            state: Emitted {
                entries: entries_of(self.instructions@),
                symbols: self.constants@,
                current_label: label_of(self.current_label),
            },
        }
    }
}

/// What the first pass makes of one more item: at the end of the source
/// nothing, else what that item emits after what the items before it did.
pub proof fn lemma_emit_step(items: Seq<Item>, state: Emitted, from: nat, cursor: nat, before: Emitted)
    requires
        from <= cursor <= items.len(),
        end_of(items, cursor) == end_of(items, from),
        emit_range(items, state, from, cursor) == Ok::<Emitted, AssembleError>(before),
    ensures
        cursor >= items.len() || items[cursor as int] is EOF ==> end_of(items, from) == cursor,
        cursor < items.len() && !(items[cursor as int] is EOF) ==> {
            &&& end_of(items, cursor + 1) == end_of(items, from)
            &&& cursor + 1 <= end_of(items, from)
            &&& match emit_item(before, items[cursor as int], cursor as int) {
                Ok(next) => emit_range(items, state, from, cursor + 1) == Ok::<
                    Emitted,
                    AssembleError,
                >(next),
                Err(kind) => emit_range(items, state, from, end_of(items, from)) == Err::<
                    Emitted,
                    AssembleError,
                >(AssembleError { kind, token: cursor as usize }),
            }
        },
{
    if cursor < items.len() && !(items[cursor as int] is EOF) {
        lemma_end_of_bounds(items, cursor + 1);
        if emit_item(before, items[cursor as int], cursor as int) is Err {
            lemma_emit_range_fails(items, state, from, cursor + 1, end_of(items, from));
        }
    }
}

/// Where the first pass fails on an item, it fails on every longer run of items.
pub proof fn lemma_emit_range_fails(items: Seq<Item>, state: Emitted, from: nat, to: nat, end: nat)
    requires
        from <= to <= end,
        emit_range(items, state, from, to) is Err,
    ensures
        emit_range(items, state, from, end) == emit_range(items, state, from, to),
    decreases end,
{
    if end > to {
        lemma_emit_range_fails(items, state, from, to, (end - 1) as nat);
    }
}

/// The distance from an opcode at `position` to a label at `offset`, as a
/// two's-complement word.
fn distance(offset: u32, position: usize) -> (word: u32)
    ensures
        word == wrap(offset - position),
{
    let low: u64 = position as u64 % 0x1_0000_0000;
    proof {
        vstd::arithmetic::div_mod::lemma_sub_mod_noop_right(
            offset as int,
            position as int,
            modulus(),
        );
    }
    crate::vm::alu::wrap_wide(offset as i64 - low as i64)
}

impl<'a> Assembler<'a> {
    /// The assembly keeps its promises: the cursor lies within the items,
    /// and the intermediate output is well formed.
    pub closed spec fn wf(&self) -> bool {
        &&& self.constants.wf()
        &&& self.cursor <= self.inner.len()
        &&& well_formed(entries_of(self.instructions@))
    }

    /// Starts an assembly of `inner`, with nothing emitted.
    #[must_use]
    pub fn new(inner: &'a [InstructionOrLabel]) -> (assembler: Self)
        ensures
            assembler.wf(),
            assembler@ == (Progress {
                items: items_of(inner@),
                cursor: 0,
                state: nothing_emitted(),
            }),
    {
        let assembler = Self {
            current_label: None,
            cursor: 0,
            instructions: Vec::new(),
            inner,
            constants: SymbolTable::new(),
        };
        assert(entries_of(assembler.instructions@) =~= Seq::<Entry>::empty());
        assert(well_formed(entries_of(assembler.instructions@)));
        assembler
    }

    /// The selector bits of an operand.
    fn selector_from_target(target: &Target) -> (bits: u8)
        ensures
            bits == target@.selector.bits(),
            bits < 4,
    {
        match target {
            Target::Register(_) => 0b00,
            Target::Immediate(_) | Target::Constant(_) | Target::SubConstant(_) => 0b01,
            Target::RegisterAddress(_) => 0b10,
            Target::ImmediateAddress(_)
            | Target::ConstantAddress(_)
            | Target::SubConstantAddress(_) => 0b11,
        }
    }

    /// The two bits that encode a register.
    fn register_byte(register: &Register) -> (bits: u8)
        ensures
            bits == register.bits(),
            bits < 4,
    {
        match register {
            Register::GeneralPurpose0 => 0b00,
            Register::GeneralPurpose1 => 0b01,
            Register::Flag => 0b10,
            Register::ProgramCounter => 0b11,
        }
    }

    /// The register bits that an operand puts in the packet.
    fn register_from_target(target: &Target) -> (bits: u8)
        ensures
            bits == crate::assembler::model::register_bits(target@),
            bits < 4,
    {
        match target {
            Target::Register(register) | Target::RegisterAddress(register) => Self::register_byte(
                register,
            ),
            _ => 0,
        }
    }

    /// The key of a name in the scope of the latest label.
    fn label_key(&self, sub_label: &[u8]) -> (key: Option<Vec<u8>>)
        ensures
            label_of(key) == crate::assembler::model::label_key(
                self@.state.current_label,
                sub_label@,
            ),
    {
        match &self.current_label {
            None => None,
            Some(parent) => {
                let mut key: Vec<u8> = parent.clone();
                key.push(0x40);
                let mut index: usize = 0;
                while index < sub_label.len()
                    invariant
                        index <= sub_label.len(),
                        key@ == parent@ + seq![0x40u8] + sub_label@.subrange(0, index as int),
                    decreases sub_label.len() - index,
                {
                    key.push(sub_label[index]);
                    index += 1;
                    assert(key@ =~= parent@ + seq![0x40u8] + sub_label@.subrange(0, index as int));
                }
                assert(sub_label@.subrange(0, index as int) =~= sub_label@);
                Some(key)
            },
        }
    }

    /// The opcode byte of an instruction.
    fn instruction_byte(instruction: &Instruction) -> (opcode: u8)
        ensures
            opcode == instruction@.opcode(),
    {
        match instruction {
            Instruction::Nop => 0x00,
            Instruction::Hlt => 0x01,
            Instruction::Mov(_, _) => 0x02,
            Instruction::Or(_, _) => 0x03,
            Instruction::And(_, _) => 0x04,
            Instruction::Xor(_, _) => 0x05,
            Instruction::Not(_) => 0x06,
            Instruction::Shl(_, _) => 0x07,
            Instruction::Shr(_, _) => 0x08,
            Instruction::Add(_, _) => 0x09,
            Instruction::Sub(_, _) => 0x0a,
            Instruction::Mul(_, _) => 0x0b,
            Instruction::IMul(_, _) => 0x0c,
            Instruction::Div(_, _) => 0x0d,
            Instruction::IDiv(_, _) => 0x0e,
            Instruction::Rem(_, _) => 0x0f,
            Instruction::Cmp(_, _) => 0x10,
            Instruction::Jmp(_, _) => 0x11,
            Instruction::Jz(_, _) => 0x12,
            Instruction::Jnz(_, _) => 0x13,
        }
    }

    /// Emits the four big-endian bytes of a literal.
    fn push_immediate(instructions: &mut Vec<IntermediaryOutput>, immediate: u32)
        ensures
            entries_of(final(instructions)@) == entries_of(old(instructions)@) + byte_entries(
                be_bytes(immediate),
            ),
    {
        let bytes = to_be_bytes(immediate);
        instructions.push(IntermediaryOutput::Byte(bytes[0]));
        instructions.push(IntermediaryOutput::Byte(bytes[1]));
        instructions.push(IntermediaryOutput::Byte(bytes[2]));
        instructions.push(IntermediaryOutput::Byte(bytes[3]));
        assert(entries_of(instructions@) =~= entries_of(old(instructions)@) + byte_entries(
            be_bytes(immediate),
        ));
    }

    /// Emits a reference to a name, and the three paddings that keep one
    /// entry for each byte of the image.
    fn push_constant_reference(
        instructions: &mut Vec<IntermediaryOutput>,
        name: Vec<u8>,
        position: usize,
        token: usize,
    )
        ensures
            entries_of(final(instructions)@) == entries_of(old(instructions)@) + reference_entries(
                name@,
                position as int,
                token as int,
            ),
    {
        instructions.push(IntermediaryOutput::ConstantReference { name, position, token });
        instructions.push(IntermediaryOutput::ConstantPadding);
        instructions.push(IntermediaryOutput::ConstantPadding);
        instructions.push(IntermediaryOutput::ConstantPadding);
        assert(entries_of(instructions@) =~= entries_of(old(instructions)@) + reference_entries(
            name@,
            position as int,
            token as int,
        ));
    }

    /// Emits what one operand adds after the packet.
    fn push_target(
        &self,
        instructions: &mut Vec<IntermediaryOutput>,
        target: &Target,
        position: usize,
        token: usize,
    ) -> (pushed: Result<(), ErrorKind>)
        ensures
            match operand_entries(
                target@,
                self@.state.current_label,
                position as int,
                token as int,
            ) {
                Some(entries) => pushed is Ok && entries_of(final(instructions)@) == entries_of(
                    old(instructions)@,
                ) + entries,
                None => pushed == Err::<(), ErrorKind>(ErrorKind::SubConstantWithoutLabel)
                    && final(instructions)@ == old(instructions)@,
            },
    {
        match target {
            Target::Register(_) | Target::RegisterAddress(_) => {
                assert(entries_of(instructions@) + Seq::<Entry>::empty() =~= entries_of(
                    instructions@,
                ));
                Ok(())
            },
            Target::Immediate(immediate) | Target::ImmediateAddress(immediate) => {
                Self::push_immediate(instructions, *immediate);
                Ok(())
            },
            Target::Constant(label) | Target::ConstantAddress(label) => {
                Self::push_constant_reference(instructions, label.clone(), position, token);
                Ok(())
            },
            Target::SubConstant(label) | Target::SubConstantAddress(label) => {
                match self.label_key(label.as_slice()) {
                    Some(key) => {
                        Self::push_constant_reference(instructions, key, position, token);
                        Ok(())
                    },
                    None => Err(ErrorKind::SubConstantWithoutLabel),
                }
            },
        }
    }

    /// Declares a name, unless it already stands for something else.
    fn declare(&mut self, key: Vec<u8>, value: PreprocessorConstant) -> (declared: Result<
        (),
        ErrorKind,
    >)
        requires
            old(self).wf(),
        ensures
            final(self).wf(),
            match crate::assembler::model::declare(old(self)@.state.symbols, key@, value) {
                Ok(symbols) => declared is Ok && final(self)@ == (Progress {
                    state: Emitted { symbols, ..old(self)@.state },
                    ..old(self)@
                }),
                Err(kind) => declared == Err::<(), ErrorKind>(kind) && final(self)@ == old(self)@,
            },
    {
        match self.constants.get(key.as_slice()) {
            None => {
                self.constants.insert(key, value);
                Ok(())
            },
            Some(existing) => {
                if existing == value {
                    assert(self.constants@.insert(key@, value) =~= self.constants@);
                    Ok(())
                } else {
                    Err(
                        match (existing, value) {
                            (
                                PreprocessorConstant::Label(first),
                                PreprocessorConstant::Label(second),
                            ) => ErrorKind::DuplicateLabel { first, second },
                            (PreprocessorConstant::Define(value), PreprocessorConstant::Label(_)) =>
                                ErrorKind::LabelIsConstant { value },
                            (
                                PreprocessorConstant::Define(first),
                                PreprocessorConstant::Define(second),
                            ) => ErrorKind::DuplicateConstant { first, second },
                            (
                                PreprocessorConstant::Label(position),
                                PreprocessorConstant::Define(_),
                            ) => ErrorKind::ConstantIsLabel { position },
                        },
                    )
                }
            },
        }
    }

    /// Emits the entries of one instruction whose opcode will lie at
    /// `position`.
    fn push_instruction(
        &self,
        to_add: &mut Vec<IntermediaryOutput>,
        instruction: &Instruction,
        position: usize,
        token: usize,
    ) -> (pushed: Result<(), ErrorKind>)
        requires
            old(to_add)@.len() == 0,
        ensures
            match crate::assembler::model::instruction_entries(
                instruction@,
                self@.state.current_label,
                position as int,
                token as int,
            ) {
                Ok(entries) => pushed is Ok && entries_of(final(to_add)@) == entries,
                Err(kind) => pushed == Err::<(), ErrorKind>(kind),
            },
    {
        let opcode = Self::instruction_byte(instruction);
        to_add.push(IntermediaryOutput::Byte(opcode));
        let ghost head = seq![
            Entry::Byte(instruction@.opcode()),
            Entry::Byte(crate::assembler::model::packet_of(instruction@)),
        ];
        match instruction {
            Instruction::Nop | Instruction::Hlt => {
                assert(entries_of(to_add@) =~= seq![Entry::Byte(opcode)]);
                Ok(())
            },
            Instruction::Not(target) => {
                let selector = Self::selector_from_target(target);
                if selector == 0b01 {
                    return Err(ErrorKind::InvalidNotTarget);
                }
                let register = Self::register_from_target(target);
                to_add.push(IntermediaryOutput::Byte(make_packet(selector, 0, register, 0)));
                assert(entries_of(to_add@) =~= head);
                self.push_target(to_add, target, position, token)
            },
            Instruction::Jmp(dest, variant) => {
                let dest_selector = Self::selector_from_target(dest);
                let register = Self::register_from_target(dest);
                let variant: u8 = match variant {
                    JmpVariant::Absolute => 1,
                    JmpVariant::Relative => 0,
                };
                to_add.push(
                    IntermediaryOutput::Byte(make_packet(dest_selector, 0, register, variant)),
                );
                assert(entries_of(to_add@) =~= head);
                self.push_target(to_add, dest, position, token)
            },
            _ => {
                match instruction.destination_and_source() {
                    None => Ok(()),
                    Some((dest, src)) => {
                        let dest_selector = Self::selector_from_target(dest);
                        let src_selector = Self::selector_from_target(src);
                        let dest_register = Self::register_from_target(dest);
                        let src_register = Self::register_from_target(src);
                        to_add.push(
                            IntermediaryOutput::Byte(
                                make_packet(dest_selector, src_selector, dest_register, src_register),
                            ),
                        );
                        assert(entries_of(to_add@) =~= head);
                        match self.push_target(to_add, dest, position, token) {
                            Ok(()) => {},
                            Err(kind) => { return Err(kind); },
                        }
                        self.push_target(to_add, src, position, token)
                    },
                }
            },
        }
    }

    /// Appends entries to the intermediate output.
    fn emit_entries(&mut self, to_add: &mut Vec<IntermediaryOutput>)
        requires
            old(self).wf(),
            well_formed(entries_of(old(self).instructions@) + entries_of(old(to_add)@)),
        ensures
            final(self).wf(),
            final(self)@ == (Progress {
                state: Emitted {
                    entries: old(self)@.state.entries + entries_of(old(to_add)@),
                    ..old(self)@.state
                },
                ..old(self)@
            }),
    {
        self.instructions.append(to_add);
        assert(entries_of(self.instructions@) =~= entries_of(old(self).instructions@) + entries_of(
            old(to_add)@,
        ));
    }

    /// Assembles the item at the cursor and moves past it. Says `true`, and
    /// does nothing, at the end of the source.
    fn assemble_next(&mut self) -> (done: Result<bool, AssembleError>)
        requires
            old(self).wf(),
        ensures
            final(self).wf(),
            final(self)@.items == old(self)@.items,
            old(self)@.cursor >= old(self)@.items.len() || old(self)@.items[old(
                self,
            )@.cursor as int] is EOF ==> done == Ok::<bool, AssembleError>(true) && final(self)@
                == old(self)@,
            old(self)@.cursor < old(self)@.items.len() && !(old(self)@.items[old(
                self,
            )@.cursor as int] is EOF) ==> match emit_item(
                old(self)@.state,
                old(self)@.items[old(self)@.cursor as int],
                old(self)@.cursor as int,
            ) {
                Ok(next) => done == Ok::<bool, AssembleError>(false) && final(self)@ == (Progress {
                    state: next,
                    cursor: old(self)@.cursor + 1,
                    ..old(self)@
                }),
                Err(kind) => done == Err::<bool, AssembleError>(
                    AssembleError { kind, token: old(self)@.cursor as usize },
                ) && final(self)@ == old(self)@,
            },
    {
        if self.cursor >= self.inner.len() {
            return Ok(true);
        }
        let token = self.cursor;
        let inner = self.inner;
        let current = &inner[token];
        proof {
            reveal(emit_item);
            lemma_emit_item_well_formed(self@.state, current@, token as int);
        }
        match current {
            InstructionOrLabel::Instruction(instruction) => {
                let position = self.instructions.len();
                let mut to_add: Vec<IntermediaryOutput> = Vec::new();
                match self.push_instruction(&mut to_add, instruction, position, token) {
                    Ok(()) => {},
                    Err(kind) => { return Err(AssembleError { kind, token }); },
                }
                self.emit_entries(&mut to_add);
                self.step();
            },
            InstructionOrLabel::PreprocessorCommand(command) => match command {
                PreprocessorCommand::Offset(offset) => {
                    let mut to_add: Vec<IntermediaryOutput> = Vec::new();
                    let mut count: u32 = 0;
                    while count < *offset
                        invariant
                            count <= *offset,
                            entries_of(to_add@) == zero_entries(count as nat),
                        decreases *offset - count,
                    {
                        proof {
                            lemma_entries_push(to_add@, IntermediaryOutput::Byte(0x0));
                            assert(zero_entries(count as nat).push(Entry::Byte(0u8))
                                =~= zero_entries((count + 1) as nat));
                        }
                        to_add.push(IntermediaryOutput::Byte(0x0));
                        count += 1;
                    }
                    self.emit_entries(&mut to_add);
                    self.step();
                },
                PreprocessorCommand::DeclareBytes(bytes) => {
                    let mut to_add: Vec<IntermediaryOutput> = Vec::new();
                    let mut index: usize = 0;
                    while index < bytes.len()
                        invariant
                            index <= bytes.len(),
                            entries_of(to_add@) == byte_entries(bytes@.subrange(0, index as int)),
                        decreases bytes.len() - index,
                    {
                        proof {
                            lemma_entries_push(to_add@, IntermediaryOutput::Byte(bytes[index as int]));
                            assert(byte_entries(bytes@.subrange(0, index as int)).push(
                                Entry::Byte(bytes[index as int]),
                            ) =~= byte_entries(bytes@.subrange(0, index + 1)));
                        }
                        to_add.push(IntermediaryOutput::Byte(bytes[index]));
                        index += 1;
                    }
                    assert(bytes@.subrange(0, index as int) =~= bytes@);
                    self.emit_entries(&mut to_add);
                    self.step();
                },
                PreprocessorCommand::DeclareWord(word) => {
                    let mut to_add: Vec<IntermediaryOutput> = Vec::new();
                    Self::push_immediate(&mut to_add, *word);
                    assert(entries_of(to_add@) =~= byte_entries(be_bytes(*word)));
                    self.emit_entries(&mut to_add);
                    self.step();
                },
                PreprocessorCommand::Define(name, value) => {
                    match self.declare(name.clone(), PreprocessorConstant::Define(*value)) {
                        Ok(()) => {},
                        Err(kind) => { return Err(AssembleError { kind, token }); },
                    }
                    self.step();
                },
                PreprocessorCommand::DefineSub(label, value) => {
                    let key = match self.label_key(label.as_slice()) {
                        Some(key) => key,
                        None => {
                            return Err(
                                AssembleError { kind: ErrorKind::SubConstantWithoutLabel, token },
                            );
                        },
                    };
                    match self.declare(key, PreprocessorConstant::Define(*value)) {
                        Ok(()) => {},
                        Err(kind) => { return Err(AssembleError { kind, token }); },
                    }
                    self.step();
                },
            },
            InstructionOrLabel::Label(label) => {
                let position = match Self::offset_of(self.instructions.len()) {
                    Some(position) => position,
                    None => {
                        return Err(AssembleError { kind: ErrorKind::ImageTooLarge, token });
                    },
                };
                match self.declare(label.clone(), PreprocessorConstant::Label(position)) {
                    Ok(()) => {},
                    Err(kind) => { return Err(AssembleError { kind, token }); },
                }
                self.current_label = Some(label.clone());
                self.step();
            },
            InstructionOrLabel::SubLabel(label) => {
                let position = match Self::offset_of(self.instructions.len()) {
                    Some(position) => position,
                    None => {
                        return Err(AssembleError { kind: ErrorKind::ImageTooLarge, token });
                    },
                };
                let label_key = match self.label_key(label.as_slice()) {
                    Some(key) => key,
                    None => {
                        return Err(AssembleError { kind: ErrorKind::SubLabelWithoutLabel, token });
                    },
                };
                match self.declare(label_key, PreprocessorConstant::Label(position)) {
                    Ok(()) => {},
                    Err(kind) => { return Err(AssembleError { kind, token }); },
                }
                self.step();
            },
            InstructionOrLabel::EOF => { return Ok(true); },
        }
        Ok(false)
    }

    /// The offset of the next byte of the image, if it fits a word.
    fn offset_of(length: usize) -> (offset: Option<u32>)
        ensures
            length <= u32::MAX ==> offset == Some(length as u32),
            length > u32::MAX ==> offset is None,
    {
        if length > 0xffff_ffff {
            None
        } else {
            Some(length as u32)
        }
    }

    /// The word that a reference stands for, if its name is declared.
    fn resolve(&self, name: &[u8], position: usize) -> (word: Option<u32>)
        requires
            self.wf(),
        ensures
            word == crate::assembler::model::resolve(self@.state.symbols, name@, position as int),
    {
        let prefix = "abs_".as_bytes();
        let absolute = name.len() >= prefix.len() && same_bytes(
            vstd::slice::slice_subrange(name, 0, prefix.len()),
            prefix,
        );
        let bare = if absolute {
            vstd::slice::slice_subrange(name, prefix.len(), name.len())
        } else {
            name
        };
        match self.constants.get(bare) {
            None => None,
            Some(PreprocessorConstant::Define(value)) => Some(value),
            Some(PreprocessorConstant::Label(offset)) => if absolute {
                Some(offset)
            } else {
                Some(distance(offset, position))
            },
        }
    }

    /// The second pass: known bytes pass through, and each reference, with
    /// its three paddings, becomes the four bytes of its word.
    fn fixup(&self) -> (image: Result<Vec<u8>, AssembleError>)
        requires
            self.wf(),
        ensures
            match crate::assembler::model::fixup(self@.state.entries, self@.state.symbols) {
                Ok(bytes) => image matches Ok(out) && out@ == bytes,
                Err(error) => image == Err::<Vec<u8>, AssembleError>(error),
            },
    {
        let ghost entries = self@.state.entries;
        let ghost symbols = self@.state.symbols;
        let mut out: Vec<u8> = Vec::new();
        let mut index: usize = 0;
        while index < self.instructions.len()
            invariant
                self.wf(),
                entries == entries_of(self.instructions@),
                symbols == self.constants@,
                index <= self.instructions.len(),
                out.len() == index,
                first_unresolved(entries, symbols, index as nat) is None,
                forall|k: int| 0 <= k < index ==> out[k] == image_byte(entries, symbols, k),
                !is_reference(entries, index - 1),
                !is_reference(entries, index - 2),
                !is_reference(entries, index - 3),
            decreases self.instructions.len() - index,
        {
            assert(entries[index as int] == self.instructions[index as int]@);
            assert(in_place(entries, index as int));
            match &self.instructions[index] {
                IntermediaryOutput::Byte(v) => {
                    out.push(*v);
                    index += 1;
                },
                IntermediaryOutput::ConstantReference { name, position, token } => {
                    let value = match self.resolve(name.as_slice(), *position) {
                        Some(value) => value,
                        None => {
                            proof {
                                lemma_first_unresolved_stays(
                                    entries,
                                    symbols,
                                    index as int,
                                    entries.len(),
                                );
                            }
                            return Err(
                                AssembleError { kind: ErrorKind::UnresolvedSymbol, token: *token },
                            );
                        },
                    };
                    let bytes = to_be_bytes(value);
                    out.push(bytes[0]);
                    out.push(bytes[1]);
                    out.push(bytes[2]);
                    out.push(bytes[3]);
                    proof {
                        let start = index as int;
                        assert(word_of_reference(entries, symbols, start) == Some(value));
                        assert(first_unresolved(entries, symbols, (start + 1) as nat) is None);
                        assert(first_unresolved(entries, symbols, (start + 2) as nat) is None);
                        assert(first_unresolved(entries, symbols, (start + 3) as nat) is None);
                        assert(first_unresolved(entries, symbols, (start + 4) as nat) is None);
                    }
                    index += 4;
                },
                IntermediaryOutput::ConstantPadding => {
                    assert(false);
                    index += 1;
                },
            }
        }
        assert(out@ =~= Seq::new(entries.len(), |i: int| image_byte(entries, symbols, i)));
        Ok(out)
    }

    /// Assembles every item from the cursor up to the end of the source, and
    /// resolves the references. The image has one byte for each entry of the
    /// intermediate output.
    #[must_use]
    pub fn assemble(self) -> (image: Result<Vec<u8>, AssembleError>)
        requires
            self.wf(),
        ensures
            match assemble_from(self@.items, self@.state, self@.cursor) {
                Ok(bytes) => image matches Ok(out) && out@ == bytes,
                Err(error) => image == Err::<Vec<u8>, AssembleError>(error),
            },
    {
        let ghost start = self@;
        let mut assembler = self;
        loop
            invariant
                start == self@,
                assembler.wf(),
                assembler@.items == start.items,
                start.cursor <= assembler@.cursor <= start.items.len(),
                end_of(start.items, assembler@.cursor) == end_of(start.items, start.cursor),
                emit_range(start.items, start.state, start.cursor, assembler@.cursor) == Ok::<
                    Emitted,
                    AssembleError,
                >(assembler@.state),
            ensures
                end_of(start.items, start.cursor) == assembler@.cursor,
            decreases start.items.len() - assembler@.cursor,
        {
            let ghost before = assembler@;
            let next = assembler.assemble_next();
            proof {
                lemma_emit_step(start.items, start.state, start.cursor, before.cursor, before.state);
            }
            match next {
                Ok(true) => { break ; },
                Ok(false) => {},
                Err(error) => { return Err(error); },
            }
        }
        assembler.fixup()
    }

    /// Moves the cursor past the item it stands on, without assembling it.
    pub fn step(&mut self)
        requires
            old(self).wf(),
            old(self)@.cursor < old(self)@.items.len(),
        ensures
            final(self).wf(),
            final(self)@ == (Progress { cursor: old(self)@.cursor + 1, ..old(self)@ }),
    {
        self.cursor += 1;
    }

    /// The item at the cursor.
    #[must_use]
    pub fn current(&self) -> (item: &InstructionOrLabel)
        requires
            self.wf(),
            self@.cursor < self@.items.len(),
        ensures
            item@ == self@.items[self@.cursor as int],
    {
        &self.inner[self.cursor]
    }
}

} // verus!
