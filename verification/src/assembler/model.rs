//! The mathematical model of an assembly: what the first pass emits for a
//! run of items, and what the second pass makes of it.

use crate::assembler::symbols::PreprocessorConstant;
use crate::encoding::{packet, Selector};
use crate::error::ErrorKind;
use crate::instructions::{InstructionView, Item, Payload, PreprocessorCommandView, TargetView};
use crate::text::bytes_of;
use crate::word::{be_bytes, wrap, Word};
use vstd::prelude::*;

verus! {

/// One entry of the intermediate output. There is one entry for each byte of
/// the image, so the index of an entry is the offset of its byte.
#[derive(Debug, PartialEq, Clone)]
pub enum IntermediaryOutput {
    /// A byte that is already known.
    Byte(u8),
    /// The first of the four bytes of a word that a name stands for.
    /// `position` is the offset of the opcode of the instruction that uses
    /// the name, and `token` the index of the item that holds it.
    ConstantReference { name: Vec<u8>, position: usize, token: usize },
    /// One of the other three bytes of that word.
    ConstantPadding,
}

/// The model of one entry of the intermediate output.
pub enum Entry {
    Byte(u8),
    Reference { name: Seq<u8>, position: int, token: int },
    Padding,
}

impl View for IntermediaryOutput {
    type V = Entry;

    open spec fn view(&self) -> Entry {
        match self {
            IntermediaryOutput::Byte(byte) => Entry::Byte(*byte),
            IntermediaryOutput::ConstantReference { name, position, token } => Entry::Reference {
                name: name@,
                position: *position as int,
                token: *token as int,
            },
            IntermediaryOutput::ConstantPadding => Entry::Padding,
        }
    }
}

/// The models of a run of entries.
pub open spec fn entries_of(output: Seq<IntermediaryOutput>) -> Seq<Entry> {
    Seq::new(output.len(), |i: int| output[i]@)
}

/// The model of a run of entries with one more entry is the model of the run
/// with the model of the entry.
pub proof fn lemma_entries_push(output: Seq<IntermediaryOutput>, entry: IntermediaryOutput)
    ensures
        entries_of(output.push(entry)) == entries_of(output).push(entry@),
{
    assert(entries_of(output.push(entry)) =~= entries_of(output).push(entry@));
}

/// An error of the assembler, with the index of the item that caused it.
#[derive(Clone, Copy, Debug, PartialEq, Eq, Structural)]
pub struct AssembleError {
    pub kind: ErrorKind,
    pub token: usize,
}

/// What the first pass has made of the items it has seen.
pub struct Emitted {
    /// The intermediate output.
    pub entries: Seq<Entry>,
    /// Every name declared so far.
    pub symbols: Map<Seq<u8>, PreprocessorConstant>,
    /// The name of the latest label.
    pub current_label: Option<Seq<u8>>,
}

/// The key of a name in the scope of the latest label: `parent@name`.
pub open spec fn label_key(current_label: Option<Seq<u8>>, name: Seq<u8>) -> Option<Seq<u8>> {
    match current_label {
        Some(parent) => Some(parent + seq![0x40u8] + name),
        None => None,
    }
}

/// One known entry for each byte.
pub open spec fn byte_entries(bytes: Seq<u8>) -> Seq<Entry> {
    Seq::new(bytes.len(), |i: int| Entry::Byte(bytes[i]))
}

/// So many zero bytes.
pub open spec fn zero_entries(count: nat) -> Seq<Entry> {
    Seq::new(count, |i: int| Entry::Byte(0u8))
}

/// A reference to a name, with its three paddings.
pub open spec fn reference_entries(name: Seq<u8>, position: int, token: int) -> Seq<Entry> {
    seq![Entry::Reference { name, position, token }, Entry::Padding, Entry::Padding, Entry::Padding]
}

/// The entries that follow the packet for one operand: none for a register,
/// the four bytes of a literal, or a reference to a name. `None` where a
/// name in the scope of a label is used before any label.
pub open spec fn operand_entries(
    target: TargetView,
    current_label: Option<Seq<u8>>,
    position: int,
    token: int,
) -> Option<Seq<Entry>> {
    match target.payload {
        Payload::Register(_) => Some(Seq::empty()),
        Payload::Literal(word) => Some(byte_entries(be_bytes(word))),
        Payload::Symbol(name) => Some(reference_entries(name, position, token)),
        Payload::SubSymbol(name) => match label_key(current_label, name) {
            Some(key) => Some(reference_entries(key, position, token)),
            None => None,
        },
    }
}

/// The register bits that an operand puts in the packet: zero unless it
/// holds a register.
pub open spec fn register_bits(target: TargetView) -> u8 {
    match target.payload {
        Payload::Register(register) => register.bits(),
        _ => 0,
    }
}

/// The operand packet of an instruction with operands.
pub open spec fn packet_of(instruction: InstructionView) -> u8 {
    match instruction {
        InstructionView::ZeroOperand { .. } => 0,
        InstructionView::Not { target } => packet(
            target.selector.bits(),
            0,
            register_bits(target),
            0,
        ),
        InstructionView::Jmp { target, absolute } => packet(
            target.selector.bits(),
            0,
            register_bits(target),
            if absolute {
                1
            } else {
                0
            },
        ),
        InstructionView::TwoOperand { destination, source, .. } => packet(
            destination.selector.bits(),
            source.selector.bits(),
            register_bits(destination),
            register_bits(source),
        ),
    }
}

/// The entries of one instruction whose opcode lies at offset `position`:
/// the opcode, the packet if the instruction has operands, and what each
/// operand adds, the destination first.
pub open spec fn instruction_entries(
    instruction: InstructionView,
    current_label: Option<Seq<u8>>,
    position: int,
    token: int,
) -> Result<Seq<Entry>, ErrorKind> {
    let head = seq![Entry::Byte(instruction.opcode()), Entry::Byte(packet_of(instruction))];
    match instruction {
        InstructionView::ZeroOperand { opcode } => Ok(seq![Entry::Byte(opcode)]),
        InstructionView::Not { target } => if target.selector == Selector::Immediate {
            Err(ErrorKind::InvalidNotTarget)
        } else {
            match operand_entries(target, current_label, position, token) {
                Some(entries) => Ok(head + entries),
                None => Err(ErrorKind::SubConstantWithoutLabel),
            }
        },
        InstructionView::Jmp { target, .. } => match operand_entries(
            target,
            current_label,
            position,
            token,
        ) {
            Some(entries) => Ok(head + entries),
            None => Err(ErrorKind::SubConstantWithoutLabel),
        },
        InstructionView::TwoOperand { destination, source, .. } => match (
            operand_entries(destination, current_label, position, token),
            operand_entries(source, current_label, position, token),
        ) {
            (Some(first), Some(second)) => Ok(head + first + second),
            _ => Err(ErrorKind::SubConstantWithoutLabel),
        },
    }
}

/// The symbol table after `key` is declared as `value`. A name can be
/// declared again only as what it already is.
pub open spec fn declare(
    symbols: Map<Seq<u8>, PreprocessorConstant>,
    key: Seq<u8>,
    value: PreprocessorConstant,
) -> Result<Map<Seq<u8>, PreprocessorConstant>, ErrorKind> {
    if !symbols.contains_key(key) || symbols[key] == value {
        Ok(symbols.insert(key, value))
    } else {
        Err(
            match (symbols[key], value) {
                (PreprocessorConstant::Label(first), PreprocessorConstant::Label(second)) =>
                    ErrorKind::DuplicateLabel { first, second },
                (PreprocessorConstant::Define(value), PreprocessorConstant::Label(_)) =>
                    ErrorKind::LabelIsConstant { value },
                (PreprocessorConstant::Define(first), PreprocessorConstant::Define(second)) =>
                    ErrorKind::DuplicateConstant { first, second },
                (PreprocessorConstant::Label(position), PreprocessorConstant::Define(_)) =>
                    ErrorKind::ConstantIsLabel { position },
            },
        )
    }
}

/// The state of the first pass after one more item, which is the item
/// number `token`.
#[verifier::opaque]
pub open spec fn emit_item(state: Emitted, item: Item, token: int) -> Result<Emitted, ErrorKind> {
    match item {
        Item::Instruction(instruction) => match instruction_entries(
            instruction,
            state.current_label,
            state.entries.len() as int,
            token,
        ) {
            Ok(entries) => Ok(Emitted { entries: state.entries + entries, ..state }),
            Err(kind) => Err(kind),
        },
        Item::PreprocessorCommand(PreprocessorCommandView::Offset(count)) => Ok(
            Emitted { entries: state.entries + zero_entries(count as nat), ..state },
        ),
        Item::PreprocessorCommand(PreprocessorCommandView::DeclareBytes(bytes)) => Ok(
            Emitted { entries: state.entries + byte_entries(bytes), ..state },
        ),
        Item::PreprocessorCommand(PreprocessorCommandView::DeclareWord(word)) => Ok(
            Emitted { entries: state.entries + byte_entries(be_bytes(word)), ..state },
        ),
        Item::PreprocessorCommand(PreprocessorCommandView::Define(name, value)) => match declare(
            state.symbols,
            name,
            PreprocessorConstant::Define(value),
        ) {
            Ok(symbols) => Ok(Emitted { symbols, ..state }),
            Err(kind) => Err(kind),
        },
        Item::PreprocessorCommand(PreprocessorCommandView::DefineSub(name, value)) => match label_key(
            state.current_label,
            name,
        ) {
            None => Err(ErrorKind::SubConstantWithoutLabel),
            Some(key) => match declare(state.symbols, key, PreprocessorConstant::Define(value)) {
                Ok(symbols) => Ok(Emitted { symbols, ..state }),
                Err(kind) => Err(kind),
            },
        },
        Item::Label(name) => if state.entries.len() > u32::MAX {
            Err(ErrorKind::ImageTooLarge)
        } else {
            match declare(
                state.symbols,
                name,
                PreprocessorConstant::Label(state.entries.len() as u32),
            ) {
                Ok(symbols) => Ok(Emitted { symbols, current_label: Some(name), ..state }),
                Err(kind) => Err(kind),
            }
        },
        Item::SubLabel(name) => if state.entries.len() > u32::MAX {
            Err(ErrorKind::ImageTooLarge)
        } else {
            match label_key(state.current_label, name) {
                None => Err(ErrorKind::SubLabelWithoutLabel),
                Some(key) => match declare(
                    state.symbols,
                    key,
                    PreprocessorConstant::Label(state.entries.len() as u32),
                ) {
                    Ok(symbols) => Ok(Emitted { symbols, ..state }),
                    Err(kind) => Err(kind),
                },
            }
        },
        Item::EOF => Ok(state),
    }
}

/// The state of the first pass before any item.
pub open spec fn nothing_emitted() -> Emitted {
    Emitted { entries: Seq::empty(), symbols: Map::empty(), current_label: None }
}

/// The state of the first pass after the items from number `from` up to
/// number `to` are emitted in a pass that stands at `state`, or the first
/// error among them.
pub open spec fn emit_range(items: Seq<Item>, state: Emitted, from: nat, to: nat) -> Result<
    Emitted,
    AssembleError,
>
    decreases to,
{
    if to <= from {
        Ok(state)
    } else {
        match emit_range(items, state, from, (to - 1) as nat) {
            Err(error) => Err(error),
            Ok(before) => match emit_item(before, items[to - 1], to - 1) {
                Ok(next) => Ok(next),
                Err(kind) => Err(AssembleError { kind, token: (to - 1) as usize }),
            },
        }
    }
}

/// The state of the first pass after the first `count` items, or the first
/// error among them.
pub open spec fn emit_prefix(items: Seq<Item>, count: nat) -> Result<Emitted, AssembleError> {
    emit_range(items, nothing_emitted(), 0, count)
}

/// The index of the first end-of-source item at or after `from`, or the
/// number of items if there is none.
pub open spec fn end_of(items: Seq<Item>, from: nat) -> nat
    decreases items.len() - from,
{
    if from >= items.len() {
        items.len()
    } else if items[from as int] is EOF {
        from
    } else {
        end_of(items, from + 1)
    }
}

/// The end of the source lies at or after the item where the search starts,
/// and within the items.
pub proof fn lemma_end_of_bounds(items: Seq<Item>, from: nat)
    requires
        from <= items.len(),
    ensures
        from <= end_of(items, from) <= items.len(),
    decreases items.len() - from,
{
    if from < items.len() && !(items[from as int] is EOF) {
        lemma_end_of_bounds(items, from + 1);
    }
}

/// The outcome of the first pass: every item before the first end-of-source
/// item is emitted, in order.
pub open spec fn emit(items: Seq<Item>) -> Result<Emitted, AssembleError> {
    emit_prefix(items, end_of(items, 0))
}

/// Whether `name` starts with `prefix`.
pub open spec fn has_prefix(name: Seq<u8>, prefix: Seq<u8>) -> bool {
    prefix.len() <= name.len() && name.subrange(0, prefix.len() as int) == prefix
}

/// Whether a reference asks for the absolute value of its name: it starts
/// with `abs_`.
pub open spec fn is_absolute(name: Seq<u8>) -> bool {
    has_prefix(name, bytes_of("abs_"))
}

/// The name that a reference looks up: the name without a leading `abs_`.
pub open spec fn bare_name(name: Seq<u8>) -> Seq<u8> {
    if is_absolute(name) {
        name.subrange(bytes_of("abs_").len() as int, name.len() as int)
    } else {
        name
    }
}

/// The word that a reference to `name` stands for, in an instruction whose
/// opcode lies at `position`: the value of a constant; the offset of a label
/// if the reference is absolute, else its distance from the opcode, as a
/// two's-complement word. `None` where nothing declares the name.
pub open spec fn resolve(
    symbols: Map<Seq<u8>, PreprocessorConstant>,
    name: Seq<u8>,
    position: int,
) -> Option<Word> {
    if symbols.contains_key(bare_name(name)) {
        Some(
            match symbols[bare_name(name)] {
                PreprocessorConstant::Define(value) => value,
                PreprocessorConstant::Label(offset) => if is_absolute(name) {
                    offset
                } else {
                    wrap(offset - position)
                },
            },
        )
    } else {
        None
    }
}

/// Whether the entry at `index` is a reference.
pub open spec fn is_reference(entries: Seq<Entry>, index: int) -> bool {
    0 <= index < entries.len() && entries[index] is Reference
}

/// The index of the reference that the padding at `index` belongs to.
pub open spec fn owner(entries: Seq<Entry>, index: int) -> int {
    if is_reference(entries, index - 1) {
        index - 1
    } else if is_reference(entries, index - 2) {
        index - 2
    } else {
        index - 3
    }
}

/// Whether the entry at `index` stands where it may: a reference is
/// followed by its three paddings, and a padding belongs to a reference.
pub open spec fn in_place(entries: Seq<Entry>, index: int) -> bool {
    match entries[index] {
        Entry::Byte(_) => true,
        Entry::Reference { .. } => {
            &&& index + 3 < entries.len()
            &&& entries[index + 1] is Padding
            &&& entries[index + 2] is Padding
            &&& entries[index + 3] is Padding
        },
        Entry::Padding => is_reference(entries, index - 1) || is_reference(entries, index - 2)
            || is_reference(entries, index - 3),
    }
}

/// Every reference is followed by its three paddings, and every padding
/// belongs to a reference.
pub open spec fn well_formed(entries: Seq<Entry>) -> bool {
    forall|i: int| 0 <= i < entries.len() ==> #[trigger] in_place(entries, i)
}

/// The word of the reference at `index`, if its name is declared.
pub open spec fn word_of_reference(
    entries: Seq<Entry>,
    symbols: Map<Seq<u8>, PreprocessorConstant>,
    index: int,
) -> Option<Word> {
    match entries[index] {
        Entry::Reference { name, position, .. } => resolve(symbols, name, position),
        _ => None,
    }
}

/// The byte of the image at `index`.
pub open spec fn image_byte(
    entries: Seq<Entry>,
    symbols: Map<Seq<u8>, PreprocessorConstant>,
    index: int,
) -> u8 {
    match entries[index] {
        Entry::Byte(byte) => byte,
        Entry::Reference { .. } => be_bytes(word_of_reference(entries, symbols, index).unwrap())[0],
        Entry::Padding => be_bytes(
            word_of_reference(entries, symbols, owner(entries, index)).unwrap(),
        )[index - owner(entries, index)],
    }
}

/// The index of the first reference among the first `count` entries whose
/// name nothing declares.
pub open spec fn first_unresolved(
    entries: Seq<Entry>,
    symbols: Map<Seq<u8>, PreprocessorConstant>,
    count: nat,
) -> Option<int>
    decreases count,
{
    if count == 0 {
        None
    } else {
        match first_unresolved(entries, symbols, (count - 1) as nat) {
            Some(index) => Some(index),
            None => if entries[count - 1] is Reference && word_of_reference(
                entries,
                symbols,
                count - 1,
            ) is None {
                Some(count - 1)
            } else {
                None
            },
        }
    }
}

/// The outcome of the second pass: one byte for each entry, or the first
/// reference to a name that nothing declares.
pub open spec fn fixup(
    entries: Seq<Entry>,
    symbols: Map<Seq<u8>, PreprocessorConstant>,
) -> Result<Seq<u8>, AssembleError> {
    match first_unresolved(entries, symbols, entries.len()) {
        Some(index) => Err(
            AssembleError {
                kind: ErrorKind::UnresolvedSymbol,
                token: entries[index]->Reference_token as usize,
            },
        ),
        None => Ok(Seq::new(entries.len(), |i: int| image_byte(entries, symbols, i))),
    }
}

/// The image that a run of items assembles to, or the first error.
pub open spec fn assemble(items: Seq<Item>) -> Result<Seq<u8>, AssembleError> {
    match emit(items) {
        Err(error) => Err(error),
        Ok(state) => fixup(state.entries, state.symbols),
    }
}

/// The image that the items from number `from` on assemble to, in a first
/// pass that stands at `state`, or the first error.
pub open spec fn assemble_from(items: Seq<Item>, state: Emitted, from: nat) -> Result<
    Seq<u8>,
    AssembleError,
> {
    match emit_range(items, state, from, end_of(items, from)) {
        Err(error) => Err(error),
        Ok(last) => fixup(last.entries, last.symbols),
    }
}

/// Joining two well-formed runs of entries gives a well-formed run.
pub proof fn lemma_well_formed_join(first: Seq<Entry>, second: Seq<Entry>)
    requires
        well_formed(first),
        well_formed(second),
    ensures
        well_formed(first + second),
{
    let joined = first + second;
    assert forall|i: int| 0 <= i < joined.len() implies #[trigger] in_place(joined, i) by {
        if i < first.len() {
            assert(in_place(first, i));
            assert(joined[i] == first[i]);
            if first[i] is Reference {
                assert(joined[i + 1] == first[i + 1]);
                assert(joined[i + 2] == first[i + 2]);
                assert(joined[i + 3] == first[i + 3]);
            }
            if first[i] is Padding {
                if is_reference(first, i - 1) {
                    assert(joined[i - 1] == first[i - 1]);
                } else if is_reference(first, i - 2) {
                    assert(joined[i - 2] == first[i - 2]);
                } else {
                    assert(joined[i - 3] == first[i - 3]);
                }
            }
        } else {
            let j = i - first.len();
            assert(in_place(second, j));
            assert(joined[i] == second[j]);
            if second[j] is Reference {
                assert(joined[i + 1] == second[j + 1]);
                assert(joined[i + 2] == second[j + 2]);
                assert(joined[i + 3] == second[j + 3]);
            }
            if second[j] is Padding {
                if is_reference(second, j - 1) {
                    assert(joined[i - 1] == second[j - 1]);
                } else if is_reference(second, j - 2) {
                    assert(joined[i - 2] == second[j - 2]);
                } else {
                    assert(joined[i - 3] == second[j - 3]);
                }
            }
        }
    }
}

/// What one operand adds to the intermediate output is well formed.
pub proof fn lemma_operand_entries_well_formed(
    target: TargetView,
    current_label: Option<Seq<u8>>,
    position: int,
    token: int,
)
    ensures
        operand_entries(target, current_label, position, token) matches Some(entries)
            ==> well_formed(entries),
{
    match operand_entries(target, current_label, position, token) {
        Some(entries) => {
            assert forall|i: int| 0 <= i < entries.len() implies #[trigger] in_place(
                entries,
                i,
            ) by {
                if entries[0] is Reference {
                    assert(is_reference(entries, 0));
                }
            }
        },
        None => {},
    }
}

/// A run of known bytes is well formed.
pub proof fn lemma_bytes_well_formed(entries: Seq<Entry>)
    requires
        forall|i: int| 0 <= i < entries.len() ==> entries[i] is Byte,
    ensures
        well_formed(entries),
{
    assert forall|i: int| 0 <= i < entries.len() implies #[trigger] in_place(entries, i) by {}
}

/// What one instruction adds to the intermediate output is well formed.
pub proof fn lemma_instruction_entries_well_formed(
    instruction: InstructionView,
    current_label: Option<Seq<u8>>,
    position: int,
    token: int,
)
    ensures
        instruction_entries(instruction, current_label, position, token) matches Ok(entries)
            ==> well_formed(entries),
{
    let head = seq![Entry::Byte(instruction.opcode()), Entry::Byte(packet_of(instruction))];
    lemma_bytes_well_formed(head);
    match instruction {
        InstructionView::ZeroOperand { opcode } => {
            lemma_bytes_well_formed(seq![Entry::Byte(opcode)]);
        },
        InstructionView::Not { target } => {
            lemma_operand_entries_well_formed(target, current_label, position, token);
            match operand_entries(target, current_label, position, token) {
                Some(entries) => lemma_well_formed_join(head, entries),
                None => {},
            }
        },
        InstructionView::Jmp { target, .. } => {
            lemma_operand_entries_well_formed(target, current_label, position, token);
            match operand_entries(target, current_label, position, token) {
                Some(entries) => lemma_well_formed_join(head, entries),
                None => {},
            }
        },
        InstructionView::TwoOperand { destination, source, .. } => {
            lemma_operand_entries_well_formed(destination, current_label, position, token);
            lemma_operand_entries_well_formed(source, current_label, position, token);
            match (
                operand_entries(destination, current_label, position, token),
                operand_entries(source, current_label, position, token),
            ) {
                (Some(first), Some(second)) => {
                    lemma_well_formed_join(head, first);
                    lemma_well_formed_join(head + first, second);
                },
                _ => {},
            }
        },
    }
}

/// The first pass keeps the intermediate output well formed.
pub proof fn lemma_emit_item_well_formed(state: Emitted, item: Item, token: int)
    requires
        well_formed(state.entries),
    ensures
        emit_item(state, item, token) matches Ok(next) ==> well_formed(next.entries),
{
    reveal(emit_item);
    match item {
        Item::Instruction(instruction) => {
            lemma_instruction_entries_well_formed(
                instruction,
                state.current_label,
                state.entries.len() as int,
                token,
            );
            match instruction_entries(
                instruction,
                state.current_label,
                state.entries.len() as int,
                token,
            ) {
                Ok(entries) => lemma_well_formed_join(state.entries, entries),
                Err(_) => {},
            }
        },
        Item::PreprocessorCommand(PreprocessorCommandView::Offset(count)) => {
            lemma_bytes_well_formed(zero_entries(count as nat));
            lemma_well_formed_join(state.entries, zero_entries(count as nat));
        },
        Item::PreprocessorCommand(PreprocessorCommandView::DeclareBytes(bytes)) => {
            lemma_bytes_well_formed(byte_entries(bytes));
            lemma_well_formed_join(state.entries, byte_entries(bytes));
        },
        Item::PreprocessorCommand(PreprocessorCommandView::DeclareWord(word)) => {
            lemma_bytes_well_formed(byte_entries(be_bytes(word)));
            lemma_well_formed_join(state.entries, byte_entries(be_bytes(word)));
        },
        _ => {},
    }
}

/// Once a reference is found that nothing declares, it stays the first such.
pub proof fn lemma_first_unresolved_stays(
    entries: Seq<Entry>,
    symbols: Map<Seq<u8>, PreprocessorConstant>,
    index: int,
    count: nat,
)
    requires
        0 <= index < count,
        first_unresolved(entries, symbols, index as nat) is None,
        entries[index] is Reference,
        word_of_reference(entries, symbols, index) is None,
    ensures
        first_unresolved(entries, symbols, count) == Some(index),
    decreases count,
{
    if count > index + 1 {
        lemma_first_unresolved_stays(entries, symbols, index, (count - 1) as nat);
    }
}

} // verus!
