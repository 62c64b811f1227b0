//! Laws of the assembler, proved of the model of the two passes.

use crate::assembler::model::{
    assemble, bare_name, byte_entries, emit, emit_item, emit_prefix, emit_range, end_of,
    first_unresolved, image_byte, in_place, instruction_entries, is_absolute, is_reference,
    label_key, lemma_instruction_entries_well_formed, lemma_operand_entries_well_formed,
    lemma_well_formed_join, nothing_emitted, operand_entries, packet_of, reference_entries, resolve,
    well_formed, word_of_reference, zero_entries, AssembleError, Emitted, Entry,
};
use crate::assembler::symbols::PreprocessorConstant;
use crate::instructions::{InstructionView, Item, Payload, PreprocessorCommandView, TargetView};
use crate::word::{be_bytes, wrap, Word};
use vstd::prelude::*;

verus! {

/// The image of a run of entries: the byte of each, in order.
pub open spec fn image_of(
    entries: Seq<Entry>,
    symbols: Map<Seq<u8>, PreprocessorConstant>,
) -> Seq<u8> {
    Seq::new(entries.len(), |i: int| image_byte(entries, symbols, i))
}

/// The image has as many bytes as the intermediate output has entries.
pub proof fn lemma_image_length(items: Seq<Item>)
    ensures
        assemble(items) matches Ok(image) ==> emit(items) matches Ok(state) && image.len()
            == state.entries.len() && image == image_of(state.entries, state.symbols),
{
}

/// Where the second pass succeeds, every reference has a word.
pub proof fn lemma_all_resolved(
    entries: Seq<Entry>,
    symbols: Map<Seq<u8>, PreprocessorConstant>,
    count: nat,
    index: int,
)
    requires
        first_unresolved(entries, symbols, count) is None,
        0 <= index < count,
        entries[index] is Reference,
    ensures
        word_of_reference(entries, symbols, index) is Some,
    decreases count,
{
    if index < count - 1 {
        lemma_all_resolved(entries, symbols, (count - 1) as nat, index);
    }
}

/// Where every reference has a word, the second pass succeeds.
pub proof fn lemma_none_unresolved(
    entries: Seq<Entry>,
    symbols: Map<Seq<u8>, PreprocessorConstant>,
    count: nat,
)
    requires
        count <= entries.len(),
        forall|i: int|
            0 <= i < count && entries[i] is Reference ==> #[trigger] word_of_reference(
                entries,
                symbols,
                i,
            ) is Some,
    ensures
        first_unresolved(entries, symbols, count) is None,
    decreases count,
{
    if count > 0 {
        lemma_none_unresolved(entries, symbols, (count - 1) as nat);
    }
}

/// A well-formed run of entries that lies inside a longer run has the same
/// image there as on its own.
pub proof fn lemma_image_of_part(
    entries: Seq<Entry>,
    symbols: Map<Seq<u8>, PreprocessorConstant>,
    at: int,
    part: Seq<Entry>,
)
    requires
        0 <= at,
        at + part.len() <= entries.len(),
        entries.subrange(at, at + part.len()) == part,
        well_formed(part),
    ensures
        image_of(entries, symbols).subrange(at, at + part.len()) == image_of(part, symbols),
{
    assert forall|j: int| 0 <= j < part.len() implies image_byte(entries, symbols, at + j)
        == image_byte(part, symbols, j) by {
        assert(in_place(part, j));
        assert(part[j] == entries.subrange(at, at + part.len())[j]);
        if part[j] is Padding {
            if is_reference(part, j - 1) {
                assert(part[j - 1] == entries.subrange(at, at + part.len())[j - 1]);
            } else if is_reference(part, j - 2) {
                assert(part[j - 1] == entries.subrange(at, at + part.len())[j - 1]);
                assert(part[j - 2] == entries.subrange(at, at + part.len())[j - 2]);
            } else {
                assert(part[j - 1] == entries.subrange(at, at + part.len())[j - 1]);
                assert(part[j - 2] == entries.subrange(at, at + part.len())[j - 2]);
                assert(part[j - 3] == entries.subrange(at, at + part.len())[j - 3]);
            }
        }
    }
    assert(image_of(entries, symbols).subrange(at, at + part.len()) =~= image_of(part, symbols));
}

/// The image of two well-formed runs joined is their images joined.
pub proof fn lemma_image_of_join(
    first: Seq<Entry>,
    second: Seq<Entry>,
    symbols: Map<Seq<u8>, PreprocessorConstant>,
)
    requires
        well_formed(first),
        well_formed(second),
    ensures
        image_of(first + second, symbols) == image_of(first, symbols) + image_of(second, symbols),
{
    let joined = first + second;
    assert(joined.subrange(0, first.len() as int) =~= first);
    assert(joined.subrange(first.len() as int, (first.len() + second.len()) as int) =~= second);
    lemma_image_of_part(joined, symbols, 0, first);
    lemma_image_of_part(joined, symbols, first.len() as int, second);
    assert(image_of(joined, symbols) =~= image_of(joined, symbols).subrange(0, first.len() as int)
        + image_of(joined, symbols).subrange(first.len() as int, joined.len() as int));
}

/// The image of known bytes is those bytes.
pub proof fn lemma_image_of_bytes(bytes: Seq<u8>, symbols: Map<Seq<u8>, PreprocessorConstant>)
    ensures
        image_of(byte_entries(bytes), symbols) == bytes,
{
    assert(image_of(byte_entries(bytes), symbols) =~= bytes);
}

/// The image of a reference and its paddings is the four big-endian bytes
/// of the word that the name stands for.
pub proof fn lemma_image_of_reference(
    name: Seq<u8>,
    position: int,
    token: int,
    symbols: Map<Seq<u8>, PreprocessorConstant>,
)
    ensures
        image_of(reference_entries(name, position, token), symbols) == be_bytes(
            resolve(symbols, name, position).unwrap(),
        ),
{
    let entries = reference_entries(name, position, token);
    assert(is_reference(entries, 0));
    assert(!is_reference(entries, 1));
    assert(!is_reference(entries, 2));
    assert(image_of(entries, symbols) =~= be_bytes(resolve(symbols, name, position).unwrap()));
}

/// The bytes of one operand in the image: none for a register, the
/// big-endian bytes of a literal, or of the word that a name stands for.
pub open spec fn operand_bytes(
    target: TargetView,
    current_label: Option<Seq<u8>>,
    symbols: Map<Seq<u8>, PreprocessorConstant>,
    position: int,
) -> Seq<u8> {
    match target.payload {
        Payload::Register(_) => Seq::empty(),
        Payload::Literal(word) => be_bytes(word),
        Payload::Symbol(name) => be_bytes(resolve(symbols, name, position).unwrap()),
        Payload::SubSymbol(name) => be_bytes(
            resolve(symbols, label_key(current_label, name).unwrap(), position).unwrap(),
        ),
    }
}

/// The layout of one instruction in the image: the opcode; for an
/// instruction with operands the packet `DDSSRRrr`; then the word of each
/// operand that has one, the destination first.
pub open spec fn layout(
    instruction: InstructionView,
    current_label: Option<Seq<u8>>,
    symbols: Map<Seq<u8>, PreprocessorConstant>,
    position: int,
) -> Seq<u8> {
    match instruction {
        InstructionView::ZeroOperand { opcode } => seq![opcode],
        InstructionView::Not { target } => seq![0x06u8, packet_of(instruction)] + operand_bytes(
            target,
            current_label,
            symbols,
            position,
        ),
        InstructionView::Jmp { target, .. } => seq![0x11u8, packet_of(instruction)] + operand_bytes(
            target,
            current_label,
            symbols,
            position,
        ),
        InstructionView::TwoOperand { opcode, destination, source } => seq![
            opcode,
            packet_of(instruction),
        ] + operand_bytes(destination, current_label, symbols, position) + operand_bytes(
            source,
            current_label,
            symbols,
            position,
        ),
    }
}

/// The image of what one operand emits is the bytes of the operand.
pub proof fn lemma_image_of_operand(
    target: TargetView,
    current_label: Option<Seq<u8>>,
    symbols: Map<Seq<u8>, PreprocessorConstant>,
    position: int,
    token: int,
)
    ensures
        operand_entries(target, current_label, position, token) matches Some(entries)
            ==> image_of(entries, symbols) == operand_bytes(
            target,
            current_label,
            symbols,
            position,
        ),
{
    match target.payload {
        Payload::Register(_) => {
            assert(image_of(Seq::<Entry>::empty(), symbols) =~= Seq::<u8>::empty());
        },
        Payload::Literal(word) => {
            lemma_image_of_bytes(be_bytes(word), symbols);
        },
        Payload::Symbol(name) => {
            lemma_image_of_reference(name, position, token, symbols);
        },
        Payload::SubSymbol(name) => {
            match label_key(current_label, name) {
                Some(key) => lemma_image_of_reference(key, position, token, symbols),
                None => {},
            }
        },
    }
}

/// The image of what one instruction emits is the layout of the instruction.
pub proof fn lemma_image_of_instruction(
    instruction: InstructionView,
    current_label: Option<Seq<u8>>,
    symbols: Map<Seq<u8>, PreprocessorConstant>,
    position: int,
    token: int,
)
    ensures
        instruction_entries(instruction, current_label, position, token) matches Ok(entries)
            ==> image_of(entries, symbols) == layout(
            instruction,
            current_label,
            symbols,
            position,
        ),
{
    let head_bytes = seq![instruction.opcode(), packet_of(instruction)];
    let head = seq![Entry::Byte(instruction.opcode()), Entry::Byte(packet_of(instruction))];
    assert(head =~= byte_entries(head_bytes));
    lemma_image_of_bytes(head_bytes, symbols);
    crate::assembler::model::lemma_bytes_well_formed(head);
    match instruction {
        InstructionView::ZeroOperand { opcode } => {
            assert(seq![Entry::Byte(opcode)] =~= byte_entries(seq![opcode]));
            lemma_image_of_bytes(seq![opcode], symbols);
        },
        InstructionView::Not { target } => {
            lemma_operand_entries_well_formed(target, current_label, position, token);
            lemma_image_of_operand(target, current_label, symbols, position, token);
            match operand_entries(target, current_label, position, token) {
                Some(entries) => lemma_image_of_join(head, entries, symbols),
                None => {},
            }
        },
        InstructionView::Jmp { target, .. } => {
            lemma_operand_entries_well_formed(target, current_label, position, token);
            lemma_image_of_operand(target, current_label, symbols, position, token);
            match operand_entries(target, current_label, position, token) {
                Some(entries) => lemma_image_of_join(head, entries, symbols),
                None => {},
            }
        },
        InstructionView::TwoOperand { destination, source, .. } => {
            lemma_operand_entries_well_formed(destination, current_label, position, token);
            lemma_operand_entries_well_formed(source, current_label, position, token);
            lemma_image_of_operand(destination, current_label, symbols, position, token);
            lemma_image_of_operand(source, current_label, symbols, position, token);
            match (
                operand_entries(destination, current_label, position, token),
                operand_entries(source, current_label, position, token),
            ) {
                (Some(first), Some(second)) => {
                    lemma_image_of_join(head, first, symbols);
                    lemma_well_formed_join(head, first);
                    lemma_image_of_join(head + first, second, symbols);
                },
                _ => {},
            }
        },
    }
}

/// The first pass only appends to the intermediate output, and never
/// changes what a declared name stands for.
pub proof fn lemma_emit_item_grows(state: Emitted, item: Item, token: int)
    ensures
        emit_item(state, item, token) matches Ok(next) ==> {
            &&& state.entries.len() <= next.entries.len()
            &&& next.entries.subrange(0, state.entries.len() as int) == state.entries
            &&& forall|key: Seq<u8>| #[trigger]
                state.symbols.contains_key(key) ==> next.symbols.contains_key(key)
                    && next.symbols[key] == state.symbols[key]
        },
{
    reveal(emit_item);
    match emit_item(state, item, token) {
        Ok(next) => {
            assert(next.entries.subrange(0, state.entries.len() as int) =~= state.entries);
        },
        Err(_) => {},
    }
}

/// Over any run of items the first pass only appends to the intermediate
/// output, and never changes what a declared name stands for.
pub proof fn lemma_emit_range_grows(items: Seq<Item>, state: Emitted, from: nat, to: nat)
    ensures
        emit_range(items, state, from, to) matches Ok(last) ==> {
            &&& state.entries.len() <= last.entries.len()
            &&& last.entries.subrange(0, state.entries.len() as int) == state.entries
            &&& forall|key: Seq<u8>| #[trigger]
                state.symbols.contains_key(key) ==> last.symbols.contains_key(key)
                    && last.symbols[key] == state.symbols[key]
        },
    decreases to,
{
    if to <= from {
        assert(state.entries.subrange(0, state.entries.len() as int) =~= state.entries);
    } else {
        lemma_emit_range_grows(items, state, from, (to - 1) as nat);
        match emit_range(items, state, from, (to - 1) as nat) {
            Ok(before) => {
                lemma_emit_item_grows(before, items[to - 1], to - 1);
                match emit_item(before, items[to - 1], to - 1) {
                    Ok(last) => {
                        assert(last.entries.subrange(0, state.entries.len() as int)
                            =~= last.entries.subrange(0, before.entries.len() as int).subrange(
                            0,
                            state.entries.len() as int,
                        ));
                    },
                    Err(_) => {},
                }
            },
            Err(_) => {},
        }
    }
}

/// A run of items is emitted in two parts as it is in one.
pub proof fn lemma_emit_range_split(
    items: Seq<Item>,
    state: Emitted,
    from: nat,
    middle: nat,
    to: nat,
)
    requires
        from <= middle <= to,
    ensures
        emit_range(items, state, from, to) == match emit_range(items, state, from, middle) {
            Ok(half) => emit_range(items, half, middle, to),
            Err(error) => Err::<Emitted, AssembleError>(error),
        },
    decreases to,
{
    if to > middle {
        lemma_emit_range_split(items, state, from, middle, (to - 1) as nat);
    }
}

/// Where the first pass succeeds on a run of items, it succeeds on each
/// shorter run.
pub proof fn lemma_emit_range_shorter(items: Seq<Item>, state: Emitted, from: nat, to: nat, end: nat)
    requires
        from <= to <= end,
        emit_range(items, state, from, end) is Ok,
    ensures
        emit_range(items, state, from, to) is Ok,
    decreases end,
{
    if end > to {
        lemma_emit_range_shorter(items, state, from, to, (end - 1) as nat);
    }
}

/// The first pass keeps the intermediate output well formed over any run of items.
pub proof fn lemma_emit_range_well_formed(items: Seq<Item>, state: Emitted, from: nat, to: nat)
    requires
        well_formed(state.entries),
    ensures
        emit_range(items, state, from, to) matches Ok(last) ==> well_formed(last.entries),
    decreases to,
{
    if to > from {
        lemma_emit_range_well_formed(items, state, from, (to - 1) as nat);
        match emit_range(items, state, from, (to - 1) as nat) {
            Ok(before) => crate::assembler::model::lemma_emit_item_well_formed(
                before,
                items[to - 1],
                to - 1,
            ),
            Err(_) => {},
        }
    }
}

/// Every instruction lies in the image as the layout says: at the offset
/// where the first pass stood when it met the instruction, the image holds
/// the opcode, the operand packet, and the word of each operand that has one.
pub proof fn lemma_instruction_layout(items: Seq<Item>, index: nat)
    requires
        assemble(items) is Ok,
        index < end_of(items, 0),
        items[index as int] is Instruction,
    ensures
        ({
            let image = assemble(items)->Ok_0;
            let last = emit(items)->Ok_0;
            let before = emit_prefix(items, index)->Ok_0;
            let at = before.entries.len() as int;
            let bytes = layout(
                items[index as int]->Instruction_0,
                before.current_label,
                last.symbols,
                at,
            );
            &&& emit_prefix(items, index) is Ok
            &&& at + bytes.len() <= image.len()
            &&& image.subrange(at, at + bytes.len()) == bytes
        }),
{
    let end = end_of(items, 0);
    let start = nothing_emitted();
    let last = emit(items)->Ok_0;
    let instruction = items[index as int]->Instruction_0;
    lemma_emit_range_shorter(items, start, 0, index, end);
    lemma_emit_range_shorter(items, start, 0, index + 1, end);
    let before = emit_prefix(items, index)->Ok_0;
    let after = emit_prefix(items, index + 1)->Ok_0;
    let at = before.entries.len() as int;
    reveal(emit_item);
    let part = instruction_entries(instruction, before.current_label, at, index as int)->Ok_0;
    assert(after.entries == before.entries + part);
    lemma_emit_range_split(items, start, 0, index + 1, end);
    lemma_emit_range_grows(items, after, index + 1, end);
    assert(last.entries.subrange(at, at + part.len()) =~= part) by {
        assert(last.entries.subrange(0, after.entries.len() as int) == after.entries);
        assert forall|j: int| 0 <= j < part.len() implies last.entries[at + j] == part[j] by {
            assert(last.entries.subrange(0, after.entries.len() as int)[at + j] == after.entries[at
                + j]);
        }
    }
    lemma_instruction_entries_well_formed(instruction, before.current_label, at, index as int);
    lemma_image_of_part(last.entries, last.symbols, at, part);
    lemma_image_of_instruction(instruction, before.current_label, last.symbols, at, index as int);
}

/// The name that an item declares in a first pass that stands at `state`,
/// and what it declares the name to be.
pub open spec fn declaration(state: Emitted, item: Item) -> Option<
    (Seq<u8>, PreprocessorConstant),
> {
    match item {
        Item::Label(name) => Some((name, PreprocessorConstant::Label(state.entries.len() as u32))),
        Item::SubLabel(name) => match label_key(state.current_label, name) {
            Some(key) => Some((key, PreprocessorConstant::Label(state.entries.len() as u32))),
            None => None,
        },
        Item::PreprocessorCommand(PreprocessorCommandView::Define(name, value)) => Some(
            (name, PreprocessorConstant::Define(value)),
        ),
        Item::PreprocessorCommand(
            PreprocessorCommandView::DefineSub(name, value),
        ) => match label_key(state.current_label, name) {
            Some(key) => Some((key, PreprocessorConstant::Define(value))),
            None => None,
        },
        _ => None,
    }
}

/// Whether the item number `index` declares `key` as `value`.
pub open spec fn declares(
    items: Seq<Item>,
    index: nat,
    key: Seq<u8>,
    value: PreprocessorConstant,
) -> bool {
    &&& index < end_of(items, 0)
    &&& emit_prefix(items, index) matches Ok(state)
    &&& declaration(state, items[index as int]) == Some((key, value))
}

/// What an item declares is in the symbol table from then on.
pub proof fn lemma_declared_stays(
    items: Seq<Item>,
    index: nat,
    key: Seq<u8>,
    value: PreprocessorConstant,
)
    requires
        emit(items) is Ok,
        declares(items, index, key, value),
    ensures
        emit(items)->Ok_0.symbols.contains_key(key),
        emit(items)->Ok_0.symbols[key] == value,
{
    let end = end_of(items, 0);
    let start = nothing_emitted();
    lemma_emit_range_shorter(items, start, 0, index + 1, end);
    let before = emit_prefix(items, index)->Ok_0;
    let after = emit_prefix(items, index + 1)->Ok_0;
    reveal(emit_item);
    assert(after.symbols.contains_key(key) && after.symbols[key] == value);
    lemma_emit_range_split(items, start, 0, index + 1, end);
    lemma_emit_range_grows(items, after, index + 1, end);
}

/// The word that a declared value gives to a reference: the value of a
/// constant; for a label its offset if the reference is absolute, else its
/// distance from the opcode of the instruction that refers to it.
pub open spec fn word_for(value: PreprocessorConstant, name: Seq<u8>, position: int) -> Word {
    match value {
        PreprocessorConstant::Define(value) => value,
        PreprocessorConstant::Label(offset) => if is_absolute(name) {
            offset
        } else {
            wrap(offset - position)
        },
    }
}

/// A reference to a declared name resolves to what the declaration says:
/// an absolute reference to the offset of the label, a relative one to the
/// offset of the label minus the offset of the opcode, and a reference to a
/// constant to its value.
pub proof fn lemma_symbol_resolution(
    items: Seq<Item>,
    index: nat,
    value: PreprocessorConstant,
    name: Seq<u8>,
    position: int,
)
    requires
        emit(items) is Ok,
        declares(items, index, bare_name(name), value),
    ensures
        resolve(emit(items)->Ok_0.symbols, name, position) == Some(
            word_for(value, name, position),
        ),
{
    lemma_declared_stays(items, index, bare_name(name), value);
}

/// Where the first pass succeeds and some item declares the name of each
/// reference, the assembly succeeds.
pub proof fn lemma_declared_references_assemble(items: Seq<Item>)
    requires
        emit(items) is Ok,
        forall|i: int|
            #![trigger emit(items)->Ok_0.entries[i]]
            0 <= i < emit(items)->Ok_0.entries.len() && emit(items)->Ok_0.entries[i]
                is Reference ==> exists|index: nat, value: PreprocessorConstant|
                declares(
                    items,
                    index,
                    bare_name(emit(items)->Ok_0.entries[i]->Reference_name),
                    value,
                ),
    ensures
        assemble(items) is Ok,
{
    let last = emit(items)->Ok_0;
    assert forall|i: int|
        0 <= i < last.entries.len() && last.entries[i] is Reference implies #[trigger] word_of_reference(
        last.entries,
        last.symbols,
        i,
    ) is Some by {
        let name = last.entries[i]->Reference_name;
        let (index, value) = choose|index: nat, value: PreprocessorConstant|
            declares(items, index, bare_name(name), value);
        lemma_declared_stays(items, index, bare_name(name), value);
    }
    lemma_none_unresolved(last.entries, last.symbols, last.entries.len());
}

/// In the image, the four bytes at a reference are the big-endian bytes of
/// the word that its name resolves to.
pub proof fn lemma_reference_bytes(items: Seq<Item>, at: int)
    requires
        assemble(items) is Ok,
        0 <= at < emit(items)->Ok_0.entries.len(),
        emit(items)->Ok_0.entries[at] is Reference,
    ensures
        ({
            let last = emit(items)->Ok_0;
            let image = assemble(items)->Ok_0;
            &&& at + 4 <= image.len()
            &&& resolve(
                last.symbols,
                last.entries[at]->Reference_name,
                last.entries[at]->Reference_position,
            ) is Some
            &&& image.subrange(at, at + 4) == be_bytes(
                resolve(
                    last.symbols,
                    last.entries[at]->Reference_name,
                    last.entries[at]->Reference_position,
                ).unwrap(),
            )
        }),
{
    let last = emit(items)->Ok_0;
    lemma_emit_range_well_formed(items, nothing_emitted(), 0, end_of(items, 0));
    assert(in_place(last.entries, at));
    let name = last.entries[at]->Reference_name;
    let position = last.entries[at]->Reference_position;
    let token = last.entries[at]->Reference_token;
    let part = reference_entries(name, position, token);
    assert(last.entries.subrange(at, at + 4) =~= part);
    lemma_operand_entries_well_formed(
        TargetView { selector: crate::encoding::Selector::Immediate, payload: Payload::Symbol(name) },
        None,
        position,
        token,
    );
    lemma_image_of_part(last.entries, last.symbols, at, part);
    lemma_image_of_reference(name, position, token, last.symbols);
    lemma_all_resolved(last.entries, last.symbols, last.entries.len(), at);
}

/// An operand with the same addressing mode that holds the literal `word`.
pub open spec fn literal(target: TargetView, word: Word) -> TargetView {
    TargetView { selector: target.selector, payload: Payload::Literal(word) }
}

/// A reference to a constant defined with `%define`, not prefixed with
/// `abs_`, gives the same four bytes as the literal value in its place.
pub proof fn lemma_constant_as_literal(
    items: Seq<Item>,
    index: nat,
    name: Seq<u8>,
    value: u32,
    target: TargetView,
    current_label: Option<Seq<u8>>,
    position: int,
)
    requires
        emit(items) is Ok,
        index < end_of(items, 0),
        items[index as int] == Item::PreprocessorCommand(
            PreprocessorCommandView::Define(name, value),
        ),
        !is_absolute(name),
        target.payload == Payload::Symbol(name),
    ensures
        operand_bytes(target, current_label, emit(items)->Ok_0.symbols, position) == be_bytes(value),
        operand_bytes(target, current_label, emit(items)->Ok_0.symbols, position) == operand_bytes(
            literal(target, value),
            current_label,
            emit(items)->Ok_0.symbols,
            position,
        ),
        crate::assembler::model::register_bits(target) == crate::assembler::model::register_bits(
            literal(target, value),
        ),
{
    lemma_emit_range_shorter(items, nothing_emitted(), 0, index, end_of(items, 0));
    lemma_symbol_resolution(items, index, PreprocessorConstant::Define(value), name, position);
}

/// How many bytes an operand adds after the packet.
pub open spec fn target_size(target: TargetView) -> nat {
    if target.payload is Register {
        0
    } else {
        4
    }
}

/// How many bytes an instruction takes in the image.
pub open spec fn instruction_size(instruction: InstructionView) -> nat {
    match instruction {
        InstructionView::ZeroOperand { .. } => 1,
        InstructionView::Not { target } => 2 + target_size(target),
        InstructionView::Jmp { target, .. } => 2 + target_size(target),
        InstructionView::TwoOperand { destination, source, .. } => 2 + target_size(destination)
            + target_size(source),
    }
}

/// How many bytes an item takes in the image.
pub open spec fn size_of(item: Item) -> nat {
    match item {
        Item::Instruction(instruction) => instruction_size(instruction),
        Item::PreprocessorCommand(PreprocessorCommandView::Offset(count)) => count as nat,
        Item::PreprocessorCommand(PreprocessorCommandView::DeclareBytes(bytes)) => bytes.len(),
        Item::PreprocessorCommand(PreprocessorCommandView::DeclareWord(_)) => 4,
        _ => 0,
    }
}

/// The offset in the image of item number `count`: what the items before
/// it take.
pub open spec fn offset_at(items: Seq<Item>, count: nat) -> nat
    decreases count,
{
    if count == 0 {
        0
    } else {
        offset_at(items, (count - 1) as nat) + size_of(items[count - 1])
    }
}

/// The latest label before item number `count`.
pub open spec fn label_at(items: Seq<Item>, count: nat) -> Option<Seq<u8>>
    decreases count,
{
    if count == 0 {
        None
    } else {
        match items[count - 1] {
            Item::Label(name) => Some(name),
            _ => label_at(items, (count - 1) as nat),
        }
    }
}

/// What item number `index` declares, told from the items alone.
pub open spec fn declared(items: Seq<Item>, index: nat) -> Option<
    (Seq<u8>, PreprocessorConstant),
> {
    declaration(
        Emitted {
            entries: zero_entries(offset_at(items, index)),
            symbols: Map::empty(),
            current_label: label_at(items, index),
        },
        items[index as int],
    )
}

/// The name that an operand refers to, if it refers to one.
pub open spec fn target_name(target: TargetView, current_label: Option<Seq<u8>>) -> Option<
    Seq<u8>,
> {
    match target.payload {
        Payload::Symbol(name) => Some(name),
        Payload::SubSymbol(name) => label_key(current_label, name),
        _ => None,
    }
}

/// Whether an operand can be emitted: a name in the scope of a label needs
/// a label.
pub open spec fn target_fits(target: TargetView, current_label: Option<Seq<u8>>) -> bool {
    target.payload is SubSymbol ==> current_label is Some
}

/// Whether an instruction can be emitted: its operands fit, and NOT is
/// given a place.
pub open spec fn instruction_fits(
    instruction: InstructionView,
    current_label: Option<Seq<u8>>,
) -> bool {
    match instruction {
        InstructionView::ZeroOperand { .. } => true,
        InstructionView::Not { target } => target.selector != crate::encoding::Selector::Immediate
            && target_fits(target, current_label),
        InstructionView::Jmp { target, .. } => target_fits(target, current_label),
        InstructionView::TwoOperand { destination, source, .. } => target_fits(
            destination,
            current_label,
        ) && target_fits(source, current_label),
    }
}

/// Whether an instruction refers to `name`.
pub open spec fn instruction_uses(
    instruction: InstructionView,
    current_label: Option<Seq<u8>>,
    name: Seq<u8>,
) -> bool {
    match instruction {
        InstructionView::ZeroOperand { .. } => false,
        InstructionView::Not { target } => target_name(target, current_label) == Some(name),
        InstructionView::Jmp { target, .. } => target_name(target, current_label) == Some(name),
        InstructionView::TwoOperand { destination, source, .. } => target_name(
            destination,
            current_label,
        ) == Some(name) || target_name(source, current_label) == Some(name),
    }
}

/// Whether item number `index` refers to `name`.
pub open spec fn uses(items: Seq<Item>, index: nat, name: Seq<u8>) -> bool {
    match items[index as int] {
        Item::Instruction(instruction) => instruction_uses(
            instruction,
            label_at(items, index),
            name,
        ),
        _ => false,
    }
}

/// Whether item number `index` can be emitted where it stands: what is in
/// the scope of a label comes after a label, NOT is given a place, and a
/// label lies at an offset that fits a word.
pub open spec fn fits(items: Seq<Item>, index: nat) -> bool {
    match items[index as int] {
        Item::Instruction(instruction) => instruction_fits(instruction, label_at(items, index)),
        Item::Label(_) => offset_at(items, index) <= u32::MAX,
        Item::SubLabel(_) => offset_at(items, index) <= u32::MAX && label_at(items, index)
            is Some,
        Item::PreprocessorCommand(PreprocessorCommandView::DefineSub(_, _)) => label_at(
            items,
            index,
        ) is Some,
        _ => true,
    }
}

/// Whether no name is declared as two different things.
pub open spec fn declared_once(items: Seq<Item>) -> bool {
    forall|i: nat, j: nat|
        #![trigger declared(items, i), declared(items, j)]
        i < end_of(items, 0) && j < end_of(items, 0) && declared(items, i) is Some && declared(
            items,
            j,
        ) is Some && declared(items, i).unwrap().0 == declared(items, j).unwrap().0
            ==> declared(items, i).unwrap().1 == declared(items, j).unwrap().1
}

/// Whether every item before the end of the source can be emitted where it
/// stands.
pub open spec fn all_fit(items: Seq<Item>) -> bool {
    forall|i: nat| i < end_of(items, 0) ==> #[trigger] fits(items, i)
}

/// Whether every name that an instruction refers to is declared by some item.
pub open spec fn all_declared(items: Seq<Item>) -> bool {
    forall|i: nat, name: Seq<u8>|
        i < end_of(items, 0) && #[trigger] uses(items, i, name) ==> exists|j: nat|
            j < end_of(items, 0) && #[trigger] declared(items, j) is Some && declared(
                items,
                j,
            ).unwrap().0 == bare_name(name)
}

/// What the first pass has made of the first `count` items, told from the
/// items alone.
pub open spec fn told(items: Seq<Item>, count: nat, state: Emitted) -> bool {
    &&& state.entries.len() == offset_at(items, count)
    &&& state.current_label == label_at(items, count)
    &&& forall|key: Seq<u8>| #[trigger]
        state.symbols.contains_key(key) ==> exists|j: nat|
            j < count && #[trigger] declared(items, j) == Some((key, state.symbols[key]))
    &&& forall|e: int|
        0 <= e < state.entries.len() && #[trigger] state.entries[e] is Reference ==> exists|
            i: nat,
        |
            i < count && #[trigger] uses(items, i, state.entries[e]->Reference_name)
}

/// What one operand emits is as long as the operand is, and refers to no
/// name but that of the operand.
pub proof fn lemma_operand_entries_told(
    target: TargetView,
    current_label: Option<Seq<u8>>,
    position: int,
    token: int,
)
    requires
        target_fits(target, current_label),
    ensures
        operand_entries(target, current_label, position, token) matches Some(entries)
            && entries.len() == target_size(target) && forall|e: int|
            0 <= e < entries.len() && #[trigger] entries[e] is Reference ==> target_name(
                target,
                current_label,
            ) == Some(entries[e]->Reference_name),
{
}

/// What one instruction emits is as long as the instruction is, and refers
/// to no name but those of its operands.
pub proof fn lemma_instruction_entries_told(
    instruction: InstructionView,
    current_label: Option<Seq<u8>>,
    position: int,
    token: int,
)
    requires
        instruction_fits(instruction, current_label),
    ensures
        instruction_entries(instruction, current_label, position, token) matches Ok(entries)
            && entries.len() == instruction_size(instruction) && forall|e: int|
            0 <= e < entries.len() && #[trigger] entries[e] is Reference ==> instruction_uses(
                instruction,
                current_label,
                entries[e]->Reference_name,
            ),
{
    match instruction {
        InstructionView::ZeroOperand { .. } => {},
        InstructionView::Not { target } => {
            lemma_operand_entries_told(target, current_label, position, token);
        },
        InstructionView::Jmp { target, .. } => {
            lemma_operand_entries_told(target, current_label, position, token);
        },
        InstructionView::TwoOperand { destination, source, .. } => {
            lemma_operand_entries_told(destination, current_label, position, token);
            lemma_operand_entries_told(source, current_label, position, token);
        },
    }
}

/// Where every item fits and no name is declared as two things, the first
/// pass succeeds on every run of items before the end of the source, and
/// what it makes can be told from the items alone.
pub proof fn lemma_emit_prefix_told(items: Seq<Item>, count: nat)
    requires
        all_fit(items),
        declared_once(items),
        count <= end_of(items, 0),
    ensures
        emit_prefix(items, count) matches Ok(state) && told(items, count, state),
    decreases count,
{
    if count > 0 {
        let index = (count - 1) as nat;
        lemma_emit_prefix_told(items, index);
        let before = emit_prefix(items, index)->Ok_0;
        let item = items[index as int];
        assert(fits(items, index));
        reveal(emit_item);
        match item {
            Item::Instruction(instruction) => {
                lemma_instruction_entries_told(
                    instruction,
                    before.current_label,
                    before.entries.len() as int,
                    index as int,
                );
                let entries = instruction_entries(
                    instruction,
                    before.current_label,
                    before.entries.len() as int,
                    index as int,
                )->Ok_0;
                let state = emit_prefix(items, count)->Ok_0;
                assert(state.entries == before.entries + entries);
                assert forall|e: int|
                    0 <= e < state.entries.len() && #[trigger] state.entries[e]
                        is Reference implies exists|i: nat|
                    i < count && #[trigger] uses(items, i, state.entries[e]->Reference_name) by {
                    if e < before.entries.len() {
                        assert(before.entries[e] is Reference);
                        let i = choose|i: nat|
                            i < index && #[trigger] uses(
                                items,
                                i,
                                before.entries[e]->Reference_name,
                            );
                        assert(uses(items, i, state.entries[e]->Reference_name));
                    } else {
                        assert(entries[e - before.entries.len()] is Reference);
                        assert(uses(items, index, state.entries[e]->Reference_name));
                    }
                }
                lemma_told_symbols(items, index, before, state);
            },
            Item::Label(_) | Item::SubLabel(_) | Item::PreprocessorCommand(
                PreprocessorCommandView::Define(_, _),
            ) | Item::PreprocessorCommand(PreprocessorCommandView::DefineSub(_, _)) => {
                let (key, value) = declaration(before, item).unwrap();
                assert(declared(items, index) == Some((key, value)));
                if before.symbols.contains_key(key) {
                    let j = choose|j: nat|
                        j < index && #[trigger] declared(items, j) == Some(
                            (key, before.symbols[key]),
                        );
                    lemma_end_is_end(items, count);
                    assert(declared(items, j).unwrap().1 == declared(items, index).unwrap().1);
                }
                let state = emit_prefix(items, count)->Ok_0;
                assert(state.symbols == before.symbols.insert(key, value));
                assert forall|name: Seq<u8>| #[trigger]
                    state.symbols.contains_key(name) implies exists|j: nat|
                    j < count && #[trigger] declared(items, j) == Some(
                        (name, state.symbols[name]),
                    ) by {
                    if name == key {
                        assert(declared(items, index) == Some((name, state.symbols[name])));
                    } else {
                        assert(before.symbols.contains_key(name));
                        let j = choose|j: nat|
                            j < index && #[trigger] declared(items, j) == Some(
                                (name, before.symbols[name]),
                            );
                        assert(declared(items, j) == Some((name, state.symbols[name])));
                    }
                }
                lemma_told_entries(items, index, before, state);
            },
            _ => {
                let state = emit_prefix(items, count)->Ok_0;
                assert forall|e: int|
                    0 <= e < state.entries.len() && #[trigger] state.entries[e]
                        is Reference implies exists|i: nat|
                    i < count && #[trigger] uses(items, i, state.entries[e]->Reference_name) by {
                    assert(e < before.entries.len());
                    assert(before.entries[e] is Reference);
                    let i = choose|i: nat|
                        i < index && #[trigger] uses(items, i, before.entries[e]->Reference_name);
                    assert(uses(items, i, state.entries[e]->Reference_name));
                }
                lemma_told_symbols(items, index, before, state);
            },
        }
    }
}

/// An item before the end of the source is no end of the source.
pub proof fn lemma_end_is_end(items: Seq<Item>, count: nat)
    requires
        count <= end_of(items, 0),
    ensures
        count <= items.len(),
        forall|i: nat| i < count ==> !(#[trigger] items[i as int] is EOF),
{
    lemma_end_from(items, 0, count);
}

/// No item between the start of a search for the end of the source and the
/// end that it finds is an end of the source.
pub proof fn lemma_end_from(items: Seq<Item>, from: nat, count: nat)
    requires
        from <= count <= end_of(items, from),
    ensures
        count <= items.len(),
        forall|i: nat| from <= i < count ==> !(#[trigger] items[i as int] is EOF),
    decreases items.len() - from,
{
    if from < items.len() && !(items[from as int] is EOF) && from < count {
        lemma_end_from(items, from + 1, count);
    }
}

/// An item that declares nothing leaves the names as they were told.
pub proof fn lemma_told_symbols(items: Seq<Item>, index: nat, before: Emitted, state: Emitted)
    requires
        told(items, index, before),
        state.symbols == before.symbols,
    ensures
        forall|key: Seq<u8>| #[trigger]
            state.symbols.contains_key(key) ==> exists|j: nat|
                j < index + 1 && #[trigger] declared(items, j) == Some(
                    (key, state.symbols[key]),
                ),
{
    assert forall|key: Seq<u8>| #[trigger] state.symbols.contains_key(key) implies exists|j: nat|
        j < index + 1 && #[trigger] declared(items, j) == Some((key, state.symbols[key])) by {
        let j = choose|j: nat|
            j < index && #[trigger] declared(items, j) == Some((key, before.symbols[key]));
        assert(declared(items, j) == Some((key, state.symbols[key])));
    }
}

/// An item that emits nothing leaves the references as they were told.
pub proof fn lemma_told_entries(items: Seq<Item>, index: nat, before: Emitted, state: Emitted)
    requires
        told(items, index, before),
        state.entries == before.entries,
    ensures
        forall|e: int|
            0 <= e < state.entries.len() && #[trigger] state.entries[e] is Reference ==> exists|
                i: nat,
            |
                i < index + 1 && #[trigger] uses(items, i, state.entries[e]->Reference_name),
{
    assert forall|e: int|
        0 <= e < state.entries.len() && #[trigger] state.entries[e] is Reference implies exists|
        i: nat,
    |
        i < index + 1 && #[trigger] uses(items, i, state.entries[e]->Reference_name) by {
        let i = choose|i: nat|
            i < index && #[trigger] uses(items, i, before.entries[e]->Reference_name);
        assert(uses(items, i, state.entries[e]->Reference_name));
    }
}

/// Where every item fits where it stands, no name is declared as two
/// different things, and every name referred to is declared, the assembly
/// succeeds.
pub proof fn lemma_assembly_succeeds(items: Seq<Item>)
    requires
        all_fit(items),
        declared_once(items),
        all_declared(items),
    ensures
        assemble(items) is Ok,
{
    let end = end_of(items, 0);
    lemma_emit_prefix_told(items, end);
    let last = emit(items)->Ok_0;
    assert forall|e: int|
        #![trigger last.entries[e]]
        0 <= e < last.entries.len() && last.entries[e] is Reference implies exists|
        index: nat,
        value: PreprocessorConstant,
    |
        declares(items, index, bare_name(last.entries[e]->Reference_name), value) by {
        let name = last.entries[e]->Reference_name;
        let i = choose|i: nat| i < end && #[trigger] uses(items, i, name);
        let j = choose|j: nat|
            j < end && #[trigger] declared(items, j) is Some && declared(items, j).unwrap().0
                == bare_name(name);
        lemma_emit_prefix_told(items, j);
        let value = declared(items, j).unwrap().1;
        assert(declares(items, j, bare_name(name), value));
    }
    lemma_declared_references_assemble(items);
}

/// The bytes of one item in the image: the layout of an instruction, the
/// zeroes of an offset, the bytes of `db`, the word of `dw`; nothing for a
/// label or a constant.
pub open spec fn item_bytes(
    item: Item,
    current_label: Option<Seq<u8>>,
    symbols: Map<Seq<u8>, PreprocessorConstant>,
    position: int,
) -> Seq<u8> {
    match item {
        Item::Instruction(instruction) => layout(instruction, current_label, symbols, position),
        Item::PreprocessorCommand(PreprocessorCommandView::Offset(count)) => Seq::new(
            count as nat,
            |i: int| 0u8,
        ),
        Item::PreprocessorCommand(PreprocessorCommandView::DeclareBytes(bytes)) => bytes,
        Item::PreprocessorCommand(PreprocessorCommandView::DeclareWord(word)) => be_bytes(word),
        _ => Seq::empty(),
    }
}

/// Every item lies in the image where the first pass stood when it met the
/// item: from that offset up to the offset of the next item, the image
/// holds the bytes of the item.
pub proof fn lemma_item_image(items: Seq<Item>, index: nat)
    requires
        assemble(items) is Ok,
        index < end_of(items, 0),
    ensures
        ({
            let image = assemble(items)->Ok_0;
            let last = emit(items)->Ok_0;
            let before = emit_prefix(items, index)->Ok_0;
            let after = emit_prefix(items, index + 1)->Ok_0;
            let bytes = item_bytes(
                items[index as int],
                before.current_label,
                last.symbols,
                before.entries.len() as int,
            );
            &&& emit_prefix(items, index) is Ok
            &&& emit_prefix(items, index + 1) is Ok
            &&& after.entries.len() == before.entries.len() + bytes.len()
            &&& after.entries.len() <= image.len()
            &&& image.subrange(before.entries.len() as int, after.entries.len() as int) == bytes
        }),
{
    let end = end_of(items, 0);
    let start = nothing_emitted();
    let last = emit(items)->Ok_0;
    let item = items[index as int];
    lemma_emit_range_shorter(items, start, 0, index, end);
    lemma_emit_range_shorter(items, start, 0, index + 1, end);
    let before = emit_prefix(items, index)->Ok_0;
    let after = emit_prefix(items, index + 1)->Ok_0;
    let at = before.entries.len() as int;
    lemma_emit_item_grows(before, item, index as int);
    let part = after.entries.subrange(at, after.entries.len() as int);
    assert(after.entries =~= before.entries + part);
    lemma_emit_range_split(items, start, 0, index + 1, end);
    lemma_emit_range_grows(items, after, index + 1, end);
    assert(last.entries.subrange(at, at + part.len()) =~= part) by {
        assert(last.entries.subrange(0, after.entries.len() as int) == after.entries);
        assert forall|j: int| 0 <= j < part.len() implies last.entries[at + j] == part[j] by {
            assert(last.entries.subrange(0, after.entries.len() as int)[at + j] == after.entries[at
                + j]);
        }
    }
    reveal(emit_item);
    match item {
        Item::Instruction(instruction) => {
            let entries = instruction_entries(instruction, before.current_label, at, index as int)->Ok_0;
            assert(part =~= entries);
            lemma_instruction_entries_well_formed(
                instruction,
                before.current_label,
                at,
                index as int,
            );
            lemma_image_of_instruction(
                instruction,
                before.current_label,
                last.symbols,
                at,
                index as int,
            );
        },
        Item::PreprocessorCommand(PreprocessorCommandView::Offset(count)) => {
            let zeroes = Seq::new(count as nat, |i: int| 0u8);
            assert(part =~= byte_entries(zeroes));
            crate::assembler::model::lemma_bytes_well_formed(part);
            lemma_image_of_bytes(zeroes, last.symbols);
        },
        Item::PreprocessorCommand(PreprocessorCommandView::DeclareBytes(bytes)) => {
            assert(part =~= byte_entries(bytes));
            crate::assembler::model::lemma_bytes_well_formed(part);
            lemma_image_of_bytes(bytes, last.symbols);
        },
        Item::PreprocessorCommand(PreprocessorCommandView::DeclareWord(word)) => {
            assert(part =~= byte_entries(be_bytes(word)));
            crate::assembler::model::lemma_bytes_well_formed(part);
            lemma_image_of_bytes(be_bytes(word), last.symbols);
        },
        _ => {
            assert(part =~= Seq::<Entry>::empty());
            crate::assembler::model::lemma_bytes_well_formed(part);
            assert(image_of(part, last.symbols) =~= Seq::<u8>::empty());
        },
    }
    lemma_image_of_part(last.entries, last.symbols, at, part);
}

/// Every byte of what the first pass emits belongs to one item.
pub proof fn lemma_locate(items: Seq<Item>, count: nat, at: int) -> (index: nat)
    requires
        emit_prefix(items, count) is Ok,
        0 <= at < emit_prefix(items, count)->Ok_0.entries.len(),
    ensures
        index < count,
        emit_prefix(items, index) is Ok,
        emit_prefix(items, index + 1) is Ok,
        emit_prefix(items, index)->Ok_0.entries.len() <= at < emit_prefix(
            items,
            index + 1,
        )->Ok_0.entries.len(),
    decreases count,
{
    let before = emit_prefix(items, (count - 1) as nat)->Ok_0;
    if at < before.entries.len() {
        lemma_locate(items, (count - 1) as nat, at)
    } else {
        (count - 1) as nat
    }
}

/// An instruction with one of its operands replaced by a literal: the
/// destination, or the only operand, if `first`, else the source.
pub open spec fn with_literal(
    instruction: InstructionView,
    first: bool,
    value: Word,
) -> InstructionView {
    match instruction {
        InstructionView::ZeroOperand { .. } => instruction,
        InstructionView::Not { target } => InstructionView::Not { target: literal(target, value) },
        InstructionView::Jmp { target, absolute } => InstructionView::Jmp {
            target: literal(target, value),
            absolute,
        },
        InstructionView::TwoOperand { opcode, destination, source } => if first {
            InstructionView::TwoOperand { opcode, destination: literal(destination, value), source }
        } else {
            InstructionView::TwoOperand { opcode, destination, source: literal(source, value) }
        },
    }
}

/// The operand of an instruction that `with_literal` replaces.
pub open spec fn chosen(instruction: InstructionView, first: bool) -> Option<TargetView> {
    match instruction {
        InstructionView::ZeroOperand { .. } => None,
        InstructionView::Not { target } => Some(target),
        InstructionView::Jmp { target, .. } => Some(target),
        InstructionView::TwoOperand { destination, source, .. } => if first {
            Some(destination)
        } else {
            Some(source)
        },
    }
}

/// The items with the operand of one instruction replaced by a literal.
pub open spec fn replaced(items: Seq<Item>, index: nat, first: bool, value: Word) -> Seq<Item> {
    items.update(
        index as int,
        Item::Instruction(with_literal(items[index as int]->Instruction_0, first, value)),
    )
}

/// Replacing a name by a literal moves nothing: the end of the source, the
/// offsets, the labels and the declarations stay as they are.
pub proof fn lemma_replaced_keeps(
    items: Seq<Item>,
    index: nat,
    first: bool,
    value: Word,
    count: nat,
)
    requires
        index < items.len(),
        items[index as int] is Instruction,
        chosen(items[index as int]->Instruction_0, first) matches Some(target)
            && target.payload is Symbol,
        count <= items.len(),
    ensures
        end_of(replaced(items, index, first, value), count) == end_of(items, count),
        offset_at(replaced(items, index, first, value), count) == offset_at(items, count),
        label_at(replaced(items, index, first, value), count) == label_at(items, count),
        count < items.len() ==> declared(replaced(items, index, first, value), count) == declared(
            items,
            count,
        ),
    decreases items.len() + count,
{
    let other = replaced(items, index, first, value);
    lemma_replaced_end(items, index, first, value, count);
    if count > 0 {
        lemma_replaced_keeps(items, index, first, value, (count - 1) as nat);
    }
}

/// Replacing a name by a literal keeps the end of the source where it is.
pub proof fn lemma_replaced_end(items: Seq<Item>, index: nat, first: bool, value: Word, from: nat)
    requires
        index < items.len(),
        items[index as int] is Instruction,
    ensures
        end_of(replaced(items, index, first, value), from) == end_of(items, from),
    decreases items.len() - from,
{
    if from < items.len() {
        lemma_replaced_end(items, index, first, value, from + 1);
    }
}

/// A constant used anywhere gives the same image as its value written in
/// its place: where `%define name value` stands among the items, and the
/// name does not start with `abs_`, replacing the name by the value in an
/// operand of an instruction changes nothing in the image.
pub proof fn lemma_constant_in_place(
    items: Seq<Item>,
    index: nat,
    first: bool,
    name: Seq<u8>,
    value: Word,
    defining: nat,
)
    requires
        all_fit(items),
        declared_once(items),
        all_declared(items),
        index < end_of(items, 0),
        items[index as int] is Instruction,
        chosen(items[index as int]->Instruction_0, first) matches Some(target) && target.payload
            == Payload::Symbol(name),
        !is_absolute(name),
        defining < end_of(items, 0),
        items[defining as int] == Item::PreprocessorCommand(
            PreprocessorCommandView::Define(name, value),
        ),
    ensures
        assemble(replaced(items, index, first, value)) == assemble(items),
{
    let other = replaced(items, index, first, value);
    let end = end_of(items, 0);
    let written = items[index as int]->Instruction_0;
    lemma_end_is_end(items, end);
    lemma_replaced_keeps(items, index, first, value, 0);
    assert forall|i: nat| i < end implies #[trigger] fits(other, i) by {
        lemma_replaced_keeps(items, index, first, value, i);
        assert(fits(items, i));
    }
    assert forall|i: nat, j: nat|
        #![trigger declared(other, i), declared(other, j)]
        i < end && j < end && declared(other, i) is Some && declared(other, j) is Some && declared(
            other,
            i,
        ).unwrap().0 == declared(other, j).unwrap().0 implies declared(other, i).unwrap().1
        == declared(other, j).unwrap().1 by {
        lemma_replaced_keeps(items, index, first, value, i);
        lemma_replaced_keeps(items, index, first, value, j);
        assert(declared(items, i).unwrap().1 == declared(items, j).unwrap().1);
    }
    assert forall|i: nat, used: Seq<u8>| i < end && #[trigger] uses(other, i, used) implies exists|
        j: nat,
    |
        j < end && #[trigger] declared(other, j) is Some && declared(other, j).unwrap().0
            == bare_name(used) by {
        lemma_replaced_keeps(items, index, first, value, i);
        assert(uses(items, i, used));
        let j = choose|j: nat|
            j < end && #[trigger] declared(items, j) is Some && declared(items, j).unwrap().0
                == bare_name(used);
        lemma_replaced_keeps(items, index, first, value, j);
        assert(declared(other, j) is Some);
    }
    lemma_assembly_succeeds(items);
    lemma_assembly_succeeds(other);
    lemma_emit_prefix_told(items, end);
    lemma_emit_prefix_told(other, end);
    let last = emit(items)->Ok_0;
    let other_last = emit(other)->Ok_0;
    assert(last.symbols =~= other_last.symbols) by {
        assert forall|key: Seq<u8>| last.symbols.contains_key(key) implies #[trigger]
            other_last.symbols.contains_key(key) && other_last.symbols[key] == last.symbols[key] by {
            let j = choose|j: nat|
                j < end && #[trigger] declared(items, j) == Some((key, last.symbols[key]));
            lemma_replaced_keeps(items, index, first, value, j);
            lemma_emit_prefix_told(other, j);
            lemma_declared_stays(other, j, key, last.symbols[key]);
        }
        assert forall|key: Seq<u8>| other_last.symbols.contains_key(key) implies #[trigger]
            last.symbols.contains_key(key) by {
            let j = choose|j: nat|
                j < end && #[trigger] declared(other, j) == Some((key, other_last.symbols[key]));
            lemma_replaced_keeps(items, index, first, value, j);
            lemma_emit_prefix_told(items, j);
            lemma_declared_stays(items, j, key, other_last.symbols[key]);
        }
    }
    let image = assemble(items)->Ok_0;
    let other_image = assemble(other)->Ok_0;
    lemma_replaced_keeps(items, index, first, value, end);
    assert(image.len() == other_image.len());
    lemma_emit_prefix_told(items, defining);
    assert forall|at: int| 0 <= at < image.len() implies image[at] == other_image[at] by {
        let k = lemma_locate(items, end, at);
        lemma_emit_prefix_told(items, k);
        lemma_emit_prefix_told(items, k + 1);
        lemma_emit_prefix_told(other, k);
        lemma_emit_prefix_told(other, k + 1);
        lemma_replaced_keeps(items, index, first, value, k);
        lemma_replaced_keeps(items, index, first, value, k + 1);
        lemma_item_image(items, k);
        lemma_item_image(other, k);
        let from = offset_at(items, k) as int;
        let to = offset_at(items, k + 1) as int;
        let current = label_at(items, k);
        let bytes = item_bytes(items[k as int], current, last.symbols, from);
        let other_bytes = item_bytes(other[k as int], current, other_last.symbols, from);
        if k == index {
            let target = chosen(written, first).unwrap();
            lemma_symbol_resolution(
                items,
                defining,
                PreprocessorConstant::Define(value),
                name,
                from,
            );
            assert(resolve(last.symbols, name, from) == Some(value));
            assert(operand_bytes(target, current, last.symbols, from) == operand_bytes(
                literal(target, value),
                current,
                last.symbols,
                from,
            ));
            assert(packet_of(with_literal(written, first, value)) == packet_of(written));
            assert(bytes == other_bytes);
        }
        assert(image.subrange(from, to)[at - from] == image[at]);
        assert(other_image.subrange(from, to)[at - from] == other_image[at]);
    }
    assert(image =~= other_image);
}

/// Whether every reference among the entries belongs to an item before
/// item number `count`.
pub open spec fn tokens_below(entries: Seq<Entry>, count: int) -> bool {
    forall|e: int|
        0 <= e < entries.len() && #[trigger] entries[e] is Reference ==> 0
            <= entries[e]->Reference_token < count
}

/// The references that an item emits belong to the item.
pub proof fn lemma_emit_item_tokens(state: Emitted, item: Item, token: int)
    requires
        0 <= token,
        tokens_below(state.entries, token),
    ensures
        emit_item(state, item, token) matches Ok(next) ==> tokens_below(next.entries, token + 1),
{
    reveal(emit_item);
    match emit_item(state, item, token) {
        Ok(next) => {
            assert forall|e: int|
                0 <= e < next.entries.len() && #[trigger] next.entries[e] is Reference implies 0
                <= next.entries[e]->Reference_token < token + 1 by {
                if e < state.entries.len() {
                    lemma_emit_item_grows(state, item, token);
                    assert(next.entries.subrange(0, state.entries.len() as int)[e]
                        == next.entries[e]);
                    assert(state.entries[e] is Reference);
                }
            }
        },
        Err(_) => {},
    }
}

/// The references that a run of items emits belong to items of the run.
pub proof fn lemma_emit_range_tokens(items: Seq<Item>, state: Emitted, from: nat, to: nat)
    requires
        from <= to,
        tokens_below(state.entries, from as int),
    ensures
        emit_range(items, state, from, to) matches Ok(last) ==> tokens_below(
            last.entries,
            to as int,
        ),
    decreases to,
{
    if to > from {
        lemma_emit_range_tokens(items, state, from, (to - 1) as nat);
        match emit_range(items, state, from, (to - 1) as nat) {
            Ok(before) => lemma_emit_item_tokens(before, items[to - 1], to - 1),
            Err(_) => {},
        }
    }
}

/// Where the first pass fails, it fails on an item of the run.
pub proof fn lemma_emit_error_token(items: Seq<Item>, state: Emitted, from: nat, to: nat)
    requires
        to <= usize::MAX,
    ensures
        emit_range(items, state, from, to) matches Err(error) ==> from <= error.token < to,
    decreases to,
{
    if to > from {
        lemma_emit_error_token(items, state, from, (to - 1) as nat);
    }
}

/// Where the second pass fails, it fails on the token of a reference.
pub proof fn lemma_fixup_error_token(
    entries: Seq<Entry>,
    symbols: Map<Seq<u8>, PreprocessorConstant>,
    count: nat,
)
    requires
        count <= entries.len(),
    ensures
        first_unresolved(entries, symbols, count) matches Some(index) ==> 0 <= index < count
            && entries[index] is Reference,
    decreases count,
{
    if count > 0 {
        lemma_fixup_error_token(entries, symbols, (count - 1) as nat);
    }
}

/// An error of the assembler names an item before the end of the source.
pub proof fn lemma_error_names_an_item(items: Seq<Item>)
    requires
        items.len() <= usize::MAX,
    ensures
        assemble(items) matches Err(error) ==> error.token < end_of(items, 0) <= items.len(),
{
    let end = end_of(items, 0);
    crate::assembler::model::lemma_end_of_bounds(items, 0);
    lemma_emit_error_token(items, nothing_emitted(), 0, end);
    lemma_emit_range_tokens(items, nothing_emitted(), 0, end);
    match emit(items) {
        Ok(last) => {
            lemma_fixup_error_token(last.entries, last.symbols, last.entries.len());
        },
        Err(_) => {},
    }
}

} // verus!
