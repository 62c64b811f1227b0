//! Laws of the instruction set, proved of the step semantics.

use crate::encoding::Register;
use crate::vm::alu::{compare_flags, with_carry, Action, Flag};
use crate::vm::instruction::{Config, NotConfig};
use crate::vm::state::{
    lemma_read_after_write, lemma_write_same_word, lemma_write_twice, Operand, VmError, VmState,
};
use crate::word::{modulus, signed, wrap, Word};
use vstd::prelude::*;

verus! {

/// Setting or clearing the carry bit leaves every other bit of the flag
/// register as it was, and makes the carry bit what was asked for.
pub proof fn lemma_with_carry_bits(flags: Word, carry: bool)
    ensures
        with_carry(flags, carry) & !0b10u32 == flags & !0b10u32,
        Flag::CarryOrBorrow.active(with_carry(flags, carry)) == carry,
        Flag::Overflow.active(with_carry(flags, carry)) == Flag::Overflow.active(flags),
        Flag::Equal.active(with_carry(flags, carry)) == Flag::Equal.active(flags),
        Flag::Less.active(with_carry(flags, carry)) == Flag::Less.active(flags),
        Flag::Below.active(with_carry(flags, carry)) == Flag::Below.active(flags),
{
    assert((flags | 0b10) & !0b10u32 == flags & !0b10u32) by (bit_vector);
    assert((flags & !0b10u32) & !0b10u32 == flags & !0b10u32) by (bit_vector);
    assert((flags | 0b10) & 0b10 != 0) by (bit_vector);
    assert((flags & !0b10u32) & 0b10 == 0) by (bit_vector);
    assert((flags | 0b10) & 0b1 == flags & 0b1 && (flags | 0b10) & 0b100 == flags & 0b100 && (flags
        | 0b10) & 0b1000 == flags & 0b1000 && (flags | 0b10) & 0b10000 == flags & 0b10000)
        by (bit_vector);
    assert((flags & !0b10u32) & 0b1 == flags & 0b1 && (flags & !0b10u32) & 0b100 == flags & 0b100
        && (flags & !0b10u32) & 0b1000 == flags & 0b1000 && (flags & !0b10u32) & 0b10000 == flags
        & 0b10000) by (bit_vector);
}

/// ADD and SUB change no bit of the flag register but bit 1.
pub proof fn lemma_add_sub_keep_other_flags(state: VmState, config: Config, action: Action)
    requires
        action == Action::Add || action == Action::Sub,
        state.after_action(config, action).1 is Ok,
    ensures
        state.after_action(config, action).0.registers.flag & !0b10u32 == state.registers.flag
            & !0b10u32,
{
    let flags = state.registers.flag;
    lemma_with_carry_bits(flags, true);
    lemma_with_carry_bits(flags, false);
}

/// The flag register that CMP writes has no bit set outside bits 2, 3 and 4,
/// and those three say whether the operands are equal, less and below.
pub proof fn lemma_compare_flags_bits(destination: Word, source: Word)
    ensures
        compare_flags(destination, source) & !0b11100u32 == 0,
        Flag::Equal.active(compare_flags(destination, source)) == (destination == source),
        Flag::Less.active(compare_flags(destination, source)) == (signed(destination) < signed(
            source,
        )),
        Flag::Below.active(compare_flags(destination, source)) == (destination < source),
        !Flag::Overflow.active(compare_flags(destination, source)),
        !Flag::CarryOrBorrow.active(compare_flags(destination, source)),
{
    let e: u32 = if destination == source { 0b100u32 } else { 0u32 };
    let l: u32 = if signed(destination) < signed(source) { 0b1000u32 } else { 0u32 };
    let b: u32 = if destination < source { 0b10000u32 } else { 0u32 };
    assert({
        &&& (e | l | b) & !0b11100u32 == 0
        &&& ((e | l | b) & 0b100 != 0) == (e == 0b100)
        &&& ((e | l | b) & 0b1000 != 0) == (l == 0b1000)
        &&& ((e | l | b) & 0b10000 != 0) == (b == 0b10000)
        &&& (e | l | b) & 0b1 == 0
        &&& (e | l | b) & 0b10 == 0
    }) by (bit_vector)
        requires
            e == 0b100 || e == 0,
            l == 0b1000 || l == 0,
            b == 0b10000 || b == 0,
    ;
}

/// After CMP every bit of the flag register outside bits 2, 3 and 4 is zero.
pub proof fn lemma_compare_clears_other_flags(state: VmState, config: Config)
    requires
        state.after_action(config, Action::Cmp).1 is Ok,
    ensures
        state.after_action(config, Action::Cmp).0.registers.flag & !0b11100u32 == 0,
{
    let (destination, source) = state.operands(config.destination(), config.source()).unwrap();
    lemma_compare_flags_bits(destination, source);
}

/// CMP of a value with itself sets the equal bit and clears the less and the
/// below bit; it changes nothing but the flag register.
pub proof fn lemma_compare_with_itself(state: VmState, config: Config, value: Word)
    requires
        state.operands(config.destination(), config.source()) == Ok::<(Word, Word), VmError>(
            (value, value),
        ),
    ensures
        state.after_action(config, Action::Cmp) == (
            state.write_register(Register::Flag, 0b100),
            Ok::<(), VmError>(()),
        ),
        Flag::Equal.active(0b100),
        !Flag::Less.active(0b100),
        !Flag::Below.active(0b100),
{
    assert(0b100u32 | 0u32 | 0u32 == 0b100u32) by (bit_vector);
    assert(0b100u32 & 0b100u32 != 0 && 0b100u32 & 0b1000u32 == 0 && 0b100u32 & 0b10000u32 == 0)
        by (bit_vector);
}

/// NOT applied twice to one operand gives back the state before the first.
pub proof fn lemma_not_twice(state: VmState, config: NotConfig)
    requires
        state.after_not(config).1 is Ok,
    ensures
        state.after_not(config).0.after_not(config) == (state, Ok::<(), VmError>(())),
{
    let value = state.value(config.operand()).unwrap();
    assert(!!value == value) by (bit_vector);
    let once = state.after_not(config).0;
    match config.operand() {
        Operand::Register(register) => {
            assert(once.store(config.operand(), value).registers == state.registers);
        },
        Operand::Immediate(_) => {},
        Operand::RegisterAddress(register) => {
            let address = state.registers.get(register);
            lemma_read_after_write(state, address, !value);
            lemma_write_twice(state, address, !value, value);
            lemma_write_same_word(state, address);
        },
        Operand::ImmediateAddress(address) => {
            lemma_read_after_write(state, address, !value);
            lemma_write_twice(state, address, !value, value);
            lemma_write_same_word(state, address);
        },
    }
}

/// After `MOV a, b`, a `MOV a, a` on the register `a` changes nothing: `a`
/// keeps what the first assignment gave it.
pub proof fn lemma_mov_to_itself(state: VmState, config: Config, register: Register)
    requires
        config.destination() == Operand::Register(register),
        state.after_action(config, Action::Mov).1 is Ok,
    ensures
        ({
            let moved = state.after_action(config, Action::Mov).0;
            &&& moved.registers.get(register) == state.value(config.source()).unwrap()
            &&& moved.after_action(Config::RegisterFromRegister(register, register), Action::Mov)
                == (moved, Ok::<(), VmError>(()))
        }),
{
    let moved = state.after_action(config, Action::Mov).0;
    let value = moved.registers.get(register);
    assert(moved.store(Operand::Register(register), value).registers == moved.registers);
}

/// Reading a word as signed and keeping the low 32 bits gives the word.
pub proof fn lemma_wrap_signed(word: Word)
    ensures
        wrap(signed(word)) == word,
{
    vstd::arithmetic::div_mod::lemma_mod_multiples_vanish(-1, word as int, modulus());
}

/// `ADD x, 0` with the carry bit clear changes nothing: `x` keeps its
/// value and the carry bit stays clear.
pub proof fn lemma_add_zero(state: VmState, config: Config)
    requires
        state.value(config.destination()) is Ok,
        state.value(config.source()) == Ok::<Word, VmError>(0),
        !Flag::CarryOrBorrow.active(state.registers.flag),
    ensures
        state.after_action(config, Action::Add) == (state, Ok::<(), VmError>(())),
        !Flag::CarryOrBorrow.active(state.after_action(config, Action::Add).0.registers.flag),
{
    let flags = state.registers.flag;
    let value = state.value(config.destination()).unwrap();
    lemma_wrap_signed(value);
    assert(flags & !0b10u32 == flags) by (bit_vector)
        requires
            flags & 0b10 == 0,
    ;
    let written = state.store(config.destination(), value);
    match config.destination() {
        Operand::Register(register) => {
            assert(written.registers == state.registers);
        },
        Operand::Immediate(_) => {},
        Operand::RegisterAddress(register) => {
            lemma_write_same_word(state, state.registers.get(register));
        },
        Operand::ImmediateAddress(address) => {
            lemma_write_same_word(state, address);
        },
    }
    assert(written == state);
    assert(written.write_register(Register::Flag, flags).registers == state.registers);
}

/// A step never changes how much memory the machine has.
pub proof fn lemma_step_keeps_memory_size(state: VmState)
    ensures
        state.step().0.memory.len() == state.memory.len(),
{
}

} // verus!
