//! What the instructions compute from the values of their operands: the flag
//! bits, addition and subtraction with carry, comparison, and the plain
//! two-word operations.

use crate::vm::instruction::MathOpVariant;
use crate::vm::state::VmError;
use crate::word::{modulus, signed, wrap, Word};
use vstd::prelude::*;

verus! {

/// One bit of the flag register.
#[derive(Clone, Copy, Debug, PartialEq, Eq, Structural)]
pub enum Flag {
    /// Bit 0.
    Overflow,
    /// Bit 1: set by ADD and SUB, and read by them.
    CarryOrBorrow,
    /// Bit 2: set by CMP when the operands are equal.
    Equal,
    /// Bit 3: set by CMP when the destination is less, both read as signed.
    Less,
    /// Bit 4: set by CMP when the destination is less, both read as unsigned.
    Below,
}

impl Flag {
    /// The flag register with only this bit set.
    pub open spec fn mask(self) -> Word {
        match self {
            Flag::Overflow => 0b0000_0001,
            Flag::CarryOrBorrow => 0b0000_0010,
            Flag::Equal => 0b0000_0100,
            Flag::Less => 0b0000_1000,
            Flag::Below => 0b0001_0000,
        }
    }

    /// Whether this bit is set in `value`.
    pub open spec fn active(self, value: Word) -> bool {
        value & self.mask() != 0
    }

    /// Tests this bit of a flag register value.
    pub fn is_active(&self, value: u32) -> (active: bool)
        ensures
            active == self.active(value),
    {
        match self {
            Flag::Overflow => (value & 0b0000_0001) != 0,
            Flag::CarryOrBorrow => (value & 0b0000_0010) != 0,
            Flag::Equal => (value & 0b0000_0100) != 0,
            Flag::Less => (value & 0b0000_1000) != 0,
            Flag::Below => (value & 0b0001_0000) != 0,
        }
    }
}

/// The carry (for ADD) or borrow (for SUB) that a flag register value hands in: 0 or 1.
pub open spec fn carry_of(flags: Word) -> int {
    if Flag::CarryOrBorrow.active(flags) {
        1
    } else {
        0
    }
}

/// A flag register value with bit 1 set or cleared and every other bit kept.
pub open spec fn with_carry(flags: Word, carry: bool) -> Word {
    if carry {
        flags | 0b10
    } else {
        flags & !0b10u32
    }
}

/// The exact sum that ADD forms: the destination read as signed, plus the
/// source read as unsigned, plus the carry.
pub open spec fn add_sum(destination: Word, source: Word, carry: int) -> int {
    signed(destination) + source + carry
}

/// Whether the sum of ADD leaves the range of a signed word.
pub open spec fn add_overflows(destination: Word, source: Word, carry: int) -> bool {
    add_sum(destination, source, carry) > i32::MAX
}

/// The exact difference that SUB forms: the destination read as signed, minus
/// the source read as unsigned, minus the borrow.
pub open spec fn sub_difference(destination: Word, source: Word, borrow: int) -> int {
    signed(destination) - source - borrow
}

/// Whether the difference of SUB leaves the range of a signed word.
pub open spec fn sub_overflows(destination: Word, source: Word, borrow: int) -> bool {
    sub_difference(destination, source, borrow) < i32::MIN
}

/// The flag register after CMP: bit 2 for equal, bit 3 for less (signed),
/// bit 4 for below (unsigned), and nothing else.
pub open spec fn compare_flags(destination: Word, source: Word) -> Word {
    (if destination == source {
        0b100u32
    } else {
        0u32
    }) | (if signed(destination) < signed(source) {
        0b1000u32
    } else {
        0u32
    }) | (if destination < source {
        0b10000u32
    } else {
        0u32
    })
}

/// The quotient of two integers rounded towards zero.
pub open spec fn truncated_quotient(dividend: int, divisor: int) -> int
    recommends
        divisor != 0,
{
    let magnitude = (if dividend < 0 {
        -dividend
    } else {
        dividend
    }) / (if divisor < 0 {
        -divisor
    } else {
        divisor
    });
    if (dividend < 0) != (divisor < 0) {
        -magnitude
    } else {
        magnitude
    }
}

impl MathOpVariant {
    /// The word that the operation makes of a destination and a source.
    /// Shifts use the low five bits of the source; products and the signed
    /// quotient keep their low 32 bits; a zero divisor is an error.
    pub open spec fn result(self, destination: Word, source: Word) -> Result<Word, VmError> {
        match self {
            MathOpVariant::Or => Ok(destination | source),
            MathOpVariant::And => Ok(destination & source),
            MathOpVariant::Xor => Ok(destination ^ source),
            MathOpVariant::Shl => Ok(destination << (source & 31)),
            MathOpVariant::Shr => Ok(destination >> (source & 31)),
            MathOpVariant::Mul => Ok(wrap(destination * source)),
            MathOpVariant::IMul => Ok(wrap(signed(destination) * signed(source))),
            MathOpVariant::Div => if source == 0 {
                Err(VmError::DivisionByZero)
            } else {
                Ok(destination / source)
            },
            MathOpVariant::IDiv => if source == 0 {
                Err(VmError::DivisionByZero)
            } else {
                Ok(wrap(truncated_quotient(signed(destination), signed(source))))
            },
            MathOpVariant::Rem => if source == 0 {
                Err(VmError::DivisionByZero)
            } else {
                Ok(destination % source)
            },
        }
    }
}

/// What a two-operand instruction does with the values of its operands.
#[derive(Clone, Copy, Debug, PartialEq, Eq, Structural)]
pub enum Action {
    /// MOV: the destination takes the source.
    Mov,
    /// One of the plain two-word operations.
    Math(MathOpVariant),
    /// ADD with carry.
    Add,
    /// SUB with borrow.
    Sub,
    /// CMP: only the flags change.
    Cmp,
}

/// What an action asks to be written.
#[derive(Clone, Copy, Debug, PartialEq, Eq, Structural)]
pub struct Outcome {
    /// The new value of the destination, if it gets one.
    pub value: Option<Word>,
    /// The new value of the flag register, if it gets one. It is written last.
    pub flag: Option<Word>,
}

impl Action {
    /// What the action asks to be written, given the flag register and the
    /// values of the destination and the source.
    pub open spec fn outcome(self, flags: Word, destination: Word, source: Word) -> Result<
        Outcome,
        VmError,
    > {
        match self {
            Action::Mov => Ok(Outcome { value: Some(source), flag: None }),
            Action::Math(variant) => match variant.result(destination, source) {
                Ok(value) => Ok(Outcome { value: Some(value), flag: None }),
                Err(error) => Err(error),
            },
            Action::Add => Ok(
                Outcome {
                    value: Some(wrap(add_sum(destination, source, carry_of(flags)))),
                    flag: Some(
                        with_carry(flags, add_overflows(destination, source, carry_of(flags))),
                    ),
                },
            ),
            Action::Sub => Ok(
                Outcome {
                    value: Some(wrap(sub_difference(destination, source, carry_of(flags)))),
                    flag: Some(
                        with_carry(flags, sub_overflows(destination, source, carry_of(flags))),
                    ),
                },
            ),
            Action::Cmp => Ok(
                Outcome { value: None, flag: Some(compare_flags(destination, source)) },
            ),
        }
    }
}

/// Reads a word as a two's-complement number.
pub fn to_signed(word: Word) -> (value: i64)
    ensures
        value == signed(word),
{
    if word < 0x8000_0000 {
        word as i64
    } else {
        word as i64 - 0x1_0000_0000
    }
}

/// Keeps the low 32 bits of a number that is less than two moduli away from zero.
pub fn wrap_wide(value: i64) -> (word: Word)
    requires
        -2 * modulus() <= value < 2 * modulus(),
    ensures
        word == wrap(value as int),
{
    if value < -0x1_0000_0000 {
        (value + 0x2_0000_0000) as u32
    } else if value < 0 {
        (value + 0x1_0000_0000) as u32
    } else if value >= 0x1_0000_0000 {
        (value - 0x1_0000_0000) as u32
    } else {
        value as u32
    }
}

/// ADD: the new destination and whether the sum overflowed.
pub fn add_with_carry(destination: Word, source: Word, carry: bool) -> (sum: (Word, bool))
    ensures
        sum.0 == wrap(add_sum(destination, source, if carry { 1 } else { 0 })),
        sum.1 == add_overflows(destination, source, if carry { 1 } else { 0 }),
{
    let carry_in: i64 = if carry { 1 } else { 0 };
    let exact: i64 = to_signed(destination) + source as i64 + carry_in;
    (wrap_wide(exact), exact > 0x7fff_ffff)
}

/// SUB: the new destination and whether the difference overflowed.
pub fn sub_with_borrow(destination: Word, source: Word, borrow: bool) -> (difference: (Word, bool))
    ensures
        difference.0 == wrap(sub_difference(destination, source, if borrow { 1 } else { 0 })),
        difference.1 == sub_overflows(destination, source, if borrow { 1 } else { 0 }),
{
    let borrow_in: i64 = if borrow { 1 } else { 0 };
    let exact: i64 = to_signed(destination) - source as i64 - borrow_in;
    (wrap_wide(exact), exact < -0x8000_0000)
}

/// CMP: the new flag register.
pub fn compare(destination: Word, source: Word) -> (flags: Word)
    ensures
        flags == compare_flags(destination, source),
{
    let equal: u32 = if destination == source { 0b100 } else { 0 };
    let less: u32 = if to_signed(destination) < to_signed(source) { 0b1000 } else { 0 };
    let below: u32 = if destination < source { 0b10000 } else { 0 };
    equal | less | below
}

/// Reading two words as signed changes nothing in the low 32 bits of their product.
pub proof fn lemma_signed_product(destination: Word, source: Word)
    ensures
        wrap(signed(destination) * signed(source)) == wrap(destination * source),
{
    let m = modulus();
    let a = signed(destination);
    let b = signed(source);
    vstd::arithmetic::div_mod::lemma_mod_multiples_vanish(-1, destination as int, m);
    vstd::arithmetic::div_mod::lemma_mod_multiples_vanish(-1, source as int, m);
    assert(a % m == destination as int);
    assert(b % m == source as int);
    vstd::arithmetic::div_mod::lemma_mul_mod_noop(a, b, m);
    vstd::arithmetic::div_mod::lemma_mul_mod_noop(destination as int, source as int, m);
}

/// The quotient of two signed words, rounded towards zero, as a word.
fn signed_quotient(destination: Word, source: Word) -> (quotient: Word)
    requires
        source != 0,
    ensures
        quotient == wrap(truncated_quotient(signed(destination), signed(source))),
{
    let dividend = to_signed(destination);
    let divisor = to_signed(source);
    let dividend_size: u64 = if dividend < 0 { (-dividend) as u64 } else { dividend as u64 };
    let divisor_size: u64 = if divisor < 0 { (-divisor) as u64 } else { divisor as u64 };
    let magnitude: u64 = dividend_size / divisor_size;
    assert(magnitude <= dividend_size) by (nonlinear_arith)
        requires
            magnitude == dividend_size / divisor_size,
            divisor_size > 0,
    ;
    if (dividend < 0) != (divisor < 0) {
        wrap_wide(-(magnitude as i64))
    } else {
        wrap_wide(magnitude as i64)
    }
}

impl MathOpVariant {
    /// Applies the operation to a destination and a source.
    pub fn apply(&self, destination: Word, source: Word) -> (word: Result<Word, VmError>)
        ensures
            word == self.result(destination, source),
    {
        match self {
            MathOpVariant::Or => Ok(destination | source),
            MathOpVariant::And => Ok(destination & source),
            MathOpVariant::Xor => Ok(destination ^ source),
            MathOpVariant::Shl => {
                assert(source & 31 < 32) by (bit_vector);
                Ok(destination << (source & 31))
            },
            MathOpVariant::Shr => {
                assert(source & 31 < 32) by (bit_vector);
                Ok(destination >> (source & 31))
            },
            MathOpVariant::Mul => Ok(low_product(destination, source)),
            MathOpVariant::IMul => {
                proof {
                    lemma_signed_product(destination, source);
                }
                Ok(low_product(destination, source))
            },
            MathOpVariant::Div => if source == 0 {
                Err(VmError::DivisionByZero)
            } else {
                Ok(destination / source)
            },
            MathOpVariant::IDiv => if source == 0 {
                Err(VmError::DivisionByZero)
            } else {
                Ok(signed_quotient(destination, source))
            },
            MathOpVariant::Rem => if source == 0 {
                Err(VmError::DivisionByZero)
            } else {
                Ok(destination % source)
            },
        }
    }
}

/// The low 32 bits of the product of two words.
fn low_product(destination: Word, source: Word) -> (product: Word)
    ensures
        product == wrap(destination * source),
{
    assert(destination * source <= 0xffff_ffff * 0xffff_ffff) by (nonlinear_arith)
        requires
            destination <= 0xffff_ffff,
            source <= 0xffff_ffff,
    ;
    let exact: u64 = destination as u64 * source as u64;
    (exact % 0x1_0000_0000) as u32
}

impl Action {
    /// Computes what the action asks to be written.
    pub fn apply(&self, flags: Word, destination: Word, source: Word) -> (outcome: Result<
        Outcome,
        VmError,
    >)
        ensures
            outcome == self.outcome(flags, destination, source),
    {
        match self {
            Action::Mov => Ok(Outcome { value: Some(source), flag: None }),
            Action::Math(variant) => match variant.apply(destination, source) {
                Ok(value) => Ok(Outcome { value: Some(value), flag: None }),
                Err(error) => Err(error),
            },
            Action::Add => {
                let carry = Flag::CarryOrBorrow.is_active(flags);
                let (value, overflowed) = add_with_carry(destination, source, carry);
                Ok(Outcome { value: Some(value), flag: Some(set_carry(flags, overflowed)) })
            },
            Action::Sub => {
                let borrow = Flag::CarryOrBorrow.is_active(flags);
                let (value, overflowed) = sub_with_borrow(destination, source, borrow);
                Ok(Outcome { value: Some(value), flag: Some(set_carry(flags, overflowed)) })
            },
            Action::Cmp => Ok(Outcome { value: None, flag: Some(compare(destination, source)) }),
        }
    }
}

/// Sets or clears bit 1 of a flag register value.
pub fn set_carry(flags: Word, carry: bool) -> (updated: Word)
    ensures
        updated == with_carry(flags, carry),
{
    if carry {
        flags | 0b10
    } else {
        flags & !0b10u32
    }
}

} // verus!
