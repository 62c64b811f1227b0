//! Number literals: decimal, `0x` hexadecimal and `0b` binary, with
//! underscores between digits, and character literals in single quotes.

use crate::error::ErrorKind;
use crate::text::{bytes_of, same_bytes};
use crate::word::{wrap, Word};
use vstd::prelude::*;

verus! {

/// The value of a digit in a radix, if the byte is one: `0` to `9`, then
/// the letters in either case.
pub open spec fn digit_of(byte: u8, radix: int) -> Option<int> {
    let value: int = if 0x30 <= byte <= 0x39 {
        byte - 0x30
    } else if 0x61 <= byte <= 0x7a {
        byte - 0x61 + 10
    } else if 0x41 <= byte <= 0x5a {
        byte - 0x41 + 10
    } else {
        radix
    };
    if value < radix {
        Some(value)
    } else {
        None
    }
}

/// Whether a run of bytes is one digit or more of a radix.
pub open spec fn are_digits(digits: Seq<u8>, radix: int) -> bool {
    digits.len() > 0 && forall|i: int| 0 <= i < digits.len() ==> digit_of(digits[i], radix) is Some
}

/// The number that a run of digits writes in a radix.
pub open spec fn magnitude(digits: Seq<u8>, radix: int) -> int
    decreases digits.len(),
{
    if digits.len() == 0 {
        0
    } else {
        magnitude(digits.drop_last(), radix) * radix + digit_of(digits.last(), radix).unwrap()
    }
}

/// The integer that a sign and digits write in a radix: an optional `+` or
/// `-`, then one digit or more.
pub open spec fn signed_number(text: Seq<u8>, radix: int) -> Option<int> {
    if text.len() > 0 && text[0] == 0x2d {
        if are_digits(text.skip(1), radix) {
            Some(-magnitude(text.skip(1), radix))
        } else {
            None
        }
    } else if text.len() > 0 && text[0] == 0x2b {
        if are_digits(text.skip(1), radix) {
            Some(magnitude(text.skip(1), radix))
        } else {
            None
        }
    } else if are_digits(text, radix) {
        Some(magnitude(text, radix))
    } else {
        None
    }
}

/// A run of bytes without its underscores.
pub open spec fn without_underscores(text: Seq<u8>) -> Seq<u8>
    decreases text.len(),
{
    if text.len() == 0 {
        text
    } else if text.last() == 0x5f {
        without_underscores(text.drop_last())
    } else {
        without_underscores(text.drop_last()).push(text.last())
    }
}

/// Whether `text` starts with `prefix`.
pub open spec fn starts_with(text: Seq<u8>, prefix: Seq<u8>) -> bool {
    prefix.len() <= text.len() && text.subrange(0, prefix.len() as int) == prefix
}

/// The radix that the start of a number asks for, and the rest of the number.
pub open spec fn radix_and_digits(text: Seq<u8>) -> (int, Seq<u8>) {
    if starts_with(text, bytes_of("0x")) {
        (16, text.skip(bytes_of("0x").len() as int))
    } else if starts_with(text, bytes_of("0b")) {
        (2, text.skip(bytes_of("0b").len() as int))
    } else {
        (10, text)
    }
}

/// The word that an integer stands for: an integer from 0 to `0xFFFF_FFFF`
/// is itself, a negative one down to `-0x8000_0000` is its two's complement.
pub open spec fn word_of_integer(value: int) -> Result<Word, ErrorKind> {
    if value < i64::MIN || value > i64::MAX {
        Err(ErrorKind::InvalidNumber)
    } else if value < -0x8000_0000 || value > 0xffff_ffff {
        Err(ErrorKind::NumberOutOfRange)
    } else {
        Ok(wrap(value))
    }
}

/// The word that a number literal writes. Underscores are dropped first.
pub open spec fn number_value(text: Seq<u8>) -> Result<Word, ErrorKind> {
    let (radix, digits) = radix_and_digits(without_underscores(text));
    match signed_number(digits, radix) {
        None => Err(ErrorKind::InvalidNumber),
        Some(value) => word_of_integer(value),
    }
}

/// The byte that an escape stands for: `\n`, `\r`, `\t`, `\0`, `\\`, `\'`
/// and `\"`.
pub open spec fn escape_value(byte: u8) -> Result<u8, ErrorKind> {
    if byte == 0x6e {
        Ok(0x0au8)
    } else if byte == 0x72 {
        Ok(0x0du8)
    } else if byte == 0x74 {
        Ok(0x09u8)
    } else if byte == 0x30 {
        Ok(0x00u8)
    } else if byte == 0x5c {
        Ok(0x5cu8)
    } else if byte == 0x27 {
        Ok(0x27u8)
    } else if byte == 0x22 {
        Ok(0x22u8)
    } else {
        Err(ErrorKind::InvalidEscape(byte))
    }
}

/// The byte that a character literal writes: a quote, one byte or an
/// escape, and a quote. What follows the closing quote is not read.
pub open spec fn char_value(text: Seq<u8>) -> Result<Word, ErrorKind> {
    if text.len() < 2 {
        Err(ErrorKind::UnexpectedEndOfCharLiteral)
    } else if text[1] == 0x5c {
        if text.len() < 3 {
            Err(ErrorKind::UnexpectedEndOfCharLiteral)
        } else {
            match escape_value(text[2]) {
                Err(kind) => Err(kind),
                Ok(byte) => if text.len() < 4 {
                    Err(ErrorKind::UnexpectedEndOfCharLiteral)
                } else if text[3] != 0x27 {
                    Err(ErrorKind::ExpectedSingleQuote(text[3]))
                } else {
                    Ok(byte as Word)
                },
            }
        }
    } else if text.len() < 3 {
        Err(ErrorKind::UnexpectedEndOfCharLiteral)
    } else if text[2] != 0x27 {
        Err(ErrorKind::ExpectedSingleQuote(text[2]))
    } else {
        Ok(text[1] as Word)
    }
}

/// Whether every byte is ASCII.
pub open spec fn is_ascii(text: Seq<u8>) -> bool {
    forall|i: int| 0 <= i < text.len() ==> text[i] < 0x80
}

/// The word that a literal writes: a character literal if it starts with a
/// single quote, else a number.
pub open spec fn immediate_value(text: Seq<u8>) -> Result<Word, ErrorKind> {
    if text.len() == 0 {
        Err(ErrorKind::UnexpectedEndOfInput)
    } else if !is_ascii(text) {
        Err(ErrorKind::InvalidUtf8)
    } else if text[0] == 0x27 {
        char_value(text)
    } else {
        number_value(text)
    }
}

/// The unsigned word that a number writes, without underscores or
/// character literals: `0x` hexadecimal, `0b` binary or decimal digits,
/// after an optional `+`.
pub open spec fn integer_value(text: Seq<u8>) -> Option<Word> {
    let (radix, digits) = radix_and_digits(text);
    let unsigned = if digits.len() > 0 && digits[0] == 0x2b {
        digits.skip(1)
    } else {
        digits
    };
    if are_digits(unsigned, radix) && magnitude(unsigned, radix) <= u32::MAX {
        Some(magnitude(unsigned, radix) as Word)
    } else {
        None
    }
}

/// The unsigned word that decimal digits write, after an optional `+`.
pub open spec fn decimal_value(text: Seq<u8>) -> Option<Word> {
    let unsigned = if text.len() > 0 && text[0] == 0x2b {
        text.skip(1)
    } else {
        text
    };
    if are_digits(unsigned, 10) && magnitude(unsigned, 10) <= u32::MAX {
        Some(magnitude(unsigned, 10) as Word)
    } else {
        None
    }
}

/// The value of a digit in a radix.
fn digit(byte: u8, radix: u8) -> (value: Option<u8>)
    requires
        2 <= radix <= 36,
    ensures
        match digit_of(byte, radix as int) {
            Some(digit) => value == Some(digit as u8) && digit < radix,
            None => value is None,
        },
{
    let value: u8 = if 0x30 <= byte && byte <= 0x39 {
        byte - 0x30
    } else if 0x61 <= byte && byte <= 0x7a {
        byte - 0x61 + 10
    } else if 0x41 <= byte && byte <= 0x5a {
        byte - 0x41 + 10
    } else {
        radix
    };
    if value < radix {
        Some(value)
    } else {
        None
    }
}

/// One more than the largest size that a 64-bit signed number can have.
pub open spec fn ceiling() -> int {
    0x8000_0000_0000_0001
}

/// Reads digits of a radix. Gives their number, or `ceiling()` if the number
/// is that large or larger; nothing if there is no digit or a byte is none.
fn read_digits(digits: &[u8], radix: u8) -> (value: Option<u64>)
    requires
        2 <= radix <= 36,
    ensures
        are_digits(digits@, radix as int) ==> value == Some(
            if magnitude(digits@, radix as int) < ceiling() {
                magnitude(digits@, radix as int) as u64
            } else {
                ceiling() as u64
            },
        ),
        !are_digits(digits@, radix as int) ==> value is None,
        are_digits(digits@, radix as int) ==> magnitude(digits@, radix as int) >= 0,
{
    if digits.len() == 0 {
        return None;
    }
    let mut total: u64 = 0;
    let mut index: usize = 0;
    while index < digits.len()
        invariant
            2 <= radix <= 36,
            index <= digits.len(),
            forall|i: int| 0 <= i < index ==> digit_of(digits[i], radix as int) is Some,
            total <= ceiling(),
            total == (if magnitude(digits@.subrange(0, index as int), radix as int) < ceiling() {
                magnitude(digits@.subrange(0, index as int), radix as int)
            } else {
                ceiling()
            }),
            magnitude(digits@.subrange(0, index as int), radix as int) >= 0,
        decreases digits.len() - index,
    {
        let value = match digit(digits[index], radix) {
            Some(value) => value,
            None => { return None; },
        };
        let ghost before = magnitude(digits@.subrange(0, index as int), radix as int);
        proof {
            let longer = digits@.subrange(0, index + 1);
            assert(longer.drop_last() =~= digits@.subrange(0, index as int));
            assert(longer.last() == digits[index as int]);
            assert(magnitude(longer, radix as int) == before * radix + value);
            assert(total * radix <= ceiling() * 36) by (nonlinear_arith)
                requires
                    total <= ceiling(),
                    radix <= 36,
            ;
            assert(before * radix >= before * 2 && before * radix >= 0) by (nonlinear_arith)
                requires
                    before >= 0,
                    radix >= 2,
            ;
            if before < ceiling() {
                assert(total * radix == before * radix) by (nonlinear_arith)
                    requires
                        total == before,
                ;
            } else {
                assert(total * radix >= ceiling() * 2) by (nonlinear_arith)
                    requires
                        total == ceiling(),
                        radix >= 2,
                ;
            }
        }
        let wide: u128 = total as u128 * radix as u128 + value as u128;
        total = if wide > 0x8000_0000_0000_0001 {
            0x8000_0000_0000_0001
        } else {
            wide as u64
        };
        index += 1;
    }
    assert(digits@.subrange(0, index as int) =~= digits@);
    Some(total)
}

/// Reads an optional sign and digits of a radix as a word.
fn read_signed(text: &[u8], radix: u8) -> (value: Result<u32, ErrorKind>)
    requires
        2 <= radix <= 36,
    ensures
        value == match signed_number(text@, radix as int) {
            None => Err::<u32, ErrorKind>(ErrorKind::InvalidNumber),
            Some(number) => word_of_integer(number),
        },
{
    let negative = text.len() > 0 && text[0] == 0x2d;
    let signed = text.len() > 0 && (text[0] == 0x2d || text[0] == 0x2b);
    let digits = if signed {
        vstd::slice::slice_subrange(text, 1, text.len())
    } else {
        text
    };
    proof {
        if signed {
            assert(digits@ =~= text@.skip(1));
        }
    }
    let size = match read_digits(digits, radix) {
        None => { return Err(ErrorKind::InvalidNumber); },
        Some(size) => size,
    };
    if negative {
        if size > 0x8000_0000_0000_0000 {
            Err(ErrorKind::InvalidNumber)
        } else if size > 0x8000_0000 {
            Err(ErrorKind::NumberOutOfRange)
        } else {
            Ok(crate::vm::alu::wrap_wide(-(size as i64)))
        }
    } else {
        if size > 0x7fff_ffff_ffff_ffff {
            Err(ErrorKind::InvalidNumber)
        } else if size > 0xffff_ffff {
            Err(ErrorKind::NumberOutOfRange)
        } else {
            Ok(size as u32)
        }
    }
}

/// Copies a run of bytes without its underscores.
fn strip_underscores(text: &[u8]) -> (stripped: Vec<u8>)
    ensures
        stripped@ == without_underscores(text@),
{
    let mut stripped: Vec<u8> = Vec::new();
    let mut index: usize = 0;
    while index < text.len()
        invariant
            index <= text.len(),
            stripped@ == without_underscores(text@.subrange(0, index as int)),
        decreases text.len() - index,
    {
        proof {
            let longer = text@.subrange(0, index + 1);
            assert(longer.drop_last() =~= text@.subrange(0, index as int));
        }
        if text[index] != 0x5f {
            stripped.push(text[index]);
        }
        index += 1;
    }
    assert(text@.subrange(0, index as int) =~= text@);
    stripped
}

/// Tells the radix of a number from its start, and where its digits begin.
fn split_radix(text: &[u8]) -> (split: (u8, &[u8]))
    ensures
        split.0 as int == radix_and_digits(text@).0,
        split.1@ == radix_and_digits(text@).1,
        2 <= split.0 <= 36,
{
    let hexadecimal = "0x".as_bytes();
    let binary = "0b".as_bytes();
    if text.len() >= hexadecimal.len() && same_bytes(
        vstd::slice::slice_subrange(text, 0, hexadecimal.len()),
        hexadecimal,
    ) {
        let digits = vstd::slice::slice_subrange(text, hexadecimal.len(), text.len());
        assert(digits@ =~= text@.skip(hexadecimal@.len() as int));
        (16, digits)
    } else if text.len() >= binary.len() && same_bytes(
        vstd::slice::slice_subrange(text, 0, binary.len()),
        binary,
    ) {
        let digits = vstd::slice::slice_subrange(text, binary.len(), text.len());
        assert(digits@ =~= text@.skip(binary@.len() as int));
        (2, digits)
    } else {
        (10, text)
    }
}

/// Reads a number literal.
pub fn parse_number(text: &[u8]) -> (value: Result<u32, ErrorKind>)
    ensures
        value == number_value(text@),
{
    let stripped = strip_underscores(text);
    let (radix, digits) = split_radix(stripped.as_slice());
    read_signed(digits, radix)
}

/// Reads an escape.
pub fn parse_escape(byte: u8) -> (value: Result<u8, ErrorKind>)
    ensures
        value == escape_value(byte),
{
    if byte == 0x6e {
        Ok(0x0a)
    } else if byte == 0x72 {
        Ok(0x0d)
    } else if byte == 0x74 {
        Ok(0x09)
    } else if byte == 0x30 {
        Ok(0x00)
    } else if byte == 0x5c {
        Ok(0x5c)
    } else if byte == 0x27 {
        Ok(0x27)
    } else if byte == 0x22 {
        Ok(0x22)
    } else {
        Err(ErrorKind::InvalidEscape(byte))
    }
}

/// Reads a character literal.
fn parse_char(text: &[u8]) -> (value: Result<u32, ErrorKind>)
    ensures
        value == char_value(text@),
{
    if text.len() < 2 {
        return Err(ErrorKind::UnexpectedEndOfCharLiteral);
    }
    let (byte, end): (u8, usize) = if text[1] == 0x5c {
        if text.len() < 3 {
            return Err(ErrorKind::UnexpectedEndOfCharLiteral);
        }
        match parse_escape(text[2]) {
            Ok(byte) => (byte, 3),
            Err(kind) => { return Err(kind); },
        }
    } else {
        (text[1], 2)
    };
    if text.len() <= end {
        return Err(ErrorKind::UnexpectedEndOfCharLiteral);
    }
    if text[end] != 0x27 {
        return Err(ErrorKind::ExpectedSingleQuote(text[end]));
    }
    Ok(byte as u32)
}

/// Tests whether every byte is ASCII.
fn all_ascii(text: &[u8]) -> (yes: bool)
    ensures
        yes == is_ascii(text@),
{
    let mut index: usize = 0;
    while index < text.len()
        invariant
            index <= text.len(),
            forall|i: int| 0 <= i < index ==> text[i] < 0x80,
        decreases text.len() - index,
    {
        if text[index] >= 0x80 {
            return false;
        }
        index += 1;
    }
    true
}

/// Reads a literal: a character literal or a number.
pub fn parse_immediate(text: &[u8]) -> (value: Result<u32, ErrorKind>)
    ensures
        value == immediate_value(text@),
{
    if text.len() == 0 {
        Err(ErrorKind::UnexpectedEndOfInput)
    } else if !all_ascii(text) {
        Err(ErrorKind::InvalidUtf8)
    } else if text[0] == 0x27 {
        parse_char(text)
    } else {
        parse_number(text)
    }
}

/// Reads an unsigned number: `0x` hexadecimal, `0b` binary or decimal.
pub fn parse_integer(value: &str) -> (number: Option<u32>)
    ensures
        number == integer_value(bytes_of(value)),
{
    let text = value.as_bytes();
    let (radix, digits) = split_radix(text);
    let unsigned = if digits.len() > 0 && digits[0] == 0x2b {
        let rest = vstd::slice::slice_subrange(digits, 1, digits.len());
        assert(rest@ =~= digits@.skip(1));
        rest
    } else {
        digits
    };
    match read_digits(unsigned, radix) {
        None => None,
        Some(size) => if size > 0xffff_ffff {
            None
        } else {
            Some(size as u32)
        },
    }
}

/// Reads an unsigned decimal number.
pub fn parse_decimal(value: &str) -> (number: Option<u32>)
    ensures
        number == decimal_value(bytes_of(value)),
{
    let text = value.as_bytes();
    let unsigned = if text.len() > 0 && text[0] == 0x2b {
        let rest = vstd::slice::slice_subrange(text, 1, text.len());
        assert(rest@ =~= text@.skip(1));
        rest
    } else {
        text
    };
    match read_digits(unsigned, 10) {
        None => None,
        Some(size) => if size > 0xffff_ffff {
            None
        } else {
            Some(size as u32)
        },
    }
}

} // verus!
