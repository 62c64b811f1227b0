//! Bytes of source text: comparing words and classifying characters.

use vstd::prelude::*;
use vstd::string::StringSliceAdditionalSpecFns;

verus! {

/// The bytes of a piece of text.
pub open spec fn bytes_of(word: &str) -> Seq<u8> {
    word.spec_bytes()
}

/// Whether a byte is ASCII white space: space, tab, line feed, form feed or
/// carriage return.
pub open spec fn is_space(byte: u8) -> bool {
    byte == 0x20 || byte == 0x09 || byte == 0x0a || byte == 0x0c || byte == 0x0d
}

/// Whether a byte is an ASCII decimal digit.
pub open spec fn is_digit(byte: u8) -> bool {
    0x30 <= byte <= 0x39
}

/// Whether a byte is an ASCII letter.
pub open spec fn is_letter(byte: u8) -> bool {
    0x41 <= byte <= 0x5a || 0x61 <= byte <= 0x7a
}

/// Whether a byte may continue a word: a letter, a digit, or one of `-`,
/// `_`, `@`, `'` and `\`.
pub open spec fn is_word_byte(byte: u8) -> bool {
    is_letter(byte) || is_digit(byte) || byte == 0x2d || byte == 0x5f || byte == 0x40 || byte
        == 0x27 || byte == 0x5c
}

/// Tests for ASCII white space.
pub fn ascii_space(byte: u8) -> (yes: bool)
    ensures
        yes == is_space(byte),
{
    byte == 0x20 || byte == 0x09 || byte == 0x0a || byte == 0x0c || byte == 0x0d
}

/// Tests for an ASCII decimal digit.
pub fn ascii_digit(byte: u8) -> (yes: bool)
    ensures
        yes == is_digit(byte),
{
    0x30 <= byte && byte <= 0x39
}

/// Tests for an ASCII letter.
pub fn ascii_letter(byte: u8) -> (yes: bool)
    ensures
        yes == is_letter(byte),
{
    (0x41 <= byte && byte <= 0x5a) || (0x61 <= byte && byte <= 0x7a)
}

/// Tests whether a byte may continue a word.
pub fn word_byte(byte: u8) -> (yes: bool)
    ensures
        yes == is_word_byte(byte),
{
    ascii_letter(byte) || ascii_digit(byte) || byte == 0x2d || byte == 0x5f || byte == 0x40 || byte
        == 0x27 || byte == 0x5c
}

/// Tests whether two runs of bytes are the same.
pub fn same_bytes(left: &[u8], right: &[u8]) -> (same: bool)
    ensures
        same == (left@ == right@),
{
    if left.len() != right.len() {
        return false;
    }
    let mut index: usize = 0;
    while index < left.len()
        invariant
            index <= left.len(),
            left.len() == right.len(),
            forall|i: int| 0 <= i < index ==> left[i] == right[i],
        decreases left.len() - index,
    {
        if left[index] != right[index] {
            return false;
        }
        index += 1;
    }
    assert(left@ =~= right@);
    true
}

/// Tests whether a run of bytes spells a word.
pub fn spells(text: &[u8], word: &str) -> (same: bool)
    ensures
        same == (text@ == bytes_of(word)),
{
    same_bytes(text, word.as_bytes())
}

/// Copies the bytes of `text` from `from` up to `to`.
pub fn copy_range(text: &[u8], from: usize, to: usize) -> (copy: Vec<u8>)
    requires
        from <= to <= text.len(),
    ensures
        copy@ == text@.subrange(from as int, to as int),
{
    vstd::slice::slice_to_vec(vstd::slice::slice_subrange(text, from, to))
}

} // verus!
