//! The machine word: an unsigned 32-bit integer, big-endian on the wire.

use vstd::prelude::*;

verus! {

/// The machine's native value: registers, immediates and addresses are words.
pub type Word = u32;

/// The number of distinct words, `2^32`.
pub open spec fn modulus() -> int {
    0x1_0000_0000
}

/// The word left after dropping everything above the low 32 bits of `value`.
pub open spec fn wrap(value: int) -> Word {
    (value % modulus()) as Word
}

/// The two's-complement reading of a word.
pub open spec fn signed(word: Word) -> int {
    if word < 0x8000_0000 {
        word as int
    } else {
        word - modulus()
    }
}

/// The four bytes of a word, most significant first.
pub open spec fn be_bytes(word: Word) -> Seq<u8> {
    seq![
        (word >> 24) as u8,
        ((word >> 16) & 0xff) as u8,
        ((word >> 8) & 0xff) as u8,
        (word & 0xff) as u8,
    ]
}

/// The word whose big-endian bytes are `b0 b1 b2 b3`.
pub open spec fn word_of(b0: u8, b1: u8, b2: u8, b3: u8) -> Word {
    (b0 as u32) << 24 | (b1 as u32) << 16 | (b2 as u32) << 8 | (b3 as u32)
}

/// The word stored big-endian in `bytes` at `at`.
pub open spec fn word_at(bytes: Seq<u8>, at: int) -> Word
    recommends
        0 <= at,
        at + 4 <= bytes.len(),
{
    word_of(bytes[at], bytes[at + 1], bytes[at + 2], bytes[at + 3])
}

/// Reading back the big-endian bytes of a word gives the word.
pub proof fn lemma_word_of_be_bytes(word: Word)
    ensures
        be_bytes(word).len() == 4,
        word_at(be_bytes(word), 0) == word,
{
    assert(((((word >> 24) as u8) as u32) << 24 | ((((word >> 16) & 0xff) as u8) as u32) << 16 | ((((word
        >> 8) & 0xff) as u8) as u32) << 8 | (((word & 0xff) as u8) as u32)) == word) by (bit_vector);
}

/// The big-endian bytes of the word made of four bytes are those bytes.
pub proof fn lemma_be_bytes_of_word(b0: u8, b1: u8, b2: u8, b3: u8)
    ensures
        be_bytes(word_of(b0, b1, b2, b3)) == seq![b0, b1, b2, b3],
{
    let word = word_of(b0, b1, b2, b3);
    assert({
        &&& (word >> 24) as u8 == b0
        &&& ((word >> 16) & 0xff) as u8 == b1
        &&& ((word >> 8) & 0xff) as u8 == b2
        &&& (word & 0xff) as u8 == b3
    }) by (bit_vector)
        requires
            word == (b0 as u32) << 24 | (b1 as u32) << 16 | (b2 as u32) << 8 | (b3 as u32),
    ;
    assert(be_bytes(word) =~= seq![b0, b1, b2, b3]);
}

/// Splits a word into its big-endian bytes.
pub fn to_be_bytes(word: Word) -> (bytes: [u8; 4])
    ensures
        bytes@ == be_bytes(word),
{
    let bytes = [
        (word >> 24) as u8,
        ((word >> 16) & 0xff) as u8,
        ((word >> 8) & 0xff) as u8,
        (word & 0xff) as u8,
    ];
    assert(bytes@ =~= be_bytes(word));
    bytes
}

/// Joins four big-endian bytes into a word.
pub fn from_be_bytes(b0: u8, b1: u8, b2: u8, b3: u8) -> (word: Word)
    ensures
        word == word_of(b0, b1, b2, b3),
{
    (b0 as u32) << 24 | (b1 as u32) << 16 | (b2 as u32) << 8 | (b3 as u32)
}

} // verus!
