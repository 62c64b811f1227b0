//! The commands of the inspector: what a line of words asks for.

use crate::number::{decimal_value, integer_value, parse_decimal, parse_integer};
use crate::text::{bytes_of, spells};
use vstd::prelude::*;

verus! {

/// How a word is shown.
#[derive(Clone, Copy, Debug, PartialEq, Eq, Structural)]
pub enum WordFormat {
    Hex,
    Binary,
    Decimal,
}

/// Why the bytes of `inline` end before the end of the line.
#[derive(Clone, Copy, Debug, PartialEq, Eq, Structural)]
pub enum InlineStop {
    /// The word at this index is `&&`, which `inline` does not support.
    Chained(usize),
    /// The word at this index is no byte.
    InvalidByte(usize),
}

/// A command of the inspector. Indices are those of words of the line.
#[derive(Clone, Copy, Debug, PartialEq, Eq, Structural)]
pub enum Command {
    /// `help`.
    Help,
    /// `file <path>` or `load <path>`: the path is the word at `name`.
    Load { name: usize },
    /// `step [n]`: so many steps, one if no number is given.
    Step { amount: u32 },
    /// `inline <bytes…>`: the bytes are the words from `from` up to `until`.
    Inline { from: usize, until: usize, stopped: Option<InlineStop> },
    /// `repeat <n> <cmd…>`: the rest of the line, from the word at `from`
    /// on, so many times.
    Repeat { amount: u32, from: usize },
    /// `eval`.
    Eval,
    /// `registers <format>`.
    Registers { format: WordFormat },
    /// `memory <format> <start> <stop>`: the words from `start` up to `stop`.
    Memory { format: WordFormat, start: u32, stop: u32 },
    /// `exit`.
    Exit,
    /// The word at this index is no command.
    Unknown { word: usize },
    /// The line has no more words.
    Nothing,
}

/// Why a command cannot be carried out. Nothing more of the line is read.
#[derive(Clone, Copy, Debug, PartialEq, Eq, Structural)]
pub enum CommandError {
    /// `file` or `load` without a path.
    MissingFileName,
    /// The amount of `step` or `repeat`, the word at this index, is no number.
    InvalidAmount { word: usize },
    /// `repeat` without an amount.
    MissingAmount,
    /// `registers` or `memory` without a format.
    MissingFormat,
    /// The format, the word at this index, is none of `hex`, `bin`,
    /// `binary`, `dec` and `decimal`.
    UnknownFormat { word: usize },
    /// `memory` without a start, or with one that is no number.
    InvalidStart,
    /// `memory` without a stop, or with one that is no number.
    InvalidStop,
    /// `memory` with a start that is not below the stop.
    EmptyRange { start: u32, stop: u32 },
}

/// A command, and the index of the first word after it.
#[derive(Clone, Copy, Debug, PartialEq, Eq)]
pub struct Parsed {
    pub command: Result<Command, CommandError>,
    pub next: usize,
}

/// What follows a command on its line.
#[derive(Clone, Copy, Debug, PartialEq, Eq, Structural)]
pub enum Chain {
    /// Nothing.
    End,
    /// `&&`, and another command from this index on.
    Then(usize),
    /// The word at this index, which should not be there.
    Trailing(usize),
}

/// The bytes of each word of a line.
pub open spec fn texts(words: Seq<&str>) -> Seq<Seq<u8>> {
    Seq::new(words.len(), |i: int| bytes_of(words[i]))
}

/// The format that a word names.
pub open spec fn format_named(text: Seq<u8>) -> Option<WordFormat> {
    if text == bytes_of("hex") {
        Some(WordFormat::Hex)
    } else if text == bytes_of("bin") || text == bytes_of("binary") {
        Some(WordFormat::Binary)
    } else if text == bytes_of("dec") || text == bytes_of("decimal") {
        Some(WordFormat::Decimal)
    } else {
        None
    }
}

/// The format at index `at` of a line.
pub open spec fn format_at(words: Seq<Seq<u8>>, at: int) -> Result<WordFormat, CommandError> {
    if at >= words.len() {
        Err(CommandError::MissingFormat)
    } else {
        match format_named(words[at]) {
            Some(format) => Ok(format),
            None => Err(CommandError::UnknownFormat { word: at as usize }),
        }
    }
}

/// The byte that a word writes.
pub open spec fn byte_value(text: Seq<u8>) -> Option<u8> {
    match integer_value(text) {
        Some(value) => if value <= 255 {
            Some(value as u8)
        } else {
            None
        },
        None => None,
    }
}

/// The index of the first word at or after `from` that is no byte, or the
/// number of words.
pub open spec fn inline_end(words: Seq<Seq<u8>>, from: int) -> int
    decreases words.len() - from,
{
    if from < 0 || from >= words.len() {
        from
    } else if byte_value(words[from]) is None {
        from
    } else {
        inline_end(words, from + 1)
    }
}

/// Every word from `from` up to where the bytes of `inline` end is a byte.
pub proof fn lemma_inline_bytes(words: Seq<Seq<u8>>, from: int)
    requires
        0 <= from <= words.len(),
    ensures
        from <= inline_end(words, from) <= words.len(),
        forall|i: int| from <= i < inline_end(words, from) ==> byte_value(#[trigger] words[i]) is Some,
    decreases words.len() - from,
{
    if from < words.len() && byte_value(words[from]) is Some {
        lemma_inline_bytes(words, from + 1);
    }
}

/// The command that starts at index `from` of a line, and the index of the
/// first word after it.
pub open spec fn command_at(words: Seq<Seq<u8>>, from: int) -> Parsed {
    if from >= words.len() {
        Parsed { command: Ok(Command::Nothing), next: from as usize }
    } else {
        let word = words[from];
        let after = (from + 1) as usize;
        if word == bytes_of("help") {
            Parsed { command: Ok(Command::Help), next: after }
        } else if word == bytes_of("file") || word == bytes_of("load") {
            if from + 1 >= words.len() {
                Parsed { command: Err(CommandError::MissingFileName), next: after }
            } else {
                Parsed { command: Ok(Command::Load { name: after }), next: (from + 2) as usize }
            }
        } else if word == bytes_of("step") {
            if from + 1 >= words.len() {
                Parsed { command: Ok(Command::Step { amount: 1 }), next: after }
            } else {
                Parsed {
                    command: match integer_value(words[from + 1]) {
                        Some(amount) => Ok(Command::Step { amount }),
                        None => Err(CommandError::InvalidAmount { word: after }),
                    },
                    next: (from + 2) as usize,
                }
            }
        } else if word == bytes_of("inline") {
            let until = inline_end(words, from + 1);
            Parsed {
                command: Ok(
                    Command::Inline {
                        from: after,
                        until: until as usize,
                        stopped: if until >= words.len() {
                            None
                        } else if words[until] == bytes_of("&&") {
                            Some(InlineStop::Chained(until as usize))
                        } else {
                            Some(InlineStop::InvalidByte(until as usize))
                        },
                    },
                ),
                next: if until >= words.len() {
                    until as usize
                } else {
                    (until + 1) as usize
                },
            }
        } else if word == bytes_of("repeat") {
            if from + 1 >= words.len() {
                Parsed { command: Err(CommandError::MissingAmount), next: after }
            } else {
                match decimal_value(words[from + 1]) {
                    Some(amount) => Parsed {
                        command: Ok(Command::Repeat { amount, from: (from + 2) as usize }),
                        next: words.len() as usize,
                    },
                    None => Parsed {
                        command: Err(CommandError::InvalidAmount { word: after }),
                        next: (from + 2) as usize,
                    },
                }
            }
        } else if word == bytes_of("eval") {
            Parsed { command: Ok(Command::Eval), next: after }
        } else if word == bytes_of("registers") {
            match format_at(words, from + 1) {
                Ok(format) => Parsed {
                    command: Ok(Command::Registers { format }),
                    next: (from + 2) as usize,
                },
                Err(error) => Parsed { command: Err(error), next: after },
            }
        } else if word == bytes_of("memory") {
            match format_at(words, from + 1) {
                Err(error) => Parsed { command: Err(error), next: after },
                Ok(format) => if from + 2 >= words.len() || integer_value(words[from + 2])
                    is None {
                    Parsed { command: Err(CommandError::InvalidStart), next: (from + 2) as usize }
                } else if from + 3 >= words.len() || integer_value(words[from + 3]) is None {
                    Parsed { command: Err(CommandError::InvalidStop), next: (from + 3) as usize }
                } else {
                    let start = integer_value(words[from + 2]).unwrap();
                    let stop = integer_value(words[from + 3]).unwrap();
                    Parsed {
                        command: if start >= stop {
                            Err(CommandError::EmptyRange { start, stop })
                        } else {
                            Ok(Command::Memory { format, start, stop })
                        },
                        next: (from + 4) as usize,
                    }
                },
            }
        } else if word == bytes_of("exit") {
            Parsed { command: Ok(Command::Exit), next: after }
        } else {
            Parsed { command: Ok(Command::Unknown { word: from as usize }), next: after }
        }
    }
}

/// What follows a command that ends before index `next` of a line.
pub open spec fn chain_at(words: Seq<Seq<u8>>, next: int) -> Chain {
    if next >= words.len() {
        Chain::End
    } else if words[next] == bytes_of("&&") {
        Chain::Then((next + 1) as usize)
    } else {
        Chain::Trailing(next as usize)
    }
}

/// Names the format of a word.
pub fn word_format(word: &str) -> (format: Option<WordFormat>)
    ensures
        format == format_named(bytes_of(word)),
{
    let text = word.as_bytes();
    if spells(text, "hex") {
        Some(WordFormat::Hex)
    } else if spells(text, "bin") || spells(text, "binary") {
        Some(WordFormat::Binary)
    } else if spells(text, "dec") || spells(text, "decimal") {
        Some(WordFormat::Decimal)
    } else {
        None
    }
}

/// Reads a word as a byte.
pub fn parse_byte(word: &str) -> (byte: Option<u8>)
    ensures
        byte == byte_value(bytes_of(word)),
{
    match parse_integer(word) {
        Some(value) => if value <= 255 {
            Some(value as u8)
        } else {
            None
        },
        None => None,
    }
}

/// Reads the format at index `at` of a line.
fn read_format(words: &[&str], at: usize) -> (format: Result<WordFormat, CommandError>)
    ensures
        format == format_at(texts(words@), at as int),
{
    if at >= words.len() {
        Err(CommandError::MissingFormat)
    } else {
        match word_format(words[at]) {
            Some(format) => Ok(format),
            None => Err(CommandError::UnknownFormat { word: at }),
        }
    }
}

/// Reads the command that starts at index `from` of a line.
pub fn parse_command(words: &[&str], from: usize) -> (parsed: Parsed)
    requires
        words.len() < usize::MAX - 4,
        from <= words.len(),
    ensures
        parsed == command_at(texts(words@), from as int),
{
    if from >= words.len() {
        return Parsed { command: Ok(Command::Nothing), next: from };
    }
    let word = words[from].as_bytes();
    let after = from + 1;
    if spells(word, "help") {
        Parsed { command: Ok(Command::Help), next: after }
    } else if spells(word, "file") || spells(word, "load") {
        if after >= words.len() {
            Parsed { command: Err(CommandError::MissingFileName), next: after }
        } else {
            Parsed { command: Ok(Command::Load { name: after }), next: from + 2 }
        }
    } else if spells(word, "step") {
        if after >= words.len() {
            Parsed { command: Ok(Command::Step { amount: 1 }), next: after }
        } else {
            Parsed {
                command: match parse_integer(words[after]) {
                    Some(amount) => Ok(Command::Step { amount }),
                    None => Err(CommandError::InvalidAmount { word: after }),
                },
                next: from + 2,
            }
        }
    } else if spells(word, "inline") {
        let mut until = after;
        while until < words.len() && parse_byte(words[until]).is_some()
            invariant
                after <= until <= words.len(),
                inline_end(texts(words@), until as int) == inline_end(texts(words@), after as int),
            decreases words.len() - until,
        {
            until += 1;
        }
        if until >= words.len() {
            Parsed {
                command: Ok(Command::Inline { from: after, until, stopped: None }),
                next: until,
            }
        } else if spells(words[until].as_bytes(), "&&") {
            Parsed {
                command: Ok(
                    Command::Inline {
                        from: after,
                        until,
                        stopped: Some(InlineStop::Chained(until)),
                    },
                ),
                next: until + 1,
            }
        } else {
            Parsed {
                command: Ok(
                    Command::Inline {
                        from: after,
                        until,
                        stopped: Some(InlineStop::InvalidByte(until)),
                    },
                ),
                next: until + 1,
            }
        }
    } else if spells(word, "repeat") {
        if after >= words.len() {
            Parsed { command: Err(CommandError::MissingAmount), next: after }
        } else {
            match parse_decimal(words[after]) {
                Some(amount) => Parsed {
                    command: Ok(Command::Repeat { amount, from: from + 2 }),
                    next: words.len(),
                },
                None => Parsed {
                    command: Err(CommandError::InvalidAmount { word: after }),
                    next: from + 2,
                },
            }
        }
    } else if spells(word, "eval") {
        Parsed { command: Ok(Command::Eval), next: after }
    } else if spells(word, "registers") {
        match read_format(words, after) {
            Ok(format) => Parsed { command: Ok(Command::Registers { format }), next: from + 2 },
            Err(error) => Parsed { command: Err(error), next: after },
        }
    } else if spells(word, "memory") {
        let format = match read_format(words, after) {
            Ok(format) => format,
            Err(error) => { return Parsed { command: Err(error), next: after }; },
        };
        if from + 2 >= words.len() {
            return Parsed { command: Err(CommandError::InvalidStart), next: from + 2 };
        }
        let start = match parse_integer(words[from + 2]) {
            Some(start) => start,
            None => {
                return Parsed { command: Err(CommandError::InvalidStart), next: from + 2 };
            },
        };
        if from + 3 >= words.len() {
            return Parsed { command: Err(CommandError::InvalidStop), next: from + 3 };
        }
        let stop = match parse_integer(words[from + 3]) {
            Some(stop) => stop,
            None => { return Parsed { command: Err(CommandError::InvalidStop), next: from + 3 }; },
        };
        Parsed {
            command: if start >= stop {
                Err(CommandError::EmptyRange { start, stop })
            } else {
                Ok(Command::Memory { format, start, stop })
            },
            next: from + 4,
        }
    } else if spells(word, "exit") {
        Parsed { command: Ok(Command::Exit), next: after }
    } else {
        Parsed { command: Ok(Command::Unknown { word: from }), next: after }
    }
}

/// Says what follows a command that ends before index `next` of a line.
pub fn chain(words: &[&str], next: usize) -> (chain: Chain)
    requires
        words.len() < usize::MAX,
    ensures
        chain == chain_at(texts(words@), next as int),
{
    if next >= words.len() {
        Chain::End
    } else if spells(words[next].as_bytes(), "&&") {
        Chain::Then(next + 1)
    } else {
        Chain::Trailing(next)
    }
}

/// Reads the bytes of `inline`: the words from `from` up to `until`.
pub fn inline_bytes(words: &[&str], from: usize, until: usize) -> (bytes: Vec<u8>)
    requires
        from <= until <= words.len(),
        forall|i: int| from <= i < until ==> byte_value(#[trigger] texts(words@)[i]) is Some,
    ensures
        bytes@.len() == until - from,
        forall|i: int|
            0 <= i < bytes@.len() ==> Some(#[trigger] bytes@[i]) == byte_value(
                texts(words@)[from + i],
            ),
{
    let mut bytes: Vec<u8> = Vec::new();
    let mut index = from;
    while index < until
        invariant
            from <= index <= until <= words.len(),
            bytes@.len() == index - from,
            forall|i: int| from <= i < until ==> byte_value(#[trigger] texts(words@)[i]) is Some,
            forall|i: int|
                0 <= i < bytes@.len() ==> Some(#[trigger] bytes@[i]) == byte_value(
                    texts(words@)[from + i],
                ),
        decreases until - index,
    {
        assert(byte_value(texts(words@)[index as int]) is Some);
        match parse_byte(words[index]) {
            Some(byte) => bytes.push(byte),
            None => {},
        }
        index += 1;
    }
    bytes
}

} // verus!
