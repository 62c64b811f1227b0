//! The grammar of the assembly language, as functions from the source text
//! and a place in it to what is read there and the place after it.

use crate::encoding::{Register, Selector};
use crate::error::{Error, ErrorKind, Position};
use crate::instructions::{
    named, InstructionView, Item, NamedInstruction, Payload, PreprocessorCommandView, TargetView,
};
use crate::number::{escape_value, immediate_value};
use crate::text::{bytes_of, is_digit, is_letter, is_space, is_word_byte};
use vstd::prelude::*;

verus! {

/// The line of the byte at `cursor`, from 1: one more than the number of
/// line feeds before it.
pub open spec fn line_at(source: Seq<u8>, cursor: int) -> int
    decreases cursor,
{
    if cursor <= 0 {
        1
    } else if source[cursor - 1] == 0x0a {
        line_at(source, cursor - 1) + 1
    } else {
        line_at(source, cursor - 1)
    }
}

/// The column of the byte at `cursor`, from 1: one more than the number of
/// bytes between it and the line feed before it.
pub open spec fn column_at(source: Seq<u8>, cursor: int) -> int
    decreases cursor,
{
    if cursor <= 0 {
        1
    } else if source[cursor - 1] == 0x0a {
        1
    } else {
        column_at(source, cursor - 1) + 1
    }
}

/// The place of the byte at `cursor`.
pub open spec fn position_at(source: Seq<u8>, cursor: int) -> Position {
    Position {
        cursor: cursor as usize,
        line: line_at(source, cursor) as usize,
        character: column_at(source, cursor) as usize,
    }
}

/// An error about the bytes from `from` to `to`, both included.
pub open spec fn error_at(source: Seq<u8>, kind: ErrorKind, from: int, to: int) -> Error {
    Error { kind, from: position_at(source, from), to: position_at(source, to) }
}

/// An error about a literal that spans the bytes from `from` to `to`. An
/// error about its encoding points at its first byte only.
pub open spec fn literal_error(source: Seq<u8>, kind: ErrorKind, from: int, to: int) -> Error {
    if kind == ErrorKind::InvalidUtf8 {
        error_at(source, kind, from, from)
    } else {
        error_at(source, kind, from, to)
    }
}

/// How many bytes of white space stand at `cursor`.
pub open spec fn space_len(source: Seq<u8>, cursor: int) -> nat
    decreases source.len() - cursor,
{
    if 0 <= cursor < source.len() && is_space(source[cursor]) {
        1 + space_len(source, cursor + 1)
    } else {
        0
    }
}

/// The place after the white space at `cursor`.
pub open spec fn after_spaces(source: Seq<u8>, cursor: int) -> int {
    cursor + space_len(source, cursor)
}

/// How many bytes stand at `cursor` before the next line feed or the end.
pub open spec fn line_len(source: Seq<u8>, cursor: int) -> nat
    decreases source.len() - cursor,
{
    if 0 <= cursor < source.len() && source[cursor] != 0x0a {
        1 + line_len(source, cursor + 1)
    } else {
        0
    }
}

/// The place after the rest of the line at `cursor`: past its line feed, or
/// the end of the source.
pub open spec fn after_line(source: Seq<u8>, cursor: int) -> int {
    let end = cursor + line_len(source, cursor);
    if end < source.len() {
        end + 1
    } else {
        end
    }
}

/// How many bytes at `cursor` may continue a word.
pub open spec fn word_len(source: Seq<u8>, cursor: int) -> nat
    decreases source.len() - cursor,
{
    if 0 <= cursor < source.len() && is_word_byte(source[cursor]) {
        1 + word_len(source, cursor + 1)
    } else {
        0
    }
}

/// The place after the word at `cursor`. A word is the byte at `cursor`,
/// whatever it is, and every byte after it that may continue a word. At the
/// end of the source the word is empty.
pub open spec fn word_end(source: Seq<u8>, cursor: int) -> int {
    if cursor >= source.len() {
        cursor
    } else {
        cursor + 1 + word_len(source, cursor + 1)
    }
}

/// White space ends within the source.
pub proof fn lemma_space_bounds(source: Seq<u8>, cursor: int)
    requires
        0 <= cursor <= source.len(),
    ensures
        cursor <= after_spaces(source, cursor) <= source.len(),
        after_spaces(source, cursor) < source.len() ==> !is_space(
            source[after_spaces(source, cursor)],
        ),
    decreases source.len() - cursor,
{
    if cursor < source.len() && is_space(source[cursor]) {
        lemma_space_bounds(source, cursor + 1);
    }
}

/// A line ends within the source, after the place where it is entered
/// unless that is the end of the source.
pub proof fn lemma_line_bounds(source: Seq<u8>, cursor: int)
    requires
        0 <= cursor <= source.len(),
    ensures
        cursor <= cursor + line_len(source, cursor) <= source.len(),
        cursor <= after_line(source, cursor) <= source.len(),
        cursor < source.len() ==> cursor < after_line(source, cursor),
    decreases source.len() - cursor,
{
    if cursor < source.len() && source[cursor] != 0x0a {
        lemma_line_bounds(source, cursor + 1);
    }
}

/// A word ends within the source, after the place where it starts unless
/// that is the end of the source.
pub proof fn lemma_word_bounds(source: Seq<u8>, cursor: int)
    requires
        0 <= cursor <= source.len(),
    ensures
        cursor <= cursor + word_len(source, cursor) <= source.len(),
        cursor <= word_end(source, cursor) <= source.len(),
        cursor < source.len() ==> cursor < word_end(source, cursor),
    decreases source.len() - cursor,
{
    if cursor < source.len() {
        lemma_word_len_bounds(source, cursor + 1);
    }
}

/// The bytes that may continue a word end within the source.
pub proof fn lemma_word_len_bounds(source: Seq<u8>, cursor: int)
    requires
        0 <= cursor <= source.len(),
    ensures
        cursor + word_len(source, cursor) <= source.len(),
    decreases source.len() - cursor,
{
    if cursor < source.len() && is_word_byte(source[cursor]) {
        lemma_word_len_bounds(source, cursor + 1);
    }
}

/// The register that a word names.
pub open spec fn register_named(text: Seq<u8>) -> Option<Register> {
    if text == bytes_of("r0") {
        Some(Register::GeneralPurpose0)
    } else if text == bytes_of("r1") {
        Some(Register::GeneralPurpose1)
    } else if text == bytes_of("fl") {
        Some(Register::Flag)
    } else if text == bytes_of("pc") {
        Some(Register::ProgramCounter)
    } else {
        None
    }
}

/// Whether a byte starts a number: a digit, a sign, or the quote of a
/// character literal.
pub open spec fn starts_number(byte: u8) -> bool {
    is_digit(byte) || byte == 0x27 || byte == 0x2d || byte == 0x2b
}

/// What is read at a place, and the place after it.
pub struct Read<T> {
    pub value: Result<T, Error>,
    pub cursor: int,
}

/// The operand that a word writes: a register, a number, a name in the
/// scope of the latest label if it starts with a dot, else a name.
pub open spec fn target_of_word(source: Seq<u8>, from: int, end: int) -> Result<TargetView, Error> {
    let word = source.subrange(from, end);
    match register_named(word) {
        Some(register) => Ok(
            TargetView { selector: Selector::Register, payload: Payload::Register(register) },
        ),
        None => if starts_number(word[0]) {
            match immediate_value(word) {
                Ok(value) => Ok(
                    TargetView { selector: Selector::Immediate, payload: Payload::Literal(value) },
                ),
                Err(kind) => Err(literal_error(source, kind, from, end - 1)),
            }
        } else if word[0] == 0x2e {
            Ok(
                TargetView {
                    selector: Selector::Immediate,
                    payload: Payload::SubSymbol(word.skip(1)),
                },
            )
        } else {
            Ok(TargetView { selector: Selector::Immediate, payload: Payload::Symbol(word) })
        },
    }
}

/// A direct operand: white space, then a word.
pub open spec fn target_literal(source: Seq<u8>, cursor: int) -> Read<TargetView> {
    let from = after_spaces(source, cursor);
    if from >= source.len() {
        Read {
            value: Err(error_at(source, ErrorKind::UnexpectedEndOfInput, from, from)),
            cursor: from,
        }
    } else {
        Read {
            value: target_of_word(source, from, word_end(source, from)),
            cursor: word_end(source, from),
        }
    }
}

/// What an error about the byte at `cursor` leaves: the error, and the
/// place after the rest of the line.
pub open spec fn refuse<T>(source: Seq<u8>, kind: ErrorKind, cursor: int) -> Read<T> {
    Read { value: Err(error_at(source, kind, cursor, cursor)), cursor: after_line(source, cursor) }
}

/// The `]` that closes an operand, after any white space.
pub open spec fn closing_bracket(source: Seq<u8>, cursor: int) -> Read<()>
    decreases source.len() - cursor,
{
    if cursor < 0 || cursor >= source.len() {
        Read {
            value: Err(error_at(source, ErrorKind::UnexpectedEndOfInput, cursor, cursor)),
            cursor,
        }
    } else if source[cursor] == 0x5d {
        Read { value: Ok(()), cursor: cursor + 1 }
    } else if is_space(source[cursor]) {
        closing_bracket(source, cursor + 1)
    } else {
        refuse(source, ErrorKind::ExpectedClosingBracket(source[cursor]), cursor)
    }
}

/// An operand: white space, then a direct operand, or one between `[` and `]`.
pub open spec fn target(source: Seq<u8>, cursor: int) -> Read<TargetView> {
    let from = after_spaces(source, cursor);
    if from >= source.len() {
        Read {
            value: Err(error_at(source, ErrorKind::UnexpectedEndOfInput, from, from)),
            cursor: from,
        }
    } else if source[from] == 0x5b {
        let inner = target_literal(source, from + 1);
        match inner.value {
            Err(error) => Read { value: Err(error), cursor: inner.cursor },
            Ok(direct) => {
                let closed = closing_bracket(source, inner.cursor);
                match closed.value {
                    Err(error) => Read { value: Err(error), cursor: closed.cursor },
                    Ok(()) => Read { value: Ok(direct.indirect()), cursor: closed.cursor },
                }
            },
        }
    } else {
        target_literal(source, from)
    }
}

/// What is left of a line that should hold nothing more: white space, then
/// a comment, the line feed or the end of the source. The line feed is not
/// passed.
pub open spec fn end_of_line(source: Seq<u8>, cursor: int) -> Read<()>
    decreases source.len() - cursor,
{
    if cursor < 0 || cursor >= source.len() {
        Read { value: Ok(()), cursor }
    } else if source[cursor] == 0x0a {
        Read { value: Ok(()), cursor }
    } else if source[cursor] == 0x3b {
        Read { value: Ok(()), cursor: after_line(source, cursor) }
    } else if is_space(source[cursor]) {
        end_of_line(source, cursor + 1)
    } else {
        refuse(source, ErrorKind::ExpectedEndOfLine(source[cursor]), cursor)
    }
}

/// The comma between two operands, after any white space.
pub open spec fn comma(source: Seq<u8>, cursor: int) -> Read<()> {
    let at = after_spaces(source, cursor);
    if at >= source.len() {
        Read { value: Err(error_at(source, ErrorKind::UnexpectedEndOfInput, at, at)), cursor: at }
    } else if source[at] != 0x2c {
        refuse(source, ErrorKind::ExpectedComma(source[at]), at)
    } else {
        Read { value: Ok(()), cursor: at + 1 }
    }
}

/// The operands of an instruction, after its mnemonic.
pub open spec fn operands(source: Seq<u8>, mnemonic: NamedInstruction, cursor: int) -> Read<
    InstructionView,
> {
    if mnemonic.arity() == 0 {
        Read { value: Ok(InstructionView::ZeroOperand { opcode: mnemonic.opcode() }), cursor }
    } else if mnemonic.arity() == 1 {
        let only = target(source, cursor);
        match only.value {
            Err(error) => Read { value: Err(error), cursor: only.cursor },
            Ok(operand) => Read { value: Ok(mnemonic.with_one(operand)), cursor: only.cursor },
        }
    } else {
        let first = target(source, cursor);
        match first.value {
            Err(error) => Read { value: Err(error), cursor: first.cursor },
            Ok(destination) => {
                let between = comma(source, first.cursor);
                match between.value {
                    Err(error) => Read { value: Err(error), cursor: between.cursor },
                    Ok(()) => {
                        let second = target(source, after_spaces(source, between.cursor));
                        match second.value {
                            Err(error) => Read { value: Err(error), cursor: second.cursor },
                            Ok(origin) => Read {
                                value: Ok(mnemonic.with_two(destination, origin)),
                                cursor: second.cursor,
                            },
                        }
                    },
                }
            },
        }
    }
}

/// What is read, if nothing but a comment follows it on its line.
pub open spec fn on_its_line<T>(source: Seq<u8>, read: Read<T>) -> Read<T> {
    match read.value {
        Err(_) => read,
        Ok(_) => {
            let rest = end_of_line(source, read.cursor);
            match rest.value {
                Err(error) => Read { value: Err(error), cursor: rest.cursor },
                Ok(()) => Read { value: read.value, cursor: rest.cursor },
            }
        },
    }
}

/// An instruction, after its mnemonic: its operands, and nothing more on the line.
pub open spec fn instruction(source: Seq<u8>, mnemonic: NamedInstruction, cursor: int) -> Read<
    Item,
> {
    let read = on_its_line(source, operands(source, mnemonic, cursor));
    Read {
        value: match read.value {
            Ok(view) => Ok(Item::Instruction(view)),
            Err(error) => Err(error),
        },
        cursor: read.cursor,
    }
}

/// A label, after its name: the colon.
pub open spec fn label(source: Seq<u8>, name: Seq<u8>, sub: bool, cursor: int) -> Read<Item> {
    if cursor >= source.len() {
        Read {
            value: Err(error_at(source, ErrorKind::UnexpectedEndOfInput, cursor, cursor)),
            cursor,
        }
    } else if source[cursor] != 0x3a {
        refuse(source, ErrorKind::UnknownMnemonic(source[cursor]), cursor)
    } else {
        Read {
            value: Ok(
                if sub {
                    Item::SubLabel(name)
                } else {
                    Item::Label(name)
                },
            ),
            cursor: cursor + 1,
        }
    }
}

/// A literal: a word read as a number or a character literal.
pub open spec fn literal(source: Seq<u8>, cursor: int) -> Read<u32> {
    if cursor >= source.len() {
        Read {
            value: Err(error_at(source, ErrorKind::UnexpectedEndOfInput, cursor, cursor)),
            cursor,
        }
    } else {
        let end = word_end(source, cursor);
        Read {
            value: match immediate_value(source.subrange(cursor, end)) {
                Ok(value) => Ok(value),
                Err(kind) => Err(literal_error(source, kind, cursor, end - 1)),
            },
            cursor: end,
        }
    }
}

/// The bytes of `db` from `cursor` on, after the bytes in `bytes`: values
/// and strings, separated by white space or commas, up to the line feed.
/// The white space after the line feed is passed too.
pub open spec fn data_bytes(source: Seq<u8>, cursor: int, bytes: Seq<u8>) -> Read<Seq<u8>>
    decreases source.len() - cursor, 1int,
{
    if cursor < 0 || cursor >= source.len() {
        Read { value: Ok(bytes), cursor }
    } else if source[cursor] == 0x0a {
        Read { value: Ok(bytes), cursor: after_spaces(source, cursor) }
    } else if is_space(source[cursor]) || source[cursor] == 0x2c {
        data_bytes(source, cursor + 1, bytes)
    } else if source[cursor] == 0x22 {
        data_string(source, cursor, bytes)
    } else {
        let value = literal(source, cursor);
        match value.value {
            Err(error) => Read { value: Err(error), cursor: value.cursor },
            Ok(byte) => if byte > 255 {
                Read {
                    value: Err(
                        error_at(source, ErrorKind::ByteOutOfRange, cursor, value.cursor - 1),
                    ),
                    cursor: value.cursor,
                }
            } else {
                proof {
                    lemma_word_bounds(source, cursor);
                }
                data_bytes(source, word_end(source, cursor), bytes.push(byte as u8))
            },
        }
    }
}

/// The rest of a string of `db` after the byte at `cursor`, which is its
/// opening quote or one of its bytes, and what follows the string.
pub open spec fn data_string(source: Seq<u8>, cursor: int, bytes: Seq<u8>) -> Read<Seq<u8>>
    decreases source.len() - cursor, 0int,
{
    let next = cursor + 1;
    if cursor < 0 || next >= source.len() {
        refuse(source, ErrorKind::UnterminatedString, next)
    } else if source[next] == 0x0a {
        refuse(source, ErrorKind::UnterminatedString, next)
    } else if source[next] == 0x5c {
        let escaped = next + 1;
        if escaped >= source.len() {
            refuse(source, ErrorKind::UnterminatedString, escaped)
        } else {
            match escape_value(source[escaped]) {
                Err(kind) => Read {
                    value: Err(error_at(source, kind, escaped, escaped)),
                    cursor: escaped,
                },
                Ok(byte) => data_string(source, escaped, bytes.push(byte)),
            }
        }
    } else if source[next] == 0x22 {
        data_bytes(source, next + 1, bytes)
    } else {
        data_string(source, next, bytes.push(source[next]))
    }
}

/// The place after the byte that separates `db` or `dw` from what follows,
/// if there is one.
pub open spec fn separator(source: Seq<u8>, cursor: int) -> Read<()> {
    if cursor >= source.len() {
        Read {
            value: Err(error_at(source, ErrorKind::UnexpectedEndOfInput, cursor, cursor)),
            cursor,
        }
    } else {
        Read { value: Ok(()), cursor: cursor + 1 }
    }
}

/// `db`, after the word and one more byte.
pub open spec fn declare_bytes(source: Seq<u8>, cursor: int) -> Read<Item> {
    let read = data_bytes(source, cursor, Seq::empty());
    Read {
        value: match read.value {
            Ok(bytes) => Ok(Item::PreprocessorCommand(PreprocessorCommandView::DeclareBytes(bytes))),
            Err(error) => Err(error),
        },
        cursor: read.cursor,
    }
}

/// `dw`, after the word and one more byte: one literal, and nothing more
/// on the line.
pub open spec fn declare_word(source: Seq<u8>, cursor: int) -> Read<Item> {
    let read = on_its_line(source, literal(source, cursor));
    Read {
        value: match read.value {
            Ok(word) => Ok(Item::PreprocessorCommand(PreprocessorCommandView::DeclareWord(word))),
            Err(error) => Err(error),
        },
        cursor: read.cursor,
    }
}

/// What starts with a letter or a dot: an instruction, `db`, `dw`, or a label.
pub open spec fn directive_or_instruction(source: Seq<u8>, cursor: int) -> Read<Item> {
    let sub = source[cursor] == 0x2e;
    let from = if sub {
        cursor + 1
    } else {
        cursor
    };
    if from >= source.len() {
        Read {
            value: Err(error_at(source, ErrorKind::UnexpectedEndOfInput, from, from)),
            cursor: from,
        }
    } else {
        let end = word_end(source, from);
        let word = source.subrange(from, end);
        match named(word) {
            Some(mnemonic) => instruction(source, mnemonic, end),
            None => if word == bytes_of("db") {
                match separator(source, end).value {
                    Err(error) => Read { value: Err(error), cursor: end },
                    Ok(()) => declare_bytes(source, end + 1),
                }
            } else if word == bytes_of("dw") {
                match separator(source, end).value {
                    Err(error) => Read { value: Err(error), cursor: end },
                    Ok(()) => declare_word(source, end + 1),
                }
            } else {
                label(source, word, sub, end)
            },
        }
    }
}

/// The literal of a directive, after white space.
pub open spec fn spaced_literal(source: Seq<u8>, cursor: int) -> Read<u32> {
    literal(source, after_spaces(source, cursor))
}

/// The directive that a word after `%` names, with what follows it.
pub open spec fn directive(source: Seq<u8>, from: int, end: int) -> Read<PreprocessorCommandView> {
    let word = source.subrange(from, end);
    if word == bytes_of("offset_word") {
        let count = spaced_literal(source, end);
        match count.value {
            Err(error) => Read { value: Err(error), cursor: count.cursor },
            Ok(words) => if words * 4 > u32::MAX {
                Read {
                    value: Err(
                        error_at(
                            source,
                            ErrorKind::NumberOutOfRange,
                            after_spaces(source, end),
                            count.cursor - 1,
                        ),
                    ),
                    cursor: count.cursor,
                }
            } else {
                Read {
                    value: Ok(PreprocessorCommandView::Offset((words * 4) as u32)),
                    cursor: count.cursor,
                }
            },
        }
    } else if word == bytes_of("offset") {
        let count = spaced_literal(source, end);
        match count.value {
            Err(error) => Read { value: Err(error), cursor: count.cursor },
            Ok(bytes) => Read {
                value: Ok(PreprocessorCommandView::Offset(bytes)),
                cursor: count.cursor,
            },
        }
    } else if word == bytes_of("define") {
        let name_from = after_spaces(source, end);
        if name_from >= source.len() {
            Read {
                value: Err(
                    error_at(source, ErrorKind::UnexpectedEndOfInput, name_from, name_from),
                ),
                cursor: name_from,
            }
        } else {
            let name_end = word_end(source, name_from);
            let name = source.subrange(name_from, name_end);
            let value = spaced_literal(source, name_end);
            match value.value {
                Err(error) => Read { value: Err(error), cursor: value.cursor },
                Ok(word) => Read {
                    value: Ok(
                        if name[0] == 0x2e {
                            PreprocessorCommandView::DefineSub(name.skip(1), word)
                        } else {
                            PreprocessorCommandView::Define(name, word)
                        },
                    ),
                    cursor: value.cursor,
                },
            }
        }
    } else {
        Read {
            value: Err(error_at(source, ErrorKind::UnknownPreprocessorCommand, from, end - 1)),
            cursor: end,
        }
    }
}

/// A directive, from its `%` on, and nothing more on the line.
pub open spec fn preprocessor_command(source: Seq<u8>, cursor: int) -> Read<Item> {
    let from = cursor + 1;
    if from >= source.len() {
        Read {
            value: Err(error_at(source, ErrorKind::UnexpectedEndOfInput, from, from)),
            cursor: from,
        }
    } else {
        let read = on_its_line(source, directive(source, from, word_end(source, from)));
        Read {
            value: match read.value {
                Ok(command) => Ok(Item::PreprocessorCommand(command)),
                Err(error) => Err(error),
            },
            cursor: read.cursor,
        }
    }
}

/// How many bytes of white space and comments stand at `cursor`.
pub open spec fn trivia_len(source: Seq<u8>, cursor: int) -> nat
    decreases source.len() - cursor,
{
    if cursor < 0 || cursor >= source.len() {
        0
    } else if source[cursor] == 0x3b {
        let skipped = after_line(source, cursor) - cursor;
        proof {
            lemma_line_bounds(source, cursor);
        }
        (skipped + trivia_len(source, cursor + skipped)) as nat
    } else if is_space(source[cursor]) {
        1 + trivia_len(source, cursor + 1)
    } else {
        0
    }
}

/// The place after the white space and the comments at `cursor`.
pub open spec fn after_trivia(source: Seq<u8>, cursor: int) -> int {
    cursor + trivia_len(source, cursor)
}

/// White space and comments end within the source, before a byte that is
/// neither.
pub proof fn lemma_trivia_bounds(source: Seq<u8>, cursor: int)
    requires
        0 <= cursor <= source.len(),
    ensures
        cursor <= after_trivia(source, cursor) <= source.len(),
        after_trivia(source, cursor) < source.len() ==> !is_space(
            source[after_trivia(source, cursor)],
        ) && source[after_trivia(source, cursor)] != 0x3b,
        trivia_len(source, after_trivia(source, cursor)) == 0,
    decreases source.len() - cursor,
{
    if cursor < source.len() {
        if source[cursor] == 0x3b {
            lemma_line_bounds(source, cursor);
            lemma_trivia_bounds(source, after_line(source, cursor));
        } else if is_space(source[cursor]) {
            lemma_trivia_bounds(source, cursor + 1);
        }
    }
}

/// The next item of the source: after white space and comments, a
/// directive, an instruction, a label, or the end of the source.
#[verifier::opaque]
pub open spec fn single(source: Seq<u8>, cursor: int) -> Read<Item> {
    let from = after_trivia(source, cursor);
    if from >= source.len() {
        Read { value: Ok(Item::EOF), cursor: from }
    } else if source[from] == 0x25 {
        preprocessor_command(source, from)
    } else if is_letter(source[from]) || source[from] == 0x2e {
        directive_or_instruction(source, from)
    } else {
        Read {
            value: Err(
                error_at(source, ErrorKind::UnexpectedCharacter(source[from]), from, from),
            ),
            cursor: from + 1,
        }
    }
}

/// Every item from `cursor` on, each with the place where it begins, and
/// the end of the source after the last.
pub open spec fn all(source: Seq<u8>, cursor: int) -> Seq<(Result<Item, Error>, int)>
    decreases source.len() - cursor,
{
    if cursor < 0 || cursor >= source.len() {
        seq![(Ok(Item::EOF), cursor)]
    } else {
        let next = single(source, cursor);
        proof {
            lemma_single_advances(source, cursor);
        }
        seq![(next.value, after_trivia(source, cursor))] + all(source, next.cursor)
    }
}

/// The next item is the same from a place as from the place after the
/// white space and the comments there.
pub proof fn lemma_single_after_trivia(source: Seq<u8>, cursor: int)
    requires
        0 <= cursor <= source.len(),
    ensures
        single(source, after_trivia(source, cursor)) == single(source, cursor),
        after_trivia(source, after_trivia(source, cursor)) == after_trivia(source, cursor),
{
    reveal(single);
    lemma_trivia_bounds(source, cursor);
}

/// At the end of the source the next item is the end of the source.
pub proof fn lemma_single_at_end(source: Seq<u8>, cursor: int)
    requires
        cursor >= source.len(),
    ensures
        single(source, cursor) == (Read::<Item> { value: Ok(Item::EOF), cursor }),
{
    reveal(single);
}

/// Every item from a place on is the next item, then every item from the
/// place after it on.
pub proof fn lemma_all_unfolds(source: Seq<u8>, cursor: int)
    requires
        0 <= cursor < source.len(),
    ensures
        all(source, cursor) == seq![
            (single(source, cursor).value, after_trivia(source, cursor)),
        ] + all(source, single(source, cursor).cursor),
{
}

/// Whether what is read from a place ends at or after the place, within
/// the source.
pub open spec fn stays<T>(source: Seq<u8>, cursor: int, read: Read<T>) -> bool {
    cursor <= read.cursor <= source.len()
}

/// A direct operand ends within the source.
pub proof fn lemma_target_literal_stays(source: Seq<u8>, cursor: int)
    requires
        0 <= cursor <= source.len(),
    ensures
        stays(source, cursor, target_literal(source, cursor)),
{
    lemma_space_bounds(source, cursor);
    lemma_word_bounds(source, after_spaces(source, cursor));
}

/// The search for a closing bracket ends within the source.
pub proof fn lemma_closing_bracket_stays(source: Seq<u8>, cursor: int)
    requires
        0 <= cursor <= source.len(),
    ensures
        stays(source, cursor, closing_bracket(source, cursor)),
    decreases source.len() - cursor,
{
    lemma_line_bounds(source, cursor);
    if cursor < source.len() && source[cursor] != 0x5d && is_space(source[cursor]) {
        lemma_closing_bracket_stays(source, cursor + 1);
    }
}

/// An operand ends within the source.
pub proof fn lemma_target_stays(source: Seq<u8>, cursor: int)
    requires
        0 <= cursor <= source.len(),
    ensures
        stays(source, cursor, target(source, cursor)),
{
    lemma_space_bounds(source, cursor);
    let from = after_spaces(source, cursor);
    if from < source.len() {
        if source[from] == 0x5b {
            lemma_target_literal_stays(source, from + 1);
            lemma_closing_bracket_stays(source, target_literal(source, from + 1).cursor);
        } else {
            lemma_target_literal_stays(source, from);
        }
    }
}

/// The rest of a line ends within the source.
pub proof fn lemma_end_of_line_stays(source: Seq<u8>, cursor: int)
    requires
        0 <= cursor <= source.len(),
    ensures
        stays(source, cursor, end_of_line(source, cursor)),
    decreases source.len() - cursor,
{
    lemma_line_bounds(source, cursor);
    if cursor < source.len() && source[cursor] != 0x0a && source[cursor] != 0x3b && is_space(
        source[cursor],
    ) {
        lemma_end_of_line_stays(source, cursor + 1);
    }
}

/// What must stand alone on its line ends within the source.
pub proof fn lemma_on_its_line_stays<T>(source: Seq<u8>, cursor: int, read: Read<T>)
    requires
        0 <= cursor,
        stays(source, cursor, read),
    ensures
        stays(source, cursor, on_its_line(source, read)),
{
    lemma_end_of_line_stays(source, read.cursor);
}

/// The operands of an instruction end within the source.
pub proof fn lemma_operands_stay(source: Seq<u8>, mnemonic: NamedInstruction, cursor: int)
    requires
        0 <= cursor <= source.len(),
    ensures
        stays(source, cursor, operands(source, mnemonic, cursor)),
{
    lemma_target_stays(source, cursor);
    let first = target(source, cursor);
    lemma_space_bounds(source, first.cursor);
    lemma_line_bounds(source, after_spaces(source, first.cursor));
    let between = comma(source, first.cursor);
    lemma_space_bounds(source, between.cursor);
    lemma_target_stays(source, after_spaces(source, between.cursor));
}

/// A literal ends within the source, after the place where it starts
/// unless that is the end of the source.
pub proof fn lemma_literal_stays(source: Seq<u8>, cursor: int)
    requires
        0 <= cursor <= source.len(),
    ensures
        stays(source, cursor, literal(source, cursor)),
        cursor < source.len() ==> cursor < literal(source, cursor).cursor,
{
    lemma_word_bounds(source, cursor);
}

/// The bytes of `db` end within the source.
pub proof fn lemma_data_bytes_stay(source: Seq<u8>, cursor: int, bytes: Seq<u8>)
    requires
        0 <= cursor <= source.len(),
    ensures
        stays(source, cursor, data_bytes(source, cursor, bytes)),
    decreases source.len() - cursor, 1int,
{
    if cursor < source.len() {
        if source[cursor] == 0x0a {
            lemma_space_bounds(source, cursor);
        } else if is_space(source[cursor]) || source[cursor] == 0x2c {
            lemma_data_bytes_stay(source, cursor + 1, bytes);
        } else if source[cursor] == 0x22 {
            lemma_data_string_stays(source, cursor, bytes);
        } else {
            lemma_literal_stays(source, cursor);
            let value = literal(source, cursor);
            match value.value {
                Ok(byte) => if byte <= 255 {
                    lemma_data_bytes_stay(source, word_end(source, cursor), bytes.push(byte as u8));
                },
                Err(_) => {},
            }
        }
    }
}

/// A string of `db`, and what follows it, ends within the source.
pub proof fn lemma_data_string_stays(source: Seq<u8>, cursor: int, bytes: Seq<u8>)
    requires
        0 <= cursor < source.len(),
    ensures
        stays(source, cursor, data_string(source, cursor, bytes)),
    decreases source.len() - cursor, 0int,
{
    let next = cursor + 1;
    if next >= source.len() {
        lemma_line_bounds(source, source.len() as int);
    } else if source[next] == 0x0a {
        lemma_line_bounds(source, next);
    } else if source[next] == 0x5c {
        let escaped = next + 1;
        if escaped >= source.len() {
            lemma_line_bounds(source, source.len() as int);
        } else {
            match escape_value(source[escaped]) {
                Ok(byte) => lemma_data_string_stays(source, escaped, bytes.push(byte)),
                Err(_) => {},
            }
        }
    } else if source[next] == 0x22 {
        lemma_data_bytes_stay(source, next + 1, bytes);
    } else {
        lemma_data_string_stays(source, next, bytes.push(source[next]));
    }
}

/// What starts with a letter or a dot ends within the source, after the
/// place where it starts.
pub proof fn lemma_directive_or_instruction_stays(source: Seq<u8>, cursor: int)
    requires
        0 <= cursor < source.len(),
    ensures
        stays(source, cursor, directive_or_instruction(source, cursor)),
        cursor < directive_or_instruction(source, cursor).cursor,
{
    let sub = source[cursor] == 0x2e;
    let from = if sub {
        cursor + 1
    } else {
        cursor
    };
    if from < source.len() {
        lemma_word_bounds(source, from);
        let end = word_end(source, from);
        let word = source.subrange(from, end);
        match named(word) {
            Some(mnemonic) => {
                lemma_operands_stay(source, mnemonic, end);
                lemma_on_its_line_stays(source, end, operands(source, mnemonic, end));
            },
            None => {
                lemma_line_bounds(source, end);
                if end < source.len() {
                    lemma_data_bytes_stay(source, end + 1, Seq::empty());
                    lemma_literal_stays(source, end + 1);
                    lemma_on_its_line_stays(source, end + 1, literal(source, end + 1));
                }
            },
        }
    }
}

/// A directive ends within the source.
pub proof fn lemma_directive_stays(source: Seq<u8>, from: int, end: int)
    requires
        0 <= from <= end <= source.len(),
    ensures
        stays(source, end, directive(source, from, end)),
{
    lemma_space_bounds(source, end);
    lemma_literal_stays(source, after_spaces(source, end));
    let name_from = after_spaces(source, end);
    lemma_word_bounds(source, name_from);
    if name_from < source.len() {
        let name_end = word_end(source, name_from);
        lemma_space_bounds(source, name_end);
        lemma_literal_stays(source, after_spaces(source, name_end));
    }
}

/// The next item ends within the source, after the place where it is
/// looked for unless that is the end of the source: reading item after
/// item comes to the end of the source.
pub proof fn lemma_single_advances(source: Seq<u8>, cursor: int)
    requires
        0 <= cursor <= source.len(),
    ensures
        stays(source, cursor, single(source, cursor)),
        cursor < source.len() ==> cursor < single(source, cursor).cursor,
{
    reveal(single);
    lemma_trivia_bounds(source, cursor);
    let from = after_trivia(source, cursor);
    if from < source.len() {
        if source[from] == 0x25 {
            if from + 1 < source.len() {
                lemma_word_bounds(source, from + 1);
                let end = word_end(source, from + 1);
                lemma_directive_stays(source, from + 1, end);
                lemma_on_its_line_stays(source, end, directive(source, from + 1, end));
            }
        } else if is_letter(source[from]) || source[from] == 0x2e {
            lemma_directive_or_instruction_stays(source, from);
        }
    } else {
        assert(cursor < source.len() ==> trivia_len(source, cursor) > 0);
    }
}

} // verus!
