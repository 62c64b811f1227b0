//! The parser itself: a cursor over the source that keeps track of line and
//! column, and one function for each rule of the grammar.

use crate::encoding::Register;
use crate::error::{Error, ErrorKind, Position};
use crate::instructions::{
    instruction_from_text, Instruction, InstructionOrLabel, Item, NamedInstruction,
    PreprocessorCommand, Target,
};
use crate::number::{immediate_value, parse_escape, parse_immediate};
use crate::parser::grammar::{
    after_line, after_spaces, after_trivia, closing_bracket, column_at, comma, data_bytes,
    data_string, declare_bytes, declare_word, directive, directive_or_instruction, end_of_line,
    error_at, instruction, label, lemma_line_bounds, lemma_space_bounds, lemma_trivia_bounds,
    line_at, literal, operands, position_at, preprocessor_command, register_named, single,
    spaced_literal, starts_number, target, target_literal, word_end, word_len, Read,
};
use crate::text::{ascii_space, copy_range, spells, word_byte};
use vstd::prelude::*;

verus! {

/// A parser over a source text.
pub struct Parser<'a> {
    cursor: usize,
    character: usize,
    line: usize,
    /// The place of the byte before the cursor, once the cursor has moved.
    last: Position,
    inner: &'a [u8],
}

/// The model of a parser: the source and the place of the next byte.
pub struct Place {
    pub source: Seq<u8>,
    pub cursor: int,
}

impl<'a> View for Parser<'a> {
    type V = Place;

    closed spec fn view(&self) -> Place {
        Place { source: self.inner@, cursor: self.cursor as int }
    }
}

/// Lines and columns count from 1 and never pass the cursor by more than one.
pub proof fn lemma_position_bounds(source: Seq<u8>, cursor: int)
    requires
        0 <= cursor,
    ensures
        1 <= line_at(source, cursor) <= cursor + 1,
        1 <= column_at(source, cursor) <= cursor + 1,
    decreases cursor,
{
    if cursor > 0 {
        lemma_position_bounds(source, cursor - 1);
    }
}

/// Whether a parser has kept its source and not gone back in it.
pub open spec fn moved(before: Place, after: Place) -> bool {
    &&& after.source == before.source
    &&& before.cursor <= after.cursor <= before.source.len()
}

/// Whether a parser has gone forward, unless it stood at the end of its source.
pub open spec fn advanced(before: Place, after: Place) -> bool {
    before.cursor < before.source.len() ==> before.cursor < after.cursor
}

/// Whether a parser has done what the grammar reads: it stands where the
/// grammar stops, and hands back the value or the error of the grammar.
pub open spec fn reads<T: View>(
    before: Place,
    after: Place,
    result: Result<T, Error>,
    read: Read<T::V>,
) -> bool {
    &&& moved(before, after)
    &&& after.cursor == read.cursor
    &&& agrees(result, read.value)
}

/// Whether what a function of the parser hands back is what the grammar
/// reads: the same value, seen through its model, or the same error.
pub open spec fn agrees<T: View>(result: Result<T, Error>, expected: Result<T::V, Error>) -> bool {
    match expected {
        Ok(value) => match result {
            Ok(read) => read@ == value,
            Err(_) => false,
        },
        Err(error) => result == Err::<T, Error>(error),
    }
}

impl<'a> Parser<'a> {
    /// The cursor lies within the source, and line and column are those of
    /// the cursor.
    pub closed spec fn wf(&self) -> bool {
        &&& self.cursor <= self.inner.len()
        &&& self.inner.len() < usize::MAX
        &&& self.line == line_at(self.inner@, self.cursor as int)
        &&& self.character == column_at(self.inner@, self.cursor as int)
        &&& self.cursor > 0 ==> self.last == position_at(self.inner@, self.cursor - 1)
    }

    /// The cursor of a parser lies within its source.
    pub proof fn lemma_within(&self)
        requires
            self.wf(),
        ensures
            0 <= self@.cursor <= self@.source.len(),
    {
    }

    /// A parser at the start of `inner`.
    #[must_use]
    pub fn new(inner: &'a [u8]) -> (parser: Self)
        requires
            inner.len() < usize::MAX,
        ensures
            parser.wf(),
            parser@ == (Place { source: inner@, cursor: 0 }),
    {
        Self {
            inner,
            character: 1,
            line: 1,
            cursor: 0,
            last: Position { cursor: 0, line: 1, character: 1 },
        }
    }

    /// The byte at the cursor.
    pub fn current(&self) -> (byte: u8)
        requires
            self.wf(),
            self@.cursor < self@.source.len(),
        ensures
            byte == self@.source[self@.cursor],
    {
        self.inner[self.cursor]
    }

    /// Whether the cursor is at the end of the source.
    pub fn done(&self) -> (done: bool)
        requires
            self.wf(),
        ensures
            done == (self@.cursor >= self@.source.len()),
            0 <= self@.cursor <= self@.source.len(),
    {
        self.cursor >= self.inner.len()
    }

    /// Moves the cursor to the next byte.
    pub fn step(&mut self)
        requires
            old(self).wf(),
            old(self)@.cursor < old(self)@.source.len(),
        ensures
            final(self).wf(),
            final(self)@ == (Place { cursor: old(self)@.cursor + 1, ..old(self)@ }),
    {
        proof {
            lemma_position_bounds(self.inner@, self.cursor as int);
        }
        let here = self.position();
        let byte = self.current();
        self.last = here;
        if byte == 0x0a {
            self.line += 1;
            self.character = 1;
        } else {
            self.character += 1;
        }
        self.cursor += 1;
    }

    /// The byte offset of the cursor.
    pub fn offset(&self) -> (offset: usize)
        requires
            self.wf(),
        ensures
            offset == self@.cursor,
    {
        self.cursor
    }

    /// The place of the cursor.
    pub fn position(&self) -> (position: Position)
        requires
            self.wf(),
        ensures
            position == position_at(self@.source, self@.cursor),
    {
        Position { cursor: self.cursor, line: self.line, character: self.character }
    }

    /// The place of the byte before the cursor.
    pub fn previous(&self) -> (position: Position)
        requires
            self.wf(),
            self@.cursor > 0,
        ensures
            position == position_at(self@.source, self@.cursor - 1),
    {
        self.last
    }

    /// Moves past white space.
    fn skip_whitespace(&mut self)
        requires
            old(self).wf(),
        ensures
            final(self).wf(),
            final(self)@ == (Place {
                cursor: after_spaces(old(self)@.source, old(self)@.cursor),
                ..old(self)@
            }),
            old(self)@.cursor <= final(self)@.cursor <= old(self)@.source.len(),
            final(self)@.cursor < old(self)@.source.len() ==> !crate::text::is_space(
                old(self)@.source[final(self)@.cursor],
            ),
    {
        loop
            invariant
                self.wf(),
                self@.source == old(self)@.source,
                old(self)@.cursor <= self@.cursor <= self@.source.len(),
                after_spaces(self@.source, self@.cursor) == after_spaces(
                    old(self)@.source,
                    old(self)@.cursor,
                ),
            ensures
                self@.cursor == after_spaces(old(self)@.source, old(self)@.cursor),
                self@.cursor < old(self)@.source.len() ==> !crate::text::is_space(
                    old(self)@.source[self@.cursor],
                ),
            decreases self@.source.len() - self@.cursor,
        {
            if self.done() || !ascii_space(self.current()) {
                break ;
            }
            self.step();
        }
    }

    /// Moves past the rest of the line and its line feed.
    fn skip_line(&mut self)
        requires
            old(self).wf(),
        ensures
            final(self).wf(),
            final(self)@ == (Place {
                cursor: after_line(old(self)@.source, old(self)@.cursor),
                ..old(self)@
            }),
            moved(old(self)@, final(self)@),
            advanced(old(self)@, final(self)@),
    {
        proof {
            lemma_line_bounds(self@.source, self@.cursor);
        }
        loop
            invariant_except_break
                after_line(self@.source, self@.cursor) == after_line(
                    old(self)@.source,
                    old(self)@.cursor,
                ),
            invariant
                self.wf(),
                self@.source == old(self)@.source,
                old(self)@.cursor <= self@.cursor <= self@.source.len(),
            ensures
                self@.cursor == after_line(old(self)@.source, old(self)@.cursor),
            decreases self@.source.len() - self@.cursor,
        {
            if self.done() {
                break ;
            }
            if self.current() == 0x0a {
                self.step();
                break ;
            }
            self.step();
        }
    }

    /// Takes a word: the byte at the cursor, and every byte after it that
    /// may continue a word. Hands back the word, the place of its first
    /// byte and the place of its last.
    fn take_id(&mut self) -> (word: (&'a [u8], Position, Position))
        requires
            old(self).wf(),
            old(self)@.cursor < old(self)@.source.len(),
        ensures
            final(self).wf(),
            final(self)@ == (Place {
                cursor: word_end(old(self)@.source, old(self)@.cursor),
                ..old(self)@
            }),
            old(self)@.cursor < final(self)@.cursor <= old(self)@.source.len(),
            word.0@ == old(self)@.source.subrange(old(self)@.cursor, final(self)@.cursor),
            word.1 == position_at(old(self)@.source, old(self)@.cursor),
            word.2 == position_at(old(self)@.source, final(self)@.cursor - 1),
    {
        let word_start = self.position();
        let mut word_end = self.position();
        let inner: &'a [u8] = self.inner;
        self.step();
        loop
            invariant
                self.wf(),
                inner == self.inner,
                self@.source == old(self)@.source,
                old(self)@.cursor < self@.cursor <= self@.source.len(),
                self@.cursor + word_len(self@.source, self@.cursor) == crate::parser::grammar::word_end(
                    old(self)@.source,
                    old(self)@.cursor,
                ),
                word_end == position_at(self@.source, self@.cursor - 1),
            ensures
                self@.cursor == crate::parser::grammar::word_end(
                    old(self)@.source,
                    old(self)@.cursor,
                ),
            decreases self@.source.len() - self@.cursor,
        {
            if self.done() || !word_byte(self.current()) {
                break ;
            }
            word_end = self.position();
            self.step();
        }
        (
            vstd::slice::slice_subrange(inner, word_start.cursor, self.cursor),
            word_start,
            word_end,
        )
    }

    /// An error about the byte at the cursor. The rest of the line is passed.
    fn invalid_character_error(&mut self, kind: ErrorKind) -> (error: Error)
        requires
            old(self).wf(),
        ensures
            final(self).wf(),
            final(self)@ == (Place {
                cursor: after_line(old(self)@.source, old(self)@.cursor),
                ..old(self)@
            }),
            moved(old(self)@, final(self)@),
            advanced(old(self)@, final(self)@),
            error == error_at(old(self)@.source, kind, old(self)@.cursor, old(self)@.cursor),
    {
        let from = self.position();
        let to = self.position();
        self.skip_line();
        Error { kind, from, to }
    }

    /// The register that a word names.
    fn register_from_text(value: &[u8]) -> (register: Option<Register>)
        ensures
            register == register_named(value@),
    {
        if spells(value, "r0") {
            Some(Register::GeneralPurpose0)
        } else if spells(value, "r1") {
            Some(Register::GeneralPurpose1)
        } else if spells(value, "fl") {
            Some(Register::Flag)
        } else if spells(value, "pc") {
            Some(Register::ProgramCounter)
        } else {
            None
        }
    }

    /// Reads a word as a literal. An error spans the word from `from` to `to`.
    fn immediate_from_text(text: &[u8], from: Position, to: Position) -> (value: Result<
        u32,
        Error,
    >)
        ensures
            value == match immediate_value(text@) {
                Ok(word) => Ok::<u32, Error>(word),
                Err(kind) => Err::<u32, Error>(
                    if kind == ErrorKind::InvalidUtf8 {
                        Error { kind, from, to: from }
                    } else {
                        Error { kind, from, to }
                    },
                ),
            },
    {
        match parse_immediate(text) {
            Ok(word) => Ok(word),
            Err(kind) => match kind {
                ErrorKind::InvalidUtf8 => Err(Error { kind, from, to: from }),
                _ => Err(Error { kind, from, to }),
            },
        }
    }

    /// The byte that an escape stands for. An error spans `from` to `to`.
    fn escaped_char_to_value(char: u8, from: Position, to: Position) -> (value: Result<u8, Error>)
        ensures
            value == match crate::number::escape_value(char) {
                Ok(byte) => Ok::<u8, Error>(byte),
                Err(kind) => Err::<u8, Error>(Error { kind, from, to }),
            },
    {
        match parse_escape(char) {
            Ok(byte) => Ok(byte),
            Err(kind) => Err(Error { kind, from, to }),
        }
    }

    /// Reads a word as an operand.
    fn target_from_word(word: &[u8], from: Position, to: Position) -> (target: Result<
        Target,
        Error,
    >)
        requires
            word@.len() > 0,
        ensures
            match register_named(word@) {
                Some(register) => target == Ok::<Target, Error>(Target::Register(register)),
                None => if starts_number(word@[0]) {
                    match immediate_value(word@) {
                        Ok(value) => target == Ok::<Target, Error>(Target::Immediate(value)),
                        Err(kind) => target == Err::<Target, Error>(
                            if kind == ErrorKind::InvalidUtf8 {
                                Error { kind, from, to: from }
                            } else {
                                Error { kind, from, to }
                            },
                        ),
                    }
                } else if word@[0] == 0x2e {
                    target matches Ok(Target::SubConstant(name)) && name@ == word@.skip(1)
                } else {
                    target matches Ok(Target::Constant(name)) && name@ == word@
                },
            },
    {
        if let Some(register) = Self::register_from_text(word) {
            Ok(Target::Register(register))
        } else if crate::text::ascii_digit(word[0]) || word[0] == 0x27 || word[0] == 0x2d || word[0]
            == 0x2b {
            match Self::immediate_from_text(word, from, to) {
                Ok(immediate) => Ok(Target::Immediate(immediate)),
                Err(error) => Err(error),
            }
        } else if word[0] == 0x2e {
            let name = copy_range(word, 1, word.len());
            assert(name@ =~= word@.skip(1));
            Ok(Target::SubConstant(name))
        } else {
            let name = copy_range(word, 0, word.len());
            assert(name@ =~= word@);
            Ok(Target::Constant(name))
        }
    }

    /// Reads a direct operand: white space, then a register, a number or a name.
    fn parse_target_literal(&mut self) -> (target: Result<Target, Error>)
        requires
            old(self).wf(),
        ensures
            final(self).wf(),
            reads(
                old(self)@,
                final(self)@,
                target,
                target_literal(old(self)@.source, old(self)@.cursor),
            ),
    {
        self.skip_whitespace();
        if self.done() {
            let here = self.position();
            return Err(Error { kind: ErrorKind::UnexpectedEndOfInput, from: here, to: here });
        }
        let (word, from, to) = self.take_id();
        Self::target_from_word(word, from, to)
    }

    /// Reads the `]` that closes an operand.
    fn parse_closing_bracket(&mut self) -> (closed: Result<(), Error>)
        requires
            old(self).wf(),
        ensures
            final(self).wf(),
            reads(
                old(self)@,
                final(self)@,
                closed,
                closing_bracket(old(self)@.source, old(self)@.cursor),
            ),
    {
        loop
            invariant
                self.wf(),
                moved(old(self)@, self@),
                closing_bracket(self@.source, self@.cursor) == closing_bracket(
                    old(self)@.source,
                    old(self)@.cursor,
                ),
            decreases self@.source.len() - self@.cursor,
        {
            if self.done() {
                let here = self.position();
                return Err(Error { kind: ErrorKind::UnexpectedEndOfInput, from: here, to: here });
            }
            let current = self.current();
            if current == 0x5d {
                self.step();
                return Ok(());
            } else if ascii_space(current) {
                self.step();
            } else {
                return Err(
                    self.invalid_character_error(ErrorKind::ExpectedClosingBracket(current)),
                );
            }
        }
    }

    /// Reads an operand: a direct one, or one between `[` and `]`.
    pub fn parse_target(&mut self) -> (target: Result<Target, Error>)
        requires
            old(self).wf(),
        ensures
            final(self).wf(),
            reads(
                old(self)@,
                final(self)@,
                target,
                crate::parser::grammar::target(old(self)@.source, old(self)@.cursor),
            ),
    {
        self.skip_whitespace();
        if self.done() {
            let here = self.position();
            return Err(Error { kind: ErrorKind::UnexpectedEndOfInput, from: here, to: here });
        }
        proof {
            lemma_space_bounds(self@.source, self@.cursor);
            assert(after_spaces(self@.source, self@.cursor) == self@.cursor);
        }
        if self.current() == 0x5b {
            self.step();
            let target = match self.parse_target_literal() {
                Ok(target) => target,
                Err(error) => { return Err(error); },
            };
            match self.parse_closing_bracket() {
                Ok(()) => {},
                Err(error) => { return Err(error); },
            }
            Ok(target.into_address())
        } else {
            self.parse_target_literal()
        }
    }

    /// Reads what is left of a line that should hold nothing more.
    #[must_use]
    fn ensure_no_dangling_arguments(&mut self) -> (rest: Result<(), Error>)
        requires
            old(self).wf(),
        ensures
            final(self).wf(),
            reads(old(self)@, final(self)@, rest, end_of_line(old(self)@.source, old(self)@.cursor)),
    {
        loop
            invariant
                self.wf(),
                moved(old(self)@, self@),
                end_of_line(self@.source, self@.cursor) == end_of_line(
                    old(self)@.source,
                    old(self)@.cursor,
                ),
            decreases self@.source.len() - self@.cursor,
        {
            if self.done() {
                return Ok(());
            }
            let current = self.current();
            if current == 0x0a {
                return Ok(());
            } else if current == 0x3b {
                self.skip_line();
                return Ok(());
            } else if ascii_space(current) {
                self.step();
            } else {
                return Err(self.invalid_character_error(ErrorKind::ExpectedEndOfLine(current)));
            }
        }
    }

    /// Reads the comma between two operands.
    fn parse_comma(&mut self) -> (read: Result<(), Error>)
        requires
            old(self).wf(),
        ensures
            final(self).wf(),
            reads(old(self)@, final(self)@, read, comma(old(self)@.source, old(self)@.cursor)),
    {
        self.skip_whitespace();
        if self.done() {
            let here = self.position();
            return Err(Error { kind: ErrorKind::UnexpectedEndOfInput, from: here, to: here });
        }
        let current = self.current();
        if current != 0x2c {
            return Err(self.invalid_character_error(ErrorKind::ExpectedComma(current)));
        }
        self.step();
        Ok(())
    }

    /// Reads the operands of an instruction.
    fn parse_operands(&mut self, instruction: &NamedInstruction) -> (read: Result<
        Instruction,
        Error,
    >)
        requires
            old(self).wf(),
        ensures
            final(self).wf(),
            reads(
                old(self)@,
                final(self)@,
                read,
                operands(old(self)@.source, *instruction, old(self)@.cursor),
            ),
    {
        let count = instruction.operand_count();
        if count == 0 {
            Ok(instruction.alone())
        } else if count == 1 {
            match self.parse_target() {
                Ok(target) => Ok(instruction.one(target)),
                Err(error) => Err(error),
            }
        } else {
            let target_0 = match self.parse_target() {
                Ok(target) => target,
                Err(error) => { return Err(error); },
            };
            match self.parse_comma() {
                Ok(()) => {},
                Err(error) => { return Err(error); },
            }
            self.skip_whitespace();
            let target_1 = match self.parse_target() {
                Ok(target) => target,
                Err(error) => { return Err(error); },
            };
            Ok(instruction.two(target_0, target_1))
        }
    }

    /// Reads an instruction after its mnemonic: its operands, and nothing
    /// more on the line.
    fn parse_instruction(&mut self, instruction: &NamedInstruction) -> (read: Result<
        InstructionOrLabel,
        Error,
    >)
        requires
            old(self).wf(),
        ensures
            final(self).wf(),
            reads(
                old(self)@,
                final(self)@,
                read,
                crate::parser::grammar::instruction(
                    old(self)@.source,
                    *instruction,
                    old(self)@.cursor,
                ),
            ),
    {
        let instruction = match self.parse_operands(instruction) {
            Ok(instruction) => instruction,
            Err(error) => { return Err(error); },
        };
        match self.ensure_no_dangling_arguments() {
            Ok(()) => {},
            Err(error) => { return Err(error); },
        }
        Ok(InstructionOrLabel::Instruction(instruction))
    }

    /// Reads the colon after the name of a label.
    fn parse_label(&mut self, text: &[u8], sub: bool) -> (read: Result<InstructionOrLabel, Error>)
        requires
            old(self).wf(),
        ensures
            final(self).wf(),
            reads(
                old(self)@,
                final(self)@,
                read,
                label(old(self)@.source, text@, sub, old(self)@.cursor),
            ),
    {
        if self.done() {
            let here = self.position();
            return Err(Error { kind: ErrorKind::UnexpectedEndOfInput, from: here, to: here });
        }
        let current = self.current();
        if current != 0x3a {
            return Err(self.invalid_character_error(ErrorKind::UnknownMnemonic(current)));
        }
        self.step();
        let name = copy_range(text, 0, text.len());
        assert(name@ =~= text@);
        if sub {
            Ok(InstructionOrLabel::SubLabel(name))
        } else {
            Ok(InstructionOrLabel::Label(name))
        }
    }

    /// Reads a literal: a word that is a number or a character literal.
    fn parse_literal(&mut self) -> (read: Result<u32, Error>)
        requires
            old(self).wf(),
        ensures
            final(self).wf(),
            reads(old(self)@, final(self)@, read, literal(old(self)@.source, old(self)@.cursor)),
    {
        if self.done() {
            let here = self.position();
            return Err(Error { kind: ErrorKind::UnexpectedEndOfInput, from: here, to: here });
        }
        let (text, from, to) = self.take_id();
        Self::immediate_from_text(text, from, to)
    }

    /// Reads the values of `db`: numbers and strings, separated by white
    /// space or commas, up to the end of the line.
    fn parse_db(&mut self) -> (read: Result<InstructionOrLabel, Error>)
        requires
            old(self).wf(),
        ensures
            final(self).wf(),
            reads(old(self)@, final(self)@, read, declare_bytes(old(self)@.source, old(self)@.cursor)),
    {
        let mut bytes: Vec<u8> = Vec::new();
        let mut in_string = false;
        let ghost start = self@;
        loop
            invariant_except_break
                in_string ==> self@.cursor < self@.source.len(),
                data_bytes(start.source, start.cursor, Seq::empty()) == (if in_string {
                    data_string(self@.source, self@.cursor, bytes@)
                } else {
                    data_bytes(self@.source, self@.cursor, bytes@)
                }),
            invariant
                self.wf(),
                start == old(self)@,
                moved(start, self@),
            ensures
                data_bytes(start.source, start.cursor, Seq::empty()) == (Read::<Seq<u8>> {
                    value: Ok(bytes@),
                    cursor: self@.cursor,
                }),
            decreases
                    self@.source.len() - self@.cursor,
                    (if in_string {
                        0int
                    } else {
                        1int
                    }),
        {
            if in_string {
                self.step();
                if self.done() {
                    return Err(self.invalid_character_error(ErrorKind::UnterminatedString));
                }
                let current = self.current();
                if current == 0x0a {
                    return Err(self.invalid_character_error(ErrorKind::UnterminatedString));
                } else if current == 0x5c {
                    self.step();
                    if self.done() {
                        return Err(self.invalid_character_error(ErrorKind::UnterminatedString));
                    }
                    let from = self.position();
                    let to = self.position();
                    match Self::escaped_char_to_value(self.current(), from, to) {
                        Ok(byte) => bytes.push(byte),
                        Err(error) => { return Err(error); },
                    }
                } else if current == 0x22 {
                    self.step();
                    in_string = false;
                } else {
                    bytes.push(current);
                }
            } else {
                if self.done() {
                    break ;
                }
                let current = self.current();
                if current == 0x0a {
                    self.skip_whitespace();
                    break ;
                } else if ascii_space(current) || current == 0x2c {
                    self.step();
                } else if current == 0x22 {
                    in_string = true;
                } else {
                    let (text, from, to) = self.take_id();
                    let value = match Self::immediate_from_text(text, from, to) {
                        Ok(value) => value,
                        Err(error) => { return Err(error); },
                    };
                    if value > 255 {
                        return Err(Error { from, to, kind: ErrorKind::ByteOutOfRange });
                    }
                    bytes.push(value as u8);
                }
            }
        }
        Ok(InstructionOrLabel::PreprocessorCommand(PreprocessorCommand::DeclareBytes(bytes)))
    }

    /// Reads the value of `dw`: one literal, and nothing more on the line.
    fn parse_dw(&mut self) -> (read: Result<InstructionOrLabel, Error>)
        requires
            old(self).wf(),
        ensures
            final(self).wf(),
            reads(old(self)@, final(self)@, read, declare_word(old(self)@.source, old(self)@.cursor)),
    {
        let word = match self.parse_literal() {
            Ok(word) => word,
            Err(error) => { return Err(error); },
        };
        match self.ensure_no_dangling_arguments() {
            Ok(()) => {},
            Err(error) => { return Err(error); },
        }
        Ok(InstructionOrLabel::PreprocessorCommand(PreprocessorCommand::DeclareWord(word)))
    }

    /// Reads what starts with a letter or a dot: an instruction, `db`, `dw`
    /// or a label.
    fn parse_directive_or_instruction(&mut self) -> (read: Result<InstructionOrLabel, Error>)
        requires
            old(self).wf(),
            old(self)@.cursor < old(self)@.source.len(),
        ensures
            final(self).wf(),
            reads(
                old(self)@,
                final(self)@,
                read,
                directive_or_instruction(old(self)@.source, old(self)@.cursor),
            ),
            old(self)@.cursor < final(self)@.cursor,
    {
        let sub = self.current() == 0x2e;
        if sub {
            self.step();
        }
        if self.done() {
            let here = self.position();
            return Err(Error { kind: ErrorKind::UnexpectedEndOfInput, from: here, to: here });
        }
        let (id, _, _) = self.take_id();
        match instruction_from_text(id) {
            Some(instruction) => self.parse_instruction(&instruction),
            None => {
                if spells(id, "db") {
                    if self.done() {
                        let here = self.position();
                        return Err(
                            Error { kind: ErrorKind::UnexpectedEndOfInput, from: here, to: here },
                        );
                    }
                    self.step();
                    self.parse_db()
                } else if spells(id, "dw") {
                    if self.done() {
                        let here = self.position();
                        return Err(
                            Error { kind: ErrorKind::UnexpectedEndOfInput, from: here, to: here },
                        );
                    }
                    self.step();
                    self.parse_dw()
                } else {
                    self.parse_label(id, sub)
                }
            },
        }
    }

    /// Reads the literal of a directive, after white space.
    fn parse_spaced_literal(&mut self) -> (read: Result<u32, Error>)
        requires
            old(self).wf(),
        ensures
            final(self).wf(),
            reads(
                old(self)@,
                final(self)@,
                read,
                spaced_literal(old(self)@.source, old(self)@.cursor),
            ),
    {
        self.skip_whitespace();
        self.parse_literal()
    }

    /// Reads what follows the name of a directive.
    fn parse_directive(&mut self, id: &[u8], from: Position, to: Position) -> (read: Result<
        PreprocessorCommand,
        Error,
    >)
        requires
            old(self).wf(),
            0 < id@.len() <= old(self)@.cursor,
            id@ == old(self)@.source.subrange(old(self)@.cursor - id@.len(), old(self)@.cursor),
            from == position_at(old(self)@.source, old(self)@.cursor - id@.len()),
            to == position_at(old(self)@.source, old(self)@.cursor - 1),
        ensures
            final(self).wf(),
            reads(
                old(self)@,
                final(self)@,
                read,
                directive(old(self)@.source, old(self)@.cursor - id@.len(), old(self)@.cursor),
            ),
    {
        if spells(id, "offset_word") {
            self.skip_whitespace();
            if self.done() {
                let here = self.position();
                return Err(Error { kind: ErrorKind::UnexpectedEndOfInput, from: here, to: here });
            }
            let (text, from, to) = self.take_id();
            let offset = match Self::immediate_from_text(text, from, to) {
                Ok(offset) => offset,
                Err(error) => { return Err(error); },
            };
            if offset > 0x3fff_ffff {
                return Err(Error { kind: ErrorKind::NumberOutOfRange, from, to });
            }
            Ok(PreprocessorCommand::Offset(offset * 4))
        } else if spells(id, "offset") {
            match self.parse_spaced_literal() {
                Ok(offset) => Ok(PreprocessorCommand::Offset(offset)),
                Err(error) => Err(error),
            }
        } else if spells(id, "define") {
            self.skip_whitespace();
            if self.done() {
                let here = self.position();
                return Err(Error { kind: ErrorKind::UnexpectedEndOfInput, from: here, to: here });
            }
            let (name, _, _) = self.take_id();
            let value = match self.parse_spaced_literal() {
                Ok(value) => value,
                Err(error) => { return Err(error); },
            };
            if name[0] == 0x2e {
                let key = copy_range(name, 1, name.len());
                assert(key@ =~= name@.skip(1));
                Ok(PreprocessorCommand::DefineSub(key, value))
            } else {
                let key = copy_range(name, 0, name.len());
                assert(key@ =~= name@);
                Ok(PreprocessorCommand::Define(key, value))
            }
        } else {
            Err(Error { from, to, kind: ErrorKind::UnknownPreprocessorCommand })
        }
    }

    /// Reads a directive from its `%` on, and nothing more on the line.
    fn parse_preprocessor_command(&mut self) -> (read: Result<InstructionOrLabel, Error>)
        requires
            old(self).wf(),
            old(self)@.cursor < old(self)@.source.len(),
        ensures
            final(self).wf(),
            reads(
                old(self)@,
                final(self)@,
                read,
                preprocessor_command(old(self)@.source, old(self)@.cursor),
            ),
            old(self)@.cursor < final(self)@.cursor,
    {
        self.step();
        if self.done() {
            let here = self.position();
            return Err(Error { kind: ErrorKind::UnexpectedEndOfInput, from: here, to: here });
        }
        let (id, from, to) = self.take_id();
        let command = match self.parse_directive(id, from, to) {
            Ok(command) => command,
            Err(error) => { return Err(error); },
        };
        match self.ensure_no_dangling_arguments() {
            Ok(()) => {},
            Err(error) => { return Err(error); },
        }
        Ok(InstructionOrLabel::PreprocessorCommand(command))
    }

    /// Moves past white space and comments.
    pub fn skip_trivia(&mut self)
        requires
            old(self).wf(),
        ensures
            final(self).wf(),
            moved(old(self)@, final(self)@),
            final(self)@.cursor == after_trivia(old(self)@.source, old(self)@.cursor),
    {
        proof {
            lemma_trivia_bounds(self@.source, self@.cursor);
        }
        loop
            invariant
                self.wf(),
                moved(old(self)@, self@),
                after_trivia(self@.source, self@.cursor) == after_trivia(
                    old(self)@.source,
                    old(self)@.cursor,
                ),
            ensures
                self@.cursor == after_trivia(old(self)@.source, old(self)@.cursor),
            decreases self@.source.len() - self@.cursor,
        {
            if self.done() {
                break ;
            }
            let current = self.current();
            if current == 0x3b {
                self.skip_line();
            } else if ascii_space(current) {
                self.step();
            } else {
                break ;
            }
        }
    }

    /// Reads the next item of the source.
    pub fn parse_single(&mut self) -> (read: Result<InstructionOrLabel, Error>)
        requires
            old(self).wf(),
        ensures
            final(self).wf(),
            reads(old(self)@, final(self)@, read, single(old(self)@.source, old(self)@.cursor)),
            advanced(old(self)@, final(self)@),
    {
        proof {
            reveal(single);
        }
        self.skip_trivia();
        if self.done() {
            return Ok(InstructionOrLabel::EOF);
        }
        let c = self.current();
        if c == 0x25 {
            self.parse_preprocessor_command()
        } else if crate::text::ascii_letter(c) || c == 0x2e {
            self.parse_directive_or_instruction()
        } else {
            let from = self.position();
            let to = self.position();
            self.step();
            Err(Error { kind: ErrorKind::UnexpectedCharacter(c), from, to })
        }
    }

    /// Reads every item of the source. The last is the end of the source.
    #[must_use]
    pub fn parse(self) -> (items: Vec<Result<InstructionOrLabel, Error>>)
        requires
            self.wf(),
        ensures
            items@.len() == crate::parser::grammar::all(self@.source, self@.cursor).len(),
            forall|i: int|
                0 <= i < items@.len() ==> agrees(
                    #[trigger] items@[i],
                    crate::parser::grammar::all(self@.source, self@.cursor)[i].0,
                ),
    {
        let ghost start = self@;
        let ghost expected = crate::parser::grammar::all(start.source, start.cursor);
        let ghost mut seen: Seq<(Result<Item, Error>, int)> = Seq::empty();
        let mut parser = self;
        let mut instructions: Vec<Result<InstructionOrLabel, Error>> = Vec::new();
        loop
            invariant_except_break
                expected == seen + crate::parser::grammar::all(parser@.source, parser@.cursor),
            invariant
                parser.wf(),
                moved(start, parser@),
                instructions@.len() == seen.len(),
                forall|i: int|
                    0 <= i < instructions@.len() ==> agrees(#[trigger] instructions@[i], seen[i].0),
            ensures
                expected == seen,
            decreases parser@.source.len() - parser@.cursor,
        {
            let ghost rest = crate::parser::grammar::all(parser@.source, parser@.cursor);
            if parser.done() {
                instructions.push(Ok(InstructionOrLabel::EOF));
                proof {
                    seen = seen.push((Ok(Item::EOF), parser@.cursor));
                    assert(expected =~= seen);
                }
                break ;
            }
            let ghost before = parser@;
            let item = parser.parse_single();
            proof {
                let after = crate::parser::grammar::all(parser@.source, parser@.cursor);
                let first = (
                    single(before.source, before.cursor).value,
                    after_trivia(before.source, before.cursor),
                );
                assert(rest == seq![first] + after);
                assert(seen + rest =~= seen.push(first) + after);
                seen = seen.push(first);
            }
            instructions.push(item);
        }
        instructions
    }
}

} // verus!
