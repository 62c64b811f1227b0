//! What the assembler reports: a kind of error and where in the source it lies.

use vstd::prelude::*;

verus! {

/// A place in the source text.
#[derive(Clone, Copy, Debug, PartialEq, Eq, Structural)]
pub struct Position {
    /// The byte offset, from 0.
    pub cursor: usize,
    /// The line, from 1.
    pub line: usize,
    /// The column, from 1.
    pub character: usize,
}

/// What went wrong.
#[derive(Clone, Copy, Debug, PartialEq, Eq, Structural)]
pub enum ErrorKind {
    /// A line starts with a byte that can start nothing.
    UnexpectedCharacter(u8),
    /// The source ends where an operand, a name or a value is due.
    UnexpectedEndOfInput,
    /// Something other than a comment follows what the line needed.
    ExpectedEndOfLine(u8),
    /// A literal holds a byte that is not ASCII.
    InvalidUtf8,
    /// A character literal ends before its closing quote.
    UnexpectedEndOfCharLiteral,
    /// A character literal holds more than one character.
    ExpectedSingleQuote(u8),
    /// A backslash is followed by a byte that names no escape.
    InvalidEscape(u8),
    /// A number has no digits, or a byte that is no digit of its radix, or
    /// does not fit 64 bits.
    InvalidNumber,
    /// A number fits neither an unsigned nor a signed 32-bit word.
    NumberOutOfRange,
    /// A value of `db` is above 255.
    ByteOutOfRange,
    /// An operand opened with `[` is followed by something other than `]`.
    ExpectedClosingBracket(u8),
    /// Two operands are not separated by a comma.
    ExpectedComma(u8),
    /// A word is no mnemonic and, having this byte and no `:` after it, no
    /// label either.
    UnknownMnemonic(u8),
    /// A string literal is not closed on its line.
    UnterminatedString,
    /// The word after `%` names no directive.
    UnknownPreprocessorCommand,
    /// A sub-label stands before any label.
    SubLabelWithoutLabel,
    /// A sub-constant is defined or used before any label.
    SubConstantWithoutLabel,
    /// A label is declared at two different offsets.
    DuplicateLabel { first: u32, second: u32 },
    /// A label has the name of a constant.
    LabelIsConstant { value: u32 },
    /// A constant is defined with two different values.
    DuplicateConstant { first: u32, second: u32 },
    /// A constant has the name of a label.
    ConstantIsLabel { position: u32 },
    /// A name is used that nothing declares.
    UnresolvedSymbol,
    /// NOT is given an immediate or a constant, which names no place.
    InvalidNotTarget,
    /// A label lies at an offset that does not fit a word.
    ImageTooLarge,
}

/// An error of the assembler, with the span of source that it is about.
#[derive(Clone, Copy, Debug, PartialEq, Eq, Structural)]
pub struct Error {
    pub kind: ErrorKind,
    /// The first byte of the span.
    pub from: Position,
    /// The last byte of the span.
    pub to: Position,
}

impl ErrorKind {
    /// The text that describes this kind of error.
    pub open spec fn text(self) -> Seq<char> {
        match self {
            ErrorKind::UnexpectedCharacter(_) => "unexpected character"@,
            ErrorKind::UnexpectedEndOfInput => "unexpected end of input"@,
            ErrorKind::ExpectedEndOfLine(_) => "expected end of line"@,
            ErrorKind::InvalidUtf8 => "expected valid utf_8"@,
            ErrorKind::UnexpectedEndOfCharLiteral => "unexpected end of char literal"@,
            ErrorKind::ExpectedSingleQuote(_) => "expected single quote (')"@,
            ErrorKind::InvalidEscape(_) =>
                "unexpected escape char, only \\0, \\n, \\r, \\t, \\' \\\" and \\\\ are supported"@,
            ErrorKind::InvalidNumber => "invalid i64"@,
            ErrorKind::NumberOutOfRange => "number not within i32/u32 bounds"@,
            ErrorKind::ByteOutOfRange => "expected u8, got value > 255"@,
            ErrorKind::ExpectedClosingBracket(_) => "expected ']'"@,
            ErrorKind::ExpectedComma(_) => "expected ',' between operands"@,
            ErrorKind::UnknownMnemonic(_) =>
                "unknown mnemonic, or label without ':'"@,
            ErrorKind::UnterminatedString => "unexpected end of string literal"@,
            ErrorKind::UnknownPreprocessorCommand => "unknown preprocessor command"@,
            ErrorKind::SubLabelWithoutLabel => "sublabel without label"@,
            ErrorKind::SubConstantWithoutLabel => "sub constant without label"@,
            ErrorKind::DuplicateLabel { .. } => "labels must be unique"@,
            ErrorKind::LabelIsConstant { .. } => "label is also the name of a constant"@,
            ErrorKind::DuplicateConstant { .. } => "constants must be unique"@,
            ErrorKind::ConstantIsLabel { .. } => "constant is also the name of a label"@,
            ErrorKind::UnresolvedSymbol => "unrecognized constant"@,
            ErrorKind::InvalidNotTarget => "not needs a register or an address"@,
            ErrorKind::ImageTooLarge => "label offset does not fit a word"@,
        }
    }

    /// Describes this kind of error in words.
    pub fn message(&self) -> (message: String)
        ensures
            message@ == self.text(),
    {
        match self {
            ErrorKind::UnexpectedCharacter(_) => String::from_str("unexpected character"),
            ErrorKind::UnexpectedEndOfInput => String::from_str("unexpected end of input"),
            ErrorKind::ExpectedEndOfLine(_) => String::from_str("expected end of line"),
            ErrorKind::InvalidUtf8 => String::from_str("expected valid utf_8"),
            ErrorKind::UnexpectedEndOfCharLiteral => String::from_str(
                "unexpected end of char literal",
            ),
            ErrorKind::ExpectedSingleQuote(_) => String::from_str("expected single quote (')"),
            ErrorKind::InvalidEscape(_) => String::from_str(
                "unexpected escape char, only \\0, \\n, \\r, \\t, \\' \\\" and \\\\ are supported",
            ),
            ErrorKind::InvalidNumber => String::from_str("invalid i64"),
            ErrorKind::NumberOutOfRange => String::from_str("number not within i32/u32 bounds"),
            ErrorKind::ByteOutOfRange => String::from_str("expected u8, got value > 255"),
            ErrorKind::ExpectedClosingBracket(_) => String::from_str("expected ']'"),
            ErrorKind::ExpectedComma(_) => String::from_str("expected ',' between operands"),
            ErrorKind::UnknownMnemonic(_) => String::from_str(
                "unknown mnemonic, or label without ':'",
            ),
            ErrorKind::UnterminatedString => String::from_str("unexpected end of string literal"),
            ErrorKind::UnknownPreprocessorCommand => String::from_str(
                "unknown preprocessor command",
            ),
            ErrorKind::SubLabelWithoutLabel => String::from_str("sublabel without label"),
            ErrorKind::SubConstantWithoutLabel => String::from_str("sub constant without label"),
            ErrorKind::DuplicateLabel { .. } => String::from_str("labels must be unique"),
            ErrorKind::LabelIsConstant { .. } => String::from_str(
                "label is also the name of a constant",
            ),
            ErrorKind::DuplicateConstant { .. } => String::from_str("constants must be unique"),
            ErrorKind::ConstantIsLabel { .. } => String::from_str(
                "constant is also the name of a label",
            ),
            ErrorKind::UnresolvedSymbol => String::from_str("unrecognized constant"),
            ErrorKind::InvalidNotTarget => String::from_str("not needs a register or an address"),
            ErrorKind::ImageTooLarge => String::from_str("label offset does not fit a word"),
        }
    }
}

impl Error {
    /// Describes the error in words.
    pub fn message(&self) -> (message: String)
        ensures
            message@ == self.kind.text(),
    {
        self.kind.message()
    }
}

} // verus!
