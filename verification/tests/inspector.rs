use vc2::inspector::{
    chain, inline_bytes, parse_byte, parse_command, word_format, Chain, Command, CommandError,
    InlineStop, Parsed, WordFormat,
};
use vc2::number::parse_decimal;

fn parsed(line: &str) -> Parsed {
    let words: Vec<&str> = line.split(' ').map(|word| word.trim()).collect();
    parse_command(&words, 0)
}

fn ok(command: Command, next: usize) -> Parsed {
    Parsed { command: Ok(command), next }
}

fn failed(error: CommandError, next: usize) -> Parsed {
    Parsed { command: Err(error), next }
}

#[test]
fn commands_without_arguments() {
    assert_eq!(parsed("help"), ok(Command::Help, 1));
    assert_eq!(parsed("eval\n"), ok(Command::Eval, 1));
    assert_eq!(parsed("exit"), ok(Command::Exit, 1));
    assert_eq!(parsed("frobnicate now"), ok(Command::Unknown { word: 0 }, 1));
    assert_eq!(parsed(""), ok(Command::Unknown { word: 0 }, 1));
    assert_eq!(parse_command(&[], 0), ok(Command::Nothing, 0));
    assert_eq!(parse_command(&["help"], 1), ok(Command::Nothing, 1));
}

#[test]
fn load_needs_a_path() {
    assert_eq!(parsed("file a.o"), ok(Command::Load { name: 1 }, 2));
    assert_eq!(parsed("load a.o && step"), ok(Command::Load { name: 1 }, 2));
    assert_eq!(parsed("load"), failed(CommandError::MissingFileName, 1));
}

#[test]
fn step_takes_an_amount() {
    assert_eq!(parsed("step"), ok(Command::Step { amount: 1 }, 1));
    assert_eq!(parsed("step 12"), ok(Command::Step { amount: 12 }, 2));
    assert_eq!(parsed("step 0x10"), ok(Command::Step { amount: 16 }, 2));
    assert_eq!(parsed("step 0b11"), ok(Command::Step { amount: 3 }, 2));
    assert_eq!(parsed("step &&"), failed(CommandError::InvalidAmount { word: 1 }, 2));
    assert_eq!(parsed("step -1"), failed(CommandError::InvalidAmount { word: 1 }, 2));
}

#[test]
fn repeat_takes_the_rest_of_the_line() {
    assert_eq!(
        parsed("repeat 3 step && registers hex"),
        ok(Command::Repeat { amount: 3, from: 2 }, 6)
    );
    assert_eq!(parsed("repeat 3"), ok(Command::Repeat { amount: 3, from: 2 }, 2));
    assert_eq!(parsed("repeat"), failed(CommandError::MissingAmount, 1));
    assert_eq!(parsed("repeat 0x3 step"), failed(CommandError::InvalidAmount { word: 1 }, 2));
}

#[test]
fn inline_takes_bytes() {
    assert_eq!(
        parsed("inline 1 0x02 0b11 255"),
        ok(Command::Inline { from: 1, until: 5, stopped: None }, 5)
    );
    assert_eq!(parsed("inline"), ok(Command::Inline { from: 1, until: 1, stopped: None }, 1));
    assert_eq!(
        parsed("inline 1 2 && step"),
        ok(Command::Inline { from: 1, until: 3, stopped: Some(InlineStop::Chained(3)) }, 4)
    );
    assert_eq!(
        parsed("inline 1 256 3"),
        ok(Command::Inline { from: 1, until: 2, stopped: Some(InlineStop::InvalidByte(2)) }, 3)
    );
    let words = ["inline", "1", "0x02", "0b11", "255"];
    assert_eq!(inline_bytes(&words, 1, 5), vec![1, 2, 3, 255]);
    assert_eq!(inline_bytes(&words, 2, 2), Vec::<u8>::new());
}

#[test]
fn registers_and_memory_take_a_format() {
    assert_eq!(parsed("registers hex"), ok(Command::Registers { format: WordFormat::Hex }, 2));
    assert_eq!(
        parsed("registers binary"),
        ok(Command::Registers { format: WordFormat::Binary }, 2)
    );
    assert_eq!(parsed("registers"), failed(CommandError::MissingFormat, 1));
    assert_eq!(parsed("registers oct"), failed(CommandError::UnknownFormat { word: 1 }, 1));
    assert_eq!(
        parsed("memory dec 0x10 32"),
        ok(Command::Memory { format: WordFormat::Decimal, start: 16, stop: 32 }, 4)
    );
    assert_eq!(parsed("memory"), failed(CommandError::MissingFormat, 1));
    assert_eq!(parsed("memory hex"), failed(CommandError::InvalidStart, 2));
    assert_eq!(parsed("memory hex x"), failed(CommandError::InvalidStart, 2));
    assert_eq!(parsed("memory hex 1"), failed(CommandError::InvalidStop, 3));
    assert_eq!(parsed("memory hex 1 y"), failed(CommandError::InvalidStop, 3));
    assert_eq!(
        parsed("memory hex 8 8"),
        failed(CommandError::EmptyRange { start: 8, stop: 8 }, 4)
    );
}

#[test]
fn commands_chain_with_two_ampersands() {
    let words = ["step", "2", "&&", "registers", "hex", "now"];
    assert_eq!(chain(&words, 2), Chain::Then(3));
    assert_eq!(parse_command(&words, 3), ok(Command::Registers { format: WordFormat::Hex }, 5));
    assert_eq!(chain(&words, 5), Chain::Trailing(5));
    assert_eq!(chain(&words, 6), Chain::End);
    assert_eq!(chain(&words, 9), Chain::End);
}

#[test]
fn formats_bytes_and_amounts() {
    assert_eq!(word_format("hex"), Some(WordFormat::Hex));
    assert_eq!(word_format("bin"), Some(WordFormat::Binary));
    assert_eq!(word_format("binary"), Some(WordFormat::Binary));
    assert_eq!(word_format("dec"), Some(WordFormat::Decimal));
    assert_eq!(word_format("decimal"), Some(WordFormat::Decimal));
    assert_eq!(word_format("HEX"), None);
    assert_eq!(parse_byte("255"), Some(255));
    assert_eq!(parse_byte("0xff"), Some(255));
    assert_eq!(parse_byte("256"), None);
    assert_eq!(parse_byte("&&"), None);
    assert_eq!(parse_decimal("42"), Some(42));
    assert_eq!(parse_decimal("+42"), Some(42));
    assert_eq!(parse_decimal("4294967295"), Some(u32::MAX));
    assert_eq!(parse_decimal("4294967296"), None);
    assert_eq!(parse_decimal("0x10"), None);
    assert_eq!(parse_decimal(""), None);
}
