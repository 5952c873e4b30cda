//! The command line: which operation is asked for, and with what amount.
//!
//! The arguments are the program's name, then optionally a command word,
//! then optionally an amount in percent. Command words are recognised
//! whatever the case of their letters.

use crate::error::Error;
use crate::percent::MAX_PERCENT;
use crate::text::{chars_of, parse_number, parse_unsigned};
use vstd::prelude::*;

verus! {

/// The amount by which `inc` and `dec` change the brightness when none is
/// given, in percent.
pub const DEFAULT_DELTA: u32 = 10;

/// The brightness that `set` sets when none is given, in percent.
pub const DEFAULT_SET: u32 = 70;

/// An operation on the backlight.
#[derive(Clone, Copy, Debug, PartialEq, Eq, Structural)]
pub enum Command {
    /// Show the brightness.
    Get,
    /// Set the brightness to an amount.
    SetTo,
    /// Raise the brightness by an amount.
    Inc,
    /// Lower the brightness by an amount.
    Dec,
    /// Show how the program is used.
    Help,
}

/// What the command line asks for.
#[derive(Clone, Copy, Debug, PartialEq, Eq, Structural)]
pub struct Config {
    /// The operation.
    pub command: Command,
    /// The amount that goes with it, in percent: at most one hundred.
    pub value: u32,
}

/// `c` in lower case where it is one of the letters `A` to `Z`, else `c`.
pub open spec fn lower(c: char) -> char {
    if 'A' <= c <= 'Z' {
        ((c as u8 + 32) as u8) as char
    } else {
        c
    }
}

/// `word` with each of the letters `A` to `Z` in lower case.
pub open spec fn lowered(word: Seq<char>) -> Seq<char> {
    Seq::new(word.len(), |i: int| lower(word[i]))
}

/// The command that `word` names, if it names one.
pub open spec fn command_of(word: Seq<char>) -> Option<Command> {
    if lowered(word) == "get"@ {
        Some(Command::Get)
    } else if lowered(word) == "set"@ {
        Some(Command::SetTo)
    } else if lowered(word) == "inc"@ {
        Some(Command::Inc)
    } else if lowered(word) == "dec"@ {
        Some(Command::Dec)
    } else if lowered(word) == "help"@ {
        Some(Command::Help)
    } else {
        None
    }
}

/// The amount that goes with `command` when the command line gives none.
pub open spec fn default_value(command: Command) -> u32 {
    if command == Command::SetTo {
        DEFAULT_SET
    } else {
        DEFAULT_DELTA
    }
}

/// The amount that `text` gives: a number in decimal text of at most one
/// hundred.
pub open spec fn value_of(text: Seq<char>) -> Result<u32, Error> {
    match parse_unsigned(text) {
        Some(n) => if n <= MAX_PERCENT {
            Ok(n as u32)
        } else {
            Err(Error::InvalidValue)
        },
        None => Err(Error::InvalidValue),
    }
}

/// What the arguments `args` ask for, the first of them being the program's
/// name.
///
/// Without a command word it is `get`. A word that names no command is
/// refused. Without an amount the command gets its default; an amount is
/// checked whatever the command. Arguments after the amount are passed over.
pub open spec fn config_of(args: Seq<Seq<char>>) -> Result<Config, Error> {
    if args.len() <= 1 {
        Ok(Config { command: Command::Get, value: DEFAULT_DELTA })
    } else {
        match command_of(args[1]) {
            None => Err(Error::InvalidCommand),
            Some(command) => if args.len() == 2 {
                Ok(Config { command, value: default_value(command) })
            } else {
                match value_of(args[2]) {
                    Ok(value) => Ok(Config { command, value }),
                    Err(e) => Err(e),
                }
            },
        }
    }
}

/// `c` in lower case where it is one of the letters `A` to `Z`, else `c`.
fn to_lower(c: char) -> (l: char)
    ensures
        l == lower(c),
{
    if 'A' <= c && c <= 'Z' {
        ((c as u8) + 32) as char
    } else {
        c
    }
}

/// Whether `chars` is `word` but for the case of its letters; `word` is in
/// lower case.
fn is_word(chars: &Vec<char>, word: &str) -> (b: bool)
    ensures
        b == (lowered(chars@) == word@),
{
    let expected = chars_of(word);
    if chars.len() != expected.len() {
        return false;
    }
    let mut i: usize = 0;
    while i < chars.len()
        invariant
            i <= chars.len(),
            chars.len() == expected.len(),
            expected@ == word@,
            forall|j: int| 0 <= j < i ==> lowered(chars@)[j] == #[trigger] expected[j],
        decreases chars.len() - i,
    {
        if to_lower(chars[i]) != expected[i] {
            return false;
        }
        i += 1;
    }
    assert(lowered(chars@) =~= word@);
    true
}

/// The command that `word` names, if it names one.
pub fn parse_command(word: &str) -> (command: Option<Command>)
    ensures
        command == command_of(word@),
{
    let chars = chars_of(word);
    if is_word(&chars, "get") {
        Some(Command::Get)
    } else if is_word(&chars, "set") {
        Some(Command::SetTo)
    } else if is_word(&chars, "inc") {
        Some(Command::Inc)
    } else if is_word(&chars, "dec") {
        Some(Command::Dec)
    } else if is_word(&chars, "help") {
        Some(Command::Help)
    } else {
        None
    }
}

/// The amount that `text` gives: a number in decimal text of at most one
/// hundred. Anything else is refused with [`Error::InvalidValue`].
pub fn parse_value(text: &str) -> (value: Result<u32, Error>)
    ensures
        value == value_of(text@),
{
    match parse_number(text) {
        Some(n) => if n <= MAX_PERCENT {
            Ok(n)
        } else {
            Err(Error::InvalidValue)
        },
        None => Err(Error::InvalidValue),
    }
}

/// Whether `args` has a command word that names no command.
pub open spec fn unknown_command(args: Seq<Seq<char>>) -> bool {
    args.len() >= 2 && command_of(args[1]) is None
}

/// Whether `args` has a command and then an amount that is no number of at
/// most one hundred.
pub open spec fn bad_amount(args: Seq<Seq<char>>) -> bool {
    args.len() >= 3 && command_of(args[1]) is Some && value_of(args[2]) is Err
}

impl Config {
    /// Reads the command line `args`, the first argument being the
    /// program's name.
    ///
    /// A word that names no command gives [`Error::InvalidCommand`]; after a
    /// command, an amount that is no number or is above one hundred gives
    /// [`Error::InvalidValue`]. Every other command line is read.
    pub fn new(args: &[String]) -> (config: Result<Config, Error>)
        requires
            args@.len() >= 1,
        ensures
            config == config_of(args.deep_view()),
            config is Ok <==> !unknown_command(args.deep_view()) && !bad_amount(
                args.deep_view(),
            ),
            config == Err::<Config, Error>(Error::InvalidCommand) <==> unknown_command(
                args.deep_view(),
            ),
            config == Err::<Config, Error>(Error::InvalidValue) <==> bad_amount(args.deep_view()),
            config matches Ok(c) ==> c.value <= MAX_PERCENT,
    {
        if args.len() == 1 {
            return Ok(Config { command: Command::Get, value: DEFAULT_DELTA });
        }
        let command = match parse_command(args[1].as_str()) {
            Some(command) => command,
            None => {
                return Err(Error::InvalidCommand);
            },
        };
        if args.len() == 2 {
            return match command {
                Command::SetTo => Ok(Config { command, value: DEFAULT_SET }),
                _ => Ok(Config { command, value: DEFAULT_DELTA }),
            };
        }
        match parse_value(args[2].as_str()) {
            Ok(value) => Ok(Config { command, value }),
            Err(e) => Err(e),
        }
    }
}

} // verus!
