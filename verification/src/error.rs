//! The ways in which an invocation can fail.

use vstd::prelude::*;

verus! {

/// Why an invocation failed.
#[derive(Clone, Copy, Debug, PartialEq, Eq, Structural)]
pub enum Error {
    /// The command word is none of the known commands.
    InvalidCommand,
    /// The amount is not a decimal number, or is above one hundred.
    InvalidValue,
    /// A device file could not be opened, read or written.
    IoError,
    /// A device file does not hold a decimal number that fits the raw unit.
    ParseError,
}

} // verus!
