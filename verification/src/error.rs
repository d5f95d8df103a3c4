//! The errors that scanning and compiling report.

use vstd::prelude::*;
use vstd::string::StringExecFns;
use crate::decimal::{decimal_digits, push_decimal_digits};

verus! {

/// Why a scan stopped. `offset` counts bytes from the start of the input.
#[derive(Clone, Copy, Debug, PartialEq, Eq, Structural)]
pub enum ScanError {
    /// The byte at `offset` is no digit, no space and none of `+ - * / ( )`.
    UnrecognizedCharacter { offset: usize },
    /// The run of digits that starts at `offset` denotes more than `i32::MAX`.
    NumberOutOfRange { offset: usize },
}

impl ScanError {
    /// The error in words: what is wrong, and at which offset.
    pub open spec fn message(self) -> Seq<char> {
        match self {
            ScanError::UnrecognizedCharacter { offset } => "unrecognized character at offset "@
                + decimal_digits(offset as nat),
            ScanError::NumberOutOfRange { offset } => "number out of range at offset "@
                + decimal_digits(offset as nat),
        }
    }

    /// Says in words what is wrong, and at which offset.
    pub fn to_text(&self) -> (s: String)
        ensures
            s@ == self.message(),
    {
        match *self {
            ScanError::UnrecognizedCharacter { offset } => {
                let mut s = String::from_str("unrecognized character at offset ");
                push_decimal_digits(&mut s, offset as u64);
                s
            },
            ScanError::NumberOutOfRange { offset } => {
                let mut s = String::from_str("number out of range at offset ");
                push_decimal_digits(&mut s, offset as u64);
                s
            },
        }
    }
}

/// Why there is no listing for an input.
#[derive(Clone, Copy, Debug, PartialEq, Eq)]
pub enum CompileError {
    /// The input could not be scanned into tokens.
    Scan(ScanError),
    /// The tokens are no expression; the reason is given in words.
    Parse(&'static str),
}

impl CompileError {
    /// The error in words: the message of a scan error, or the reason that
    /// the parser gave.
    pub open spec fn message(self) -> Seq<char> {
        match self {
            CompileError::Scan(e) => e.message(),
            CompileError::Parse(reason) => reason@,
        }
    }

    /// Says in words why there is no listing.
    pub fn to_text(&self) -> (s: String)
        ensures
            s@ == self.message(),
    {
        match *self {
            CompileError::Scan(e) => e.to_text(),
            CompileError::Parse(reason) => String::from_str(reason),
        }
    }
}

} // verus!
