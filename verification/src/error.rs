//! The library's error: a kind, as `std::io::ErrorKind` classifies it, and a message.
use vstd::prelude::*;
use crate::text::{decimal_chars, push_decimal, push_str};

verus! {

/// What went wrong, in the terms of `std::io::ErrorKind`.
#[derive(Clone, Copy, Debug, PartialEq, Eq, Structural)]
pub enum ErrorKind {
    /// A parameter, or a value handed in, was wrong.
    InvalidInput,
    /// Data read back from a file was not valid.
    InvalidData,
    /// Anything else.
    Other,
}

/// An error with its kind and a message for the user.
#[derive(Debug)]
pub struct ObsError {
    pub kind: ErrorKind,
    pub message: String,
}

impl ObsError {
    /// This error has kind `kind` and the message `message`.
    pub open spec fn is(&self, kind: ErrorKind, message: Seq<char>) -> bool {
        self.kind == kind && self.message@ == message
    }
}

/// An error of kind `InvalidInput` with the given message.
pub fn invalid_input(message: &str) -> (error: ObsError)
    ensures
        error.is(ErrorKind::InvalidInput, message@),
{
    ObsError { kind: ErrorKind::InvalidInput, message: message.to_owned() }
}

/// An error of kind `InvalidData` with the given message.
pub fn invalid_data(message: &str) -> (error: ObsError)
    ensures
        error.is(ErrorKind::InvalidData, message@),
{
    ObsError { kind: ErrorKind::InvalidData, message: message.to_owned() }
}

/// An error of kind `Other` with the given message.
pub fn other_error(message: &str) -> (error: ObsError)
    ensures
        error.is(ErrorKind::Other, message@),
{
    ObsError { kind: ErrorKind::Other, message: message.to_owned() }
}

/// The message of an error for a spectrum of `received` values where `expected` were
/// due: `expected {expected}{middle}{received}`.
pub open spec fn channel_mismatch_message(middle: Seq<char>, expected: nat, received: nat) -> Seq<
    char,
> {
    "expected "@ + decimal_chars(expected) + middle + decimal_chars(received)
}

/// An `InvalidInput` error for a spectrum of `received` values where `expected` were
/// due; `middle` names the unit between the two numbers.
pub fn channel_mismatch(middle: &str, expected: usize, received: usize) -> (error: ObsError)
    ensures
        error.is(
            ErrorKind::InvalidInput,
            channel_mismatch_message(middle@, expected as nat, received as nat),
        ),
{
    let mut message = String::new();
    push_str(&mut message, "expected ");
    push_decimal(&mut message, expected as u64);
    push_str(&mut message, middle);
    push_decimal(&mut message, received as u64);
    assert(message@ =~= channel_mismatch_message(middle@, expected as nat, received as nat));
    ObsError { kind: ErrorKind::InvalidInput, message }
}

} // verus!
