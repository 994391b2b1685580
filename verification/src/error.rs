//! The error type shared by the whole crate.

use vstd::prelude::*;

verus! {

/// A coarse classification of failures, each carrying a message.
#[derive(Debug, Clone)]
pub enum Error {
    /// A network-level failure: connecting, sending, receiving, or a
    /// response that is not even a status line.
    Network(String),
    /// Input that the engine does not understand: an unknown color name,
    /// an unsupported display keyword, an unsupported element name.
    UnexpectedInput(String),
    /// A mismatch on the shell's drawing surface; never produced here.
    InvalidUI(String),
    /// Anything else.
    Other(String),
}

impl PartialEq for Error {
    fn eq(&self, other: &Self) -> (r: bool) {
        match (self, other) {
            (Error::Network(a), Error::Network(b)) => *a == *b,
            (Error::UnexpectedInput(a), Error::UnexpectedInput(b)) => *a == *b,
            (Error::InvalidUI(a), Error::InvalidUI(b)) => *a == *b,
            (Error::Other(a), Error::Other(b)) => *a == *b,
            _ => false,
        }
    }
}

impl vstd::std_specs::cmp::PartialEqSpecImpl for Error {
    open spec fn obeys_eq_spec() -> bool {
        true
    }

    open spec fn eq_spec(&self, other: &Error) -> bool {
        match (self, other) {
            (Error::Network(a), Error::Network(b)) => a@ == b@,
            (Error::UnexpectedInput(a), Error::UnexpectedInput(b)) => a@ == b@,
            (Error::InvalidUI(a), Error::InvalidUI(b)) => a@ == b@,
            (Error::Other(a), Error::Other(b)) => a@ == b@,
            _ => false,
        }
    }
}

} // verus!
