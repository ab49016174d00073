//! The error that the fallible operations of the library return.
use vstd::prelude::*;

verus! {

/// What went wrong, in the broad classes that callers tell apart.
#[derive(Debug, Clone, Copy, PartialEq, Eq, Structural)]
pub enum ErrorKind {
    NotFound,
    InvalidInput,
    InvalidData,
    Other,
}

/// A class of failure with the message for the user.
#[derive(Debug, Clone)]
pub struct Error {
    pub kind: ErrorKind,
    pub message: String,
}

impl Error {
    /// Whether this is the error of class `kind` with the message `message`.
    pub open spec fn says(self, kind: ErrorKind, message: Seq<char>) -> bool {
        self.kind == kind && self.message@ == message
    }

    pub fn new(kind: ErrorKind, message: &str) -> (e: Error)
        ensures
            e.says(kind, message@),
    {
        Error { kind, message: message.to_string() }
    }
}

/// An error says one thing: its kind and its message.
pub proof fn errors_say_one_thing(
    e: Error,
    kind: ErrorKind,
    message: Seq<char>,
    other_kind: ErrorKind,
    other_message: Seq<char>,
)
    requires
        e.says(kind, message),
    ensures
        e.kind == kind,
        e.message@ == message,
        e.says(other_kind, other_message) ==> other_kind == kind && other_message == message,
{
}

} // verus!
