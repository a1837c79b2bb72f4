//! The one error of the library: a call to the listing service that failed.

use vstd::prelude::*;

verus! {

/// Why a call to the listing service failed.
#[derive(Clone, Copy, Debug, PartialEq, Eq, Structural)]
pub enum FailureKind {
    /// The service could not be reached: no connection, no name, no answer in time.
    Transport,
    /// The service answered with a status that is not a success.
    Status,
    /// The answer's body does not have the expected shape.
    Decode,
}

/// A failed call to the listing service, of whatever kind, with its
/// description. It is never retried: the first one ends the aggregation.
#[derive(Debug)]
pub struct AnyhowError {
    pub kind: FailureKind,
    pub message: String,
}

/// What an [`AnyhowError`] holds, as mathematical values.
pub struct ErrorView {
    pub kind: FailureKind,
    pub message: Seq<char>,
}

impl View for AnyhowError {
    type V = ErrorView;

    open spec fn view(&self) -> ErrorView {
        ErrorView { kind: self.kind, message: self.message@ }
    }
}

impl AnyhowError {
    /// A failure of the given kind, described by `message`.
    pub fn new(kind: FailureKind, message: String) -> (error: AnyhowError)
        ensures
            error@ == (ErrorView { kind, message: message@ }),
    {
        AnyhowError { kind, message }
    }

    /// The description of the failure.
    pub fn describe(&self) -> (text: String)
        ensures
            text@ == self@.message,
    {
        self.message.clone()
    }
}

} // verus!
