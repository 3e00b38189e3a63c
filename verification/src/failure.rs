//! Why something could not be done: the kind of the failure and its message.

use crate::text::Text;
use vstd::prelude::*;

verus! {

/// The kind of a failure.
#[derive(PartialEq, Eq, Structural, Clone, Copy, Debug)]
pub enum FailureKind {
    /// What was asked for is not there.
    NotFound,
    /// It is not permitted.
    PermissionDenied,
    /// It is there already.
    AlreadyExists,
    /// An argument cannot be used.
    InvalidInput,
    /// Stored data cannot be used.
    InvalidData,
    /// The time for it is over.
    TimedOut,
    /// None of the other kinds.
    Other,
    /// A kind of the caller's, under a number of its own; it is handed back as it came.
    Outside(u32),
}

/// A failure.
#[derive(Debug)]
pub struct Failure {
    pub kind: FailureKind,
    pub message: String,
}

/// The mathematical value of a failure.
pub struct FailureV {
    pub kind: FailureKind,
    pub message: Text,
}

impl View for Failure {
    type V = FailureV;

    open spec fn view(&self) -> FailureV {
        FailureV { kind: self.kind, message: self.message@ }
    }
}

/// A failure.
pub open spec fn failed(kind: FailureKind, message: Text) -> FailureV {
    FailureV { kind, message }
}

/// A failure of no particular kind.
pub open spec fn other_failure(message: Text) -> FailureV {
    failed(FailureKind::Other, message)
}

/// A value, or why there is none.
pub open spec fn said<T: View>(r: Result<T, Failure>) -> Result<T::V, FailureV> {
    match r {
        Ok(x) => Ok(x@),
        Err(e) => Err(e@),
    }
}

impl Failure {
    /// A failure.
    pub fn new(kind: FailureKind, message: &str) -> (r: Failure)
        ensures
            r@ == failed(kind, message@),
    {
        Failure { kind, message: message.to_owned() }
    }

    /// A failure of no particular kind.
    pub fn other(message: &str) -> (r: Failure)
        ensures
            r@ == other_failure(message@),
    {
        Failure::new(FailureKind::Other, message)
    }

    /// A copy of the failure.
    pub fn copy(&self) -> (r: Failure)
        ensures
            r@ == self@,
    {
        Failure { kind: self.kind, message: self.message.clone() }
    }
}

} // verus!
