//! The failure classes this layer reports to the host, and the exception
//! values that carry them.

use vstd::prelude::*;

verus! {

/// The class of a host-visible failure.
///
/// `TypeError` marks a host value or callable whose shape does not match the
/// required type or capability; it is always a local, pre-call validation
/// failure. `IndexError` marks an out-of-bounds memory-view access.
/// `RuntimeError` wraps an engine-level trap surfaced to the host.
/// `ArgumentError` and `NameError` are reserved for surrounding collaborators
/// and are not produced by this core.
#[derive(Clone, Copy, PartialEq, Eq, Structural, Debug)]
pub enum ExceptionKind {
    TypeError,
    IndexError,
    RuntimeError,
    ArgumentError,
    NameError,
}

/// A failure as reported to the host: a failure class plus a message.
#[derive(Clone, Debug)]
pub struct Exception {
    pub kind: ExceptionKind,
    pub message: String,
}

impl Exception {
    /// Builds an exception of the given class carrying `message`.
    pub fn new(kind: ExceptionKind, message: &str) -> (r: Exception)
        ensures
            r.kind == kind,
            r.message@ == message@,
    {
        Exception { kind, message: message.to_owned() }
    }

    /// The failure class of this exception.
    pub fn kind(&self) -> (r: ExceptionKind)
        ensures
            r == self.kind,
    {
        self.kind
    }

    /// The message this exception carries.
    pub fn message(&self) -> (r: &str)
        ensures
            r@ == self.message@,
    {
        self.message.as_str()
    }
}

/// A marker type naming one host-level exception class, so that callers can
/// pick the class of an exception generically.
pub trait ErrorType {
    fn name() -> &'static str;
}

pub struct TypeError;

impl ErrorType for TypeError {
    fn name() -> &'static str {
        "TypeError"
    }
}

pub struct IndexError;

impl ErrorType for IndexError {
    fn name() -> &'static str {
        "IndexError"
    }
}

pub struct RuntimeError;

impl ErrorType for RuntimeError {
    fn name() -> &'static str {
        "RuntimeError"
    }
}

pub struct ArgumentError;

impl ErrorType for ArgumentError {
    fn name() -> &'static str {
        "ArgumentError"
    }
}

pub struct NameError;

impl ErrorType for NameError {
    fn name() -> &'static str {
        "NameError"
    }
}

} // verus!
