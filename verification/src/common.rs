//! The error type shared by the whole machine.

use vstd::prelude::*;

verus! {

/// What went wrong. Every error is fatal to the program that raised it.
#[derive(Clone, Copy, Debug, PartialEq, Eq, Structural)]
pub enum ErrorKind {
    /// A pattern that is no valid regular expression.
    Compile,
    /// A file that could not be opened or read.
    Io,
    /// An integer division or remainder by zero.
    Arithmetic,
    /// A broken promise of the program's producer: a register or label out
    /// of range, running past the last instruction, a map changed under a
    /// live iterator.
    Invariant,
}

/// A fatal error: its kind and a message for the user.
#[derive(Debug)]
pub struct VmError {
    pub kind: ErrorKind,
    pub message: String,
}

/// The result of an operation that may fail fatally.
pub type Result<T> = core::result::Result<T, VmError>;

impl VmError {
    /// An error of the given kind.
    pub fn new(kind: ErrorKind, message: String) -> (e: VmError)
        ensures
            e.kind == kind,
            e.message == message,
    {
        VmError { kind, message }
    }
}

} // verus!
