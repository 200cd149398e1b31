//! The error taxonomy surfaced by the emitter and the orchestrator.
//!
//! No error is recovered locally within emission: every failure is carried to
//! the caller together with the most recent source location.

use vstd::prelude::*;

use crate::ast::Location;

verus! {

/// The kinds of errors that can occur while emitting IR.
#[derive(Debug, Clone, PartialEq, Eq)]
pub enum LLVMCompileErrorType {
    /// An identifier or callee could not be resolved; carries the name.
    NameError(String),
    /// A construct was written in an ill-formed way; carries a description.
    SyntaxError(String),
    /// A value had the wrong type; carries the expected and the found type.
    TypeError(String, String),
    /// A construct the language subset excludes; carries a description.
    NotImplemented(String),
}

/// An emission error together with the source location it arose at.
#[derive(Debug, Clone, PartialEq, Eq)]
pub struct LLVMCompileError {
    pub error: LLVMCompileErrorType,
    pub location: Option<Location>,
}

impl LLVMCompileError {
    pub fn new(location: Option<Location>, exception: LLVMCompileErrorType) -> (r: Self)
        ensures
            r.location == location,
            r.error == exception,
    {
        LLVMCompileError { error: exception, location }
    }
}

} // verus!
