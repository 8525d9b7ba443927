//! The errors of the interpreter.
use vstd::prelude::*;

verus! {

/// What kind of error stopped the interpreter.
#[derive(Clone, Copy, Debug, PartialEq, Eq, Structural)]
pub enum InterpretErrorType {
    InterpretCompileError,
    InterpretRuntimeError,
}

/// An error that stopped the interpreter.
#[derive(Debug)]
pub struct InterpretError {
    pub error_type: InterpretErrorType,
    pub message: Option<String>,
}

/// A value or the error that stopped the interpreter.
pub type RoxResult<T> = Result<T, InterpretError>;

impl InterpretError {
    /// An error met while compiling, without a message.
    pub fn compilation_error() -> (r: Self)
        ensures
            r.error_type == InterpretErrorType::InterpretCompileError,
            r.message is None,
    {
        InterpretError { error_type: InterpretErrorType::InterpretCompileError, message: None }
    }

    /// An error met while running, without a message.
    pub fn runtime_error() -> (r: Self)
        ensures
            r.error_type == InterpretErrorType::InterpretRuntimeError,
            r.message is None,
    {
        InterpretError { error_type: InterpretErrorType::InterpretRuntimeError, message: None }
    }
}

} // verus!
