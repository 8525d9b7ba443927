//! The results of running a program.
use vstd::prelude::*;

verus! {

/// What kind of error stopped the program.
#[derive(Clone, Copy, Debug, PartialEq, Eq, Structural)]
pub enum InterpretErrorType {
    InterpretCompileError,
    InterpretRuntimeError,
}

/// An error that stopped the program.
#[derive(Clone, Debug)]
pub struct InterpretError {
    pub error_type: InterpretErrorType,
    pub message: Option<String>,
}

/// A value or the error that stopped the program.
pub type RoxResult<T> = Result<T, InterpretError>;

impl InterpretError {
    /// A compile error without a message.
    pub fn compilation_error<T>() -> (r: RoxResult<T>)
        ensures
            r matches Err(e) && e.error_type == InterpretErrorType::InterpretCompileError
                && e.message is None,
    {
        Err(InterpretError { error_type: InterpretErrorType::InterpretCompileError, message: None })
    }
}

} // verus!
