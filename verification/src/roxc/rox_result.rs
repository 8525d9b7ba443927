//! The results of the first version of the compiler.
use vstd::prelude::*;

verus! {

/// What kind of error the compiler met.
#[derive(Clone, Copy, Debug, PartialEq, Eq, Structural)]
pub enum RoxErrorType {
    CompileError,
    TypeInferenceError,
}

/// An error of the first version of the compiler.
#[derive(Clone, Debug)]
pub struct RoxError {
    pub error_type: RoxErrorType,
    pub message: Option<String>,
}

/// A value or the error that stopped the compiler.
pub type RoxResult<T> = Result<T, RoxError>;

impl RoxError {
    /// A compile error without a message.
    pub fn compilation_error<T>() -> (r: RoxResult<T>)
        ensures
            r matches Err(e) && e.error_type == RoxErrorType::CompileError && e.message is None,
    {
        Err(RoxError { error_type: RoxErrorType::CompileError, message: None })
    }
}

} // verus!
