//! # Rox
//! The Rox language: reading programs, type checking them, and the pieces
//! of its compilers and interpreters that decide what a program means.
pub mod interpreter;
pub mod lox;
pub mod roxc;

use vstd::prelude::*;
use crate::roxc::errors::RoxError;
use crate::roxc::parser::{parse_named, parsed_as};
use crate::roxc::semant::checker_spec::{check_program, Step};
use crate::roxc::semant::type_checker::{check_statements, Failure};
use crate::roxc::errors::placeholder_error;

verus! {

/// Reads a program given as text and type checks it: `Ok` when it is well
/// typed; an error when it cannot be read or has a type error; or
/// `Unsupported` for the programs the type checker has no answer for.
pub fn execute_source_string(source: &str) -> (r: Result<(), Failure>)
    requires
        source@.len() + 16 <= usize::MAX,
    ensures
        exists|p: crate::roxc::errors::Result<Vec<Box<crate::roxc::parser::syntax::Statement>>>|
            #![trigger parsed_as(source@, p)]
            parsed_as(source@, p) && match p {
                Err(e) => r matches Err(Failure::Error(x)) && x == e,
                Ok(stmts) => match check_program(stmts@) {
                    Step::Done(_, _, _) => r is Ok,
                    Step::Fail(m) => r matches Err(Failure::Error(x)) && placeholder_error(x, m),
                    Step::Stuck => r matches Err(Failure::Unsupported),
                },
            },
{
    let parsed = parse_named(source, String::new());
    let ghost p = parsed;
    match parsed {
        Err(e) => Err(Failure::Error(e)),
        Ok(stmts) => match check_statements(&stmts) {
            Ok(_) => Ok(()),
            Err(f) => Err(f),
        },
    }
}

} // verus!
