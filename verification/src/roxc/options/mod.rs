//! The command line options of the Rox compiler.
use vstd::prelude::*;
use std::path::PathBuf;

verus! {

/// A path of the file system, carried through as it is.
#[verifier::external_type_specification]
#[verifier::external_body]
pub struct ExPathBuf(PathBuf);

/// What the compiler is asked to do.
#[derive(Debug)]
pub enum Options {
    /// Compiles and links the program
    Build {
        /// The file to compile
        file: PathBuf,
        /// The name of the output executable
        output: PathBuf,
        /// Option to not link the native object file
        no_link: bool,
    },
    /// Executes the program with Rox's JIT compiler
    Run {
        /// The file to run
        file: PathBuf,
    },
}

impl Options {
    /// The file to compile or run.
    pub fn get_path(&self) -> (r: &PathBuf)
        ensures
            match self {
                Options::Build { file, .. } => r == file,
                Options::Run { file } => r == file,
            },
    {
        match self {
            Options::Run { file, .. } => file,
            Options::Build { file, .. } => file,
        }
    }
}

} // verus!
