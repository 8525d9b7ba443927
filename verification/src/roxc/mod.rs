pub mod errors;
pub mod interpret_result;
pub mod local;
pub mod options;
pub mod parser;
pub mod rox_result;
pub mod semant;
pub mod stack;
pub mod syntax;
pub mod text;
