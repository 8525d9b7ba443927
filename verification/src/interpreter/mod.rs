pub mod chunk;
pub mod common;
pub mod interpret_result;
pub mod op_code;
pub mod parse_rule;
pub mod parser;
pub mod stack;
pub mod syntax;
pub mod traits;
