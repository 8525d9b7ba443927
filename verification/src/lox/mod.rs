pub mod chunk;
pub mod compile;
pub mod parse_rule;
pub mod parser;
pub mod precedence;
pub mod scanner;
pub mod token;
pub mod traits;
