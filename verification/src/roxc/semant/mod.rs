pub mod types;
pub mod env;
pub mod substitution;
pub mod equality;
pub mod expressions;
pub mod fuel;
pub mod unification;
pub mod render;
pub mod tagged_syntax;
pub mod checker_spec;
pub mod type_checker;
