use rox::execute_source_string;
use rox::roxc::parser::parse_string;
use rox::roxc::semant::env::{zip_argument_types, Env};
use rox::roxc::semant::substitution::substitute;
use rox::roxc::semant::type_checker::{
    analyse_program, check_statements, get_builtin_types, translate_type_identifier, Failure,
};
use rox::roxc::semant::types::{Type, TypeConstructor};
use rox::roxc::semant::unification::{expand, unify};
use rox::roxc::parser::syntax::{Expression, Operation, Spanned, TypeName};
use rox::roxc::semant::expressions::translate_expression;
use std::path::PathBuf;

fn simple(c: TypeConstructor) -> Type {
    Type::Apply(c, Vec::new())
}

fn message_of(result: Result<(), Failure>) -> String {
    match result {
        Err(Failure::Error(e)) => e.message.clone().unwrap(),
        other => panic!("expected a type error, got {:?}", other),
    }
}

#[test]
fn well_typed_program_is_accepted() {
    let result = execute_source_string(
        r#"
    struct Pair<T> { first: T, second: T, }
    fn swap(p: Number) -> Number do
        let q = Pair::<Number> { first: p, second: 2 };
        return p;
    end
    "#,
    );
    assert!(result.is_ok());
}

#[test]
fn unknown_identifier_is_reported() {
    let result = execute_source_string("fn main() do y; end");
    assert_eq!(message_of(result), "Encountered unknown identifier: y");
}

#[test]
fn indexing_a_number_is_reported() {
    let result = execute_source_string("fn main(i: Int) do let x = 1; x[i]; end");
    assert_eq!(message_of(result), "Cannot index into non-array type");
}

#[test]
fn arrays_are_indexed_by_ints() {
    let result = execute_source_string(
        "fn f(a: Array<Number>, i: Int) -> Number do return a[i]; end",
    );
    assert!(result.is_ok());
}

#[test]
fn number_literals_are_no_indices() {
    let result = execute_source_string("fn f(a: Array<Number>) -> Number do return a[0]; end");
    assert_eq!(message_of(result), "Type mismatch: attempted to unify Float and Int");
}

#[test]
fn passing_a_function_for_a_number_is_a_mismatch() {
    let result = execute_source_string(
        "fn f(x: Number) -> Number do return x; end fn main() do f(f); end",
    );
    assert_eq!(
        message_of(result),
        "Type mismatch: attempted to unify PolymorphicType([], Apply(Arrow, [Apply(Float, []), Apply(Float, [])])) and Apply(Float, [])"
    );
}

#[test]
fn field_access_is_unsupported() {
    let result = execute_source_string("fn main() do let x = 1; x.y; end");
    assert!(matches!(result, Err(Failure::Unsupported)));
}

#[test]
fn analyse_program_tags_each_statement() {
    let statements = parse_string(
        "extern fn puts(String); fn main() do puts(\"hi\"); end",
        &PathBuf::new(),
    )
    .unwrap();
    let tagged = analyse_program(statements).unwrap();
    assert_eq!(tagged.len(), 2);
}

#[test]
fn check_statements_reports_errors_of_whole_programs() {
    let statements = parse_string("fn main() do return z; end", &PathBuf::new()).unwrap();
    match check_statements(&statements) {
        Err(Failure::Error(e)) => {
            assert_eq!(e.message.unwrap(), "Encountered unknown identifier: z")
        }
        other => panic!("unexpected {:?}", other),
    }
}

#[test]
fn builtin_types_include_number_as_float() {
    let (type_env, variable_env, functions) = get_builtin_types();
    assert_eq!(
        format!("{:?}", type_env.get(&"Number".to_string())),
        format!("{:?}", Some(&simple(TypeConstructor::Float)))
    );
    assert!(type_env.get(&"Int".to_string()).is_some());
    assert!(variable_env.get(&"Int".to_string()).is_none());
    assert_eq!(functions.get_inner_array().len(), 1);
}

#[test]
fn array_type_names_denote_array_types() {
    let (mut type_env, _, _) = get_builtin_types();
    let name = TypeName::ArrayType(Box::new(TypeName::Type(Spanned::dummy_span(
        "Number".to_string(),
    ))));
    let t = translate_type_identifier(&mut type_env, &name).unwrap();
    assert_eq!(
        format!("{:?}", t),
        format!(
            "{:?}",
            Type::Apply(
                TypeConstructor::Array(Box::new(simple(TypeConstructor::Float))),
                Vec::new()
            )
        )
    );
}

#[test]
fn substitution_replaces_bound_variables() {
    let mut env = Env::new();
    env.insert("T".to_string(), simple(TypeConstructor::Float));
    let t = Type::Apply(TypeConstructor::Arrow, vec![Type::Variable("T".to_string()), Type::Variable("U".to_string())]);
    let r = substitute(t, &mut env);
    assert_eq!(
        format!("{:?}", r),
        format!(
            "{:?}",
            Type::Apply(
                TypeConstructor::Arrow,
                vec![simple(TypeConstructor::Float), Type::Variable("U".to_string())]
            )
        )
    );
}

#[test]
fn instantiating_a_type_function_substitutes_its_argument() {
    // `type List<T> = T` instantiated as `List<Float>`.
    let list = Type::Apply(
        TypeConstructor::FunctionType(vec!["T".to_string()], Box::new(Type::Variable("T".to_string()))),
        vec![simple(TypeConstructor::Float)],
    );
    let mut env = Env::new();
    assert_eq!(
        format!("{:?}", substitute(list, &mut env)),
        format!("{:?}", simple(TypeConstructor::Float))
    );
}

#[test]
fn expand_applies_type_functions() {
    let t = Type::Apply(
        TypeConstructor::FunctionType(vec!["T".to_string()], Box::new(Type::Variable("T".to_string()))),
        vec![simple(TypeConstructor::Bool)],
    );
    assert_eq!(format!("{:?}", expand(t)), format!("{:?}", simple(TypeConstructor::Bool)));
}

#[test]
fn zipped_names_are_bound_position_by_position() {
    let env = zip_argument_types(
        vec!["a".to_string(), "b".to_string()],
        vec![simple(TypeConstructor::Int)],
    );
    assert_eq!(
        format!("{:?}", env.get(&"a".to_string())),
        format!("{:?}", Some(&simple(TypeConstructor::Int)))
    );
    assert!(env.get(&"b".to_string()).is_none());
}

#[test]
fn a_type_unifies_with_itself() {
    let t = Type::PolymorphicType(
        vec!["T".to_string()],
        Box::new(Type::Apply(TypeConstructor::Arrow, vec![Type::Variable("T".to_string())])),
    );
    let u = Type::PolymorphicType(
        vec!["T".to_string()],
        Box::new(Type::Apply(TypeConstructor::Arrow, vec![Type::Variable("T".to_string())])),
    );
    assert!(unify(t, u).is_ok());
}

#[test]
fn different_variables_do_not_unify() {
    let e = unify(Type::Variable("a".to_string()), Type::Variable("b".to_string())).unwrap_err();
    assert_eq!(e.message.unwrap(), "Type mismatch: attempted to unify \"a\" and \"b\"");
    assert_eq!(e.labels.len(), 0);
}

#[test]
fn int_and_float_do_not_unify() {
    let e = unify(simple(TypeConstructor::Int), simple(TypeConstructor::Float)).unwrap_err();
    assert_eq!(e.message.unwrap(), "Type mismatch: attempted to unify Int and Float");
}

#[test]
fn applied_types_with_equal_constructors_unify_by_their_arguments() {
    let arrow = |a: TypeConstructor, b: TypeConstructor| {
        Type::Apply(TypeConstructor::Arrow, vec![simple(a), simple(b)])
    };
    assert!(unify(
        arrow(TypeConstructor::Float, TypeConstructor::Bool),
        arrow(TypeConstructor::Float, TypeConstructor::Bool)
    )
    .is_ok());
    let e = unify(
        arrow(TypeConstructor::Float, TypeConstructor::Bool),
        arrow(TypeConstructor::Float, TypeConstructor::String),
    )
    .unwrap_err();
    assert_eq!(e.message.unwrap(), "Type mismatch: attempted to unify Bool and String");
}

#[test]
fn a_type_with_a_unique_constructor_unifies_with_itself() {
    let record = || {
        Type::Apply(
            TypeConstructor::Unique(Box::new(TypeConstructor::Record(vec![(
                "x".to_string(),
                simple(TypeConstructor::Float),
            )]))),
            vec![simple(TypeConstructor::Int)],
        )
    };
    assert!(unify(record(), record()).is_ok());
}

#[test]
fn polymorphic_types_unify_up_to_renaming() {
    let t = Type::PolymorphicType(vec!["A".to_string()], Box::new(Type::Variable("A".to_string())));
    let u = Type::PolymorphicType(vec!["B".to_string()], Box::new(Type::Variable("B".to_string())));
    assert!(unify(t, u).is_ok());
}

#[test]
fn checking_in_two_parts_is_checking_whole() {
    let first = "struct P { x: Number, } fn f(a: Number) -> Number do return a; end";
    let second = "fn main() do let p = P { x: f(1) }; end";
    let whole = format!("{} {}", first, second);
    assert!(execute_source_string(&whole).is_ok());
    assert!(execute_source_string(first).is_ok());
    // The second part alone does not know `P`.
    assert!(execute_source_string(second).is_err());
}

#[test]
fn an_unknown_identifier_leaves_the_environments_as_they_were() {
    let mut type_env = Env::new();
    let mut variable_env = Env::new();
    let expression = Expression::Identifier(Spanned::dummy_span("y".to_string()));
    let result = translate_expression(&mut type_env, &mut variable_env, &expression);
    assert_eq!(message_of(result.map(|_| ())), "Encountered unknown identifier: y");
    assert!(type_env.get(&"y".to_string()).is_none());
    assert!(variable_env.get(&"y".to_string()).is_none());
}

#[test]
fn a_failed_check_keeps_the_variables_declared_before_the_error() {
    let mut type_env = Env::new();
    let mut variable_env = Env::new();
    let declaration = Expression::Variable(
        Spanned::dummy_span("z".to_string()),
        Box::new(Expression::Float(Spanned::dummy_span("1".to_string()))),
    );
    let expression = Expression::Operation(
        Box::new(declaration),
        Spanned::dummy_span(Operation::Add),
        Box::new(Expression::Identifier(Spanned::dummy_span("y".to_string()))),
    );
    let result = translate_expression(&mut type_env, &mut variable_env, &expression);
    assert!(result.is_err());
    assert_eq!(
        format!("{:?}", variable_env.get(&"z".to_string())),
        format!("{:?}", Some(&simple(TypeConstructor::Float)))
    );
}

#[test]
fn names_in_mismatches_are_written_as_debug_formatting_writes_them() {
    let e = unify(Type::Variable("a\"b".to_string()), Type::Variable("c\\".to_string())).unwrap_err();
    assert_eq!(
        e.message.unwrap(),
        "Type mismatch: attempted to unify \"a\\\"b\" and \"c\\\\\""
    );
}
