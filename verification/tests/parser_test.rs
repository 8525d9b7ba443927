use rox::roxc::parser::parse_string;
use std::path::PathBuf;

#[test]
fn it_parses_functions_with_no_arguments() {
    let source = r#"
        fn some_test() -> String do
            return "Hello, world!";
        end

        fn main() do
            puts(some_test());
        end
        "#;

    assert!(parse_string(source, &PathBuf::new()).is_ok());
}

#[test]
fn it_parses_functions_with_arguments() {
    let source = r#"
        fn some_test(some_string: String) -> String do
            return some_string;
        end

        fn main() do
            puts(some_test("Golly this is an amazing test case!"));
        end
        "#;

    assert!(parse_string(source, &PathBuf::new()).is_ok());
}

#[test]
fn it_parses_type_declaration_with_fields() {
    let source = r#"
        struct TestStruct {
            first_field: String,
            is_real?: Bool,
        }

        struct AnotherOne<T> { generic_field: T, not_generic: String, }

        fn main() do
            let foo = TestStruct { first_field: "", is_real?: true };
        end
        "#;

    assert!(parse_string(source, &PathBuf::new()).is_ok());
}
