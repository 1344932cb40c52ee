use facet_formats::signature::{
    extract_documentation, parse_fn_parameters, parse_function_signature,
    try_parse_function_signature, AttributeInner, FunctionSignature,
};
use proc_macro2::TokenStream;

fn ts(s: &str) -> TokenStream {
    s.parse().expect("Failed to parse input")
}

fn parse_and_verify_signature(input: &str) -> FunctionSignature {
    parse_function_signature(ts(input.trim()))
}

#[test]
fn test_empty_parameters() {
    let params = parse_fn_parameters(ts(""));
    assert_eq!(params.len(), 0);
}

#[test]
fn test_single_parameter() {
    let params = parse_fn_parameters(ts("x: i32"));
    assert_eq!(params.len(), 1);
    assert_eq!(params[0].name.to_string(), "x");
    assert_eq!(params[0].param_type.to_string().trim(), "i32");
}

#[test]
fn test_multiple_parameters() {
    let params = parse_fn_parameters(ts("x: i32, y: String"));
    assert_eq!(params.len(), 2);
    assert_eq!(params[0].name.to_string(), "x");
    assert_eq!(params[0].param_type.to_string().trim(), "i32");
    assert_eq!(params[1].name.to_string(), "y");
    assert_eq!(params[1].param_type.to_string().trim(), "String");
}

#[test]
fn test_complex_types() {
    let params = parse_fn_parameters(ts("callback: fn(i32) -> String, data: Vec<Option<u64>>"));
    assert_eq!(params.len(), 2);
    assert_eq!(params[0].name.to_string(), "callback");
    assert_eq!(params[0].param_type.to_string().trim(), "fn (i32) -> String");
    assert_eq!(params[1].name.to_string(), "data");
    assert_eq!(params[1].param_type.to_string().trim(), "Vec < Option < u64 > >");
}

#[test]
fn parameters_stop_at_the_first_that_cannot_be_read() {
    assert_eq!(parse_fn_parameters(ts("&self, x: i32")).len(), 0);
    let params = parse_fn_parameters(ts("x: HashMap<K, V>, mut y: u8"));
    assert_eq!(params.len(), 1);
    assert_eq!(params[0].param_type_tokens().to_string(), "HashMap < K , V >");
    let trailing = parse_fn_parameters(ts("a: u8,"));
    assert_eq!(trailing.len(), 1);
}

#[test]
fn test_simple_function() {
    let parsed = parse_function_signature(ts("fn add(x: i32, y: i32) -> i32 { x + y }"));
    assert_eq!(parsed.name.to_string(), "add");
    assert!(parsed.generics.is_none());
    assert_eq!(parsed.parameters.len(), 2);
    assert_eq!(parsed.parameters[0].name.to_string(), "x");
    assert_eq!(parsed.parameters[1].name.to_string(), "y");
    assert_eq!(parsed.return_type.to_string().trim(), "i32");
}

#[test]
fn test_generic_function() {
    let parsed = parse_function_signature(ts("fn generic_add<T>(x: T, y: T) -> T { x + y }"));
    assert_eq!(parsed.name.to_string(), "generic_add");
    assert!(parsed.generics.is_some());
    assert_eq!(parsed.parameters.len(), 2);
    assert_eq!(parsed.return_type.to_string().trim(), "T");
}

#[test]
fn test_no_params_function() {
    // `& 'static` keeps the `&` alone, as `quote!` writes it.
    let parsed = parse_function_signature(ts("fn no_params() -> & 'static str { \"hello\" }"));
    assert_eq!(parsed.name.to_string(), "no_params");
    assert_eq!(parsed.parameters.len(), 0);
    assert_eq!(parsed.return_type.to_string().trim(), "& 'static str");
}

#[test]
fn test_no_return_type() {
    let parsed = parse_function_signature(ts("fn no_return(x: i32) { println!(\"{}\", x); }"));
    assert_eq!(parsed.name.to_string(), "no_return");
    assert_eq!(parsed.parameters.len(), 1);
    assert_eq!(parsed.return_type.to_string().trim(), "()");
}

#[test]
fn test_function_with_doc_comments() {
    let parsed = parse_function_signature(ts(
        "#[doc = \" This is a test function\"] #[doc = \" that does addition of two numbers\"] \
         fn add(x: i32, y: i32) -> i32 { x + y }",
    ));
    assert_eq!(parsed.name.to_string(), "add");
    assert!(parsed.generics.is_none());
    assert_eq!(parsed.parameters.len(), 2);
    assert_eq!(parsed.parameters[0].name.to_string(), "x");
    assert_eq!(parsed.parameters[1].name.to_string(), "y");
    assert_eq!(parsed.return_type.to_string().trim(), "i32");
    assert!(!parsed.documentation.is_empty());
    assert_eq!(parsed.documentation.len(), 2);
    assert_eq!(parsed.documentation[0], " This is a test function");
    assert_eq!(parsed.documentation[1], " that does addition of two numbers");
}

#[test]
fn test_function_with_single_doc_comment() {
    let parsed = parse_function_signature(ts(
        "#[doc = \" Single line documentation\"] fn greet(name: String) -> String { format!(\"Hello, {}!\", name) }",
    ));
    assert!(!parsed.documentation.is_empty());
    assert_eq!(parsed.documentation.len(), 1);
    assert_eq!(parsed.documentation[0], " Single line documentation");
}

#[test]
fn test_function_without_doc_comments() {
    let parsed = parse_function_signature(ts("fn no_docs(x: i32) -> i32 { x * 2 }"));
    assert_eq!(parsed.name.to_string(), "no_docs");
    assert!(parsed.documentation.is_empty());
}

#[test]
fn test_function_with_mixed_attributes() {
    let parsed = parse_function_signature(ts(
        "#[doc = \" Documentation comment\"] #[derive(Debug)] #[doc = \" More documentation\"] \
         fn mixed_attrs() { println!(\"test\"); }",
    ));
    assert_eq!(parsed.name.to_string(), "mixed_attrs");
    assert!(!parsed.documentation.is_empty());
    assert_eq!(parsed.documentation.len(), 2);
    assert_eq!(parsed.documentation[0], " Documentation comment");
    assert_eq!(parsed.documentation[1], " More documentation");
}

#[test]
fn test_generic_function_with_docs() {
    let parsed = parse_function_signature(ts(
        "#[doc = \" Generic function that adds two values\"] \
         fn generic_add<T: Add<Output = T>>(x: T, y: T) -> T { x + y }",
    ));
    assert_eq!(parsed.name.to_string(), "generic_add");
    assert!(parsed.generics.is_some());
    assert!(!parsed.documentation.is_empty());
    assert_eq!(parsed.documentation.len(), 1);
    assert_eq!(parsed.documentation[0], " Generic function that adds two values");
}

#[test]
fn test_simple_function_parsing() {
    let parsed = parse_and_verify_signature(
        r#"
        fn add(x: i32, y: i32) -> i32 {
            x + y
        }
    "#,
    );
    assert_eq!(parsed.name.to_string(), "add");
    assert!(parsed.generics.is_none());
    assert_eq!(parsed.parameters.len(), 2);
    assert_eq!(parsed.parameters[0].name.to_string(), "x");
    assert_eq!(parsed.parameters[1].name.to_string(), "y");
    assert_eq!(parsed.return_type.to_string().trim(), "i32");
}

#[test]
fn test_generic_function_parsing() {
    let parsed = parse_and_verify_signature(
        r#"
        fn generic_add<T: Add<Output = T>>(x: T, y: T) -> T {
            x + y
        }
    "#,
    );
    assert_eq!(parsed.name.to_string(), "generic_add");
    assert!(parsed.generics.is_some());
    assert_eq!(parsed.parameters.len(), 2);
    assert_eq!(parsed.parameters[0].name.to_string(), "x");
    assert_eq!(parsed.parameters[1].name.to_string(), "y");
    assert_eq!(parsed.return_type.to_string().trim(), "T");
}

#[test]
fn test_string_function_parsing() {
    let parsed = parse_and_verify_signature(
        r#"
        fn greet(name: String) -> String {
            format!("Hello, {}!", name)
        }
    "#,
    );
    assert_eq!(parsed.name.to_string(), "greet");
    assert!(parsed.generics.is_none());
    assert_eq!(parsed.parameters.len(), 1);
    assert_eq!(parsed.parameters[0].name.to_string(), "name");
    assert_eq!(parsed.return_type.to_string().trim(), "String");
}

#[test]
fn test_complex_generic_function_parsing() {
    let parsed = parse_and_verify_signature(
        r#"
        fn complex_fn<T, U>(x: Vec<T>, y: Option<U>) -> Result<T, U> {
            todo!()
        }
    "#,
    );
    assert_eq!(parsed.name.to_string(), "complex_fn");
    assert!(parsed.generics.is_some());
    assert_eq!(parsed.parameters.len(), 2);
    assert_eq!(parsed.parameters[0].name.to_string(), "x");
    assert_eq!(parsed.parameters[1].name.to_string(), "y");
    assert_eq!(parsed.return_type.to_string().trim(), "Result < T , U >");
}

#[test]
fn test_no_return_type_function_parsing() {
    let parsed = parse_and_verify_signature(
        r#"
        fn no_return(x: i32) {
            println!("{}", x);
        }
    "#,
    );
    assert_eq!(parsed.name.to_string(), "no_return");
    assert!(parsed.generics.is_none());
    assert_eq!(parsed.parameters.len(), 1);
    assert_eq!(parsed.parameters[0].name.to_string(), "x");
    assert_eq!(parsed.return_type.to_string().trim(), "()");
}

#[test]
fn generics_are_written_back_with_lone_punctuation() {
    let parsed = parse_and_verify_signature(
        "fn f<'a: 'b, const N: usize = 3, T: Iterator<Item = u8> = std::vec::IntoIter<u8>>() {}",
    );
    assert_eq!(
        parsed.generics.unwrap().to_string(),
        "< 'a : 'b , const N : usize = 3 , T : Iterator < Item = u8 > = std :: vec :: IntoIter < u8 > >"
    );
    assert_eq!(parsed.body.to_string(), "{ }");
}

#[test]
fn what_is_not_a_signature() {
    assert!(try_parse_function_signature(ts("pub fn f() {}")).is_none());
    assert!(try_parse_function_signature(ts("fn f<T() {}")).is_none());
    assert!(try_parse_function_signature(ts("fn f() -> {}")).is_none());
    assert!(try_parse_function_signature(ts("#[doc = \"x\" y] fn f() {}")).is_none());
    assert!(try_parse_function_signature(ts("fn f()")).is_none());
    assert!(try_parse_function_signature(ts("fn f() {} trailing tokens")).is_some());
}

#[test]
fn documentation_unescapes_quotes_and_skips_raw_literals() {
    let parsed = parse_and_verify_signature(
        r##"#[doc = " Hello \"world\""] #[doc = r"raw"] #[doc(hidden)] fn greet() {}"##,
    );
    assert_eq!(parsed.documentation, vec![" Hello \"world\"".to_string()]);
    let docs = extract_documentation(&Some(vec![
        AttributeInner::Other,
        AttributeInner::Doc("\"a\\\"b\"".to_string()),
    ]));
    assert_eq!(docs, vec!["a\"b".to_string()]);
    assert!(extract_documentation(&None).is_empty());
}
