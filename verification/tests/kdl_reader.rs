use facet_formats::build_state::ReflectError;
use facet_formats::kdl_reader::{
    deserialize_document, from_str, DocumentShape, KdlError, KdlErrorKind, NodeField, Progress,
};

fn child(name: &str) -> NodeField {
    NodeField { name: name.to_string(), child: true }
}

fn basic() -> DocumentShape {
    DocumentShape::Struct {
        fields: vec![child("title")],
        def: "Struct(Basic)".to_string(),
        shape: "Basic".to_string(),
    }
}

fn progress(r: Result<Progress, KdlError>) -> Progress {
    match r {
        Ok(p) => p,
        Err(e) => panic!("unexpected error: {}", e.message()),
    }
}

#[test]
fn a_node_selects_the_child_field_it_names() {
    assert_eq!(progress(from_str("title \"Hello, World\"\n", &basic())), Progress::FieldSelected(0));
    let two = DocumentShape::Struct {
        fields: vec![child("a"), child("b")],
        def: "Struct(Two)".to_string(),
        shape: "Two".to_string(),
    };
    // The last node is the one that is read.
    assert_eq!(progress(from_str("a 1\nb 2\n", &two)), Progress::FieldSelected(1));
}

#[test]
fn text_that_is_not_kdl_is_a_parse_error() {
    let err = from_str("title \"unterminated\n", &basic()).err().unwrap();
    assert!(matches!(&err.kind, KdlErrorKind::Parse(m) if *m == err.message()));
    assert_eq!(err.message(), "Failed to parse KDL document");
}

#[test]
fn an_empty_document_misses_its_node() {
    let err = from_str("", &basic()).err().unwrap();
    assert!(matches!(&err.kind, KdlErrorKind::MissingNodes(v) if *v == vec!["TODO".to_string()]));
    assert_eq!(err.message(), "failed to find node [\"TODO\"]");
}

#[test]
fn a_node_without_a_field_is_refused() {
    let err = from_str("subtitle \"x\"\n", &basic()).err().unwrap();
    assert!(matches!(
        &err.kind,
        KdlErrorKind::Reflect(ReflectError::OperationFailed { shape, operation })
            if shape == "Basic" && operation == "field not found"
    ));
    assert_eq!(err.message(), "Operation failed on shape \u{1b}[34mBasic\u{1b}[39m: field not found");
}

#[test]
fn every_field_must_be_a_child_node() {
    let fields = vec![child("title"), NodeField { name: "count".to_string(), child: false }];
    let err = deserialize_document(
        &fields,
        &"Struct(Mixed)".to_string(),
        &"Mixed".to_string(),
        &vec!["title".to_string()],
    )
    .err()
    .unwrap();
    assert!(matches!(&err.kind, KdlErrorKind::InvalidDocumentShape(d) if d == "Struct(Mixed)"));
    assert_eq!(err.message(), "invalid shape Struct(Mixed) \u{2014} needed... TODO");
}

#[test]
fn only_a_struct_holds_a_document() {
    assert_eq!(progress(from_str("a 1\n", &DocumentShape::Other)), Progress::NotAStruct);
    let err = from_str("a \"", &DocumentShape::Other).err().unwrap();
    assert!(matches!(err.kind, KdlErrorKind::Parse(_)));
}
