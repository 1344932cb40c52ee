use facet_formats::jsonschema::{to_string, JsonField, JsonKind, JsonShape};

fn shape(kind: JsonKind) -> JsonShape {
    JsonShape { doc: vec![], kind }
}

fn field(name: &str, doc: &[&str], kind: JsonKind) -> JsonField {
    JsonField { name: name.to_string(), doc: doc.iter().map(|d| d.to_string()).collect(), shape: shape(kind) }
}

fn uint32() -> JsonKind {
    JsonKind::Integer { bits: 32, signed: false }
}

fn pointer(kind: JsonKind) -> JsonKind {
    JsonKind::Pointer(Box::new(shape(kind)))
}

fn id_attribute() -> Vec<String> {
    vec!["id = \"http://example.com/schema\"".to_string()]
}

#[test]
fn test_basic() {
    let test_struct = JsonShape {
        doc: vec![" Test documentation".to_string()],
        kind: JsonKind::Struct(vec![
            field("string_field", &[" Test doc1"], JsonKind::Str),
            field("int_field", &[" Test doc2"], uint32()),
            field("vec_field", &[], JsonKind::List(Box::new(shape(JsonKind::Boolean)))),
            field("slice_field", &[], pointer(JsonKind::List(Box::new(shape(JsonKind::Number))))),
            field("array_field", &[], JsonKind::Array(3, Box::new(shape(JsonKind::Number)))),
        ]),
    };
    let schema = to_string(&test_struct, &id_attribute());
    assert_eq!(
        schema,
        [
            "{\"$schema\": \"https://json-schema.org/draft/2020-12/schema\",",
            "\"$id\": \"http://example.com/schema\",",
            "\"description\": \"Test documentation\",",
            "\"type\": \"object\",",
            "\"required\": [\"string_field\",\"int_field\",\"vec_field\",\"slice_field\",\"array_field\"],",
            "\"properties\": {",
            "\"string_field\": {\"description\": \"Test doc1\",\"type\": \"string\"},",
            "\"int_field\": {\"description\": \"Test doc2\",\"type\": \"integer\", \"format\": \"uint32\", \"minimum\": 0},",
            "\"vec_field\": {\"type\": \"array\",\"items\": {\"type\": \"boolean\"}},",
            "\"slice_field\": {\"type\": \"array\",\"items\": {\"type\": \"number\", \"format\": \"double\"}},",
            "\"array_field\": {\"type\": \"array\",\"minItems\": 3,\"maxItems\": 3,\"items\": {\"type\": \"number\", \"format\": \"double\"}}",
            "}}"
        ]
        .concat()
    );
}

#[test]
fn test_pointers() {
    let test_struct = JsonShape {
        doc: vec![" Test documentation".to_string()],
        kind: JsonKind::Struct(vec![
            field("normal_pointer", &[], pointer(JsonKind::Str)),
            field("box_pointer", &[], pointer(uint32())),
            field("arc", &[], pointer(uint32())),
            field("rc", &[], pointer(uint32())),
            field("nested", &[], pointer(pointer(pointer(pointer(pointer(uint32())))))),
        ]),
    };
    let schema = to_string(&test_struct, &id_attribute());
    let uint = "{\"type\": \"integer\", \"format\": \"uint32\", \"minimum\": 0}";
    let expected = [
            "{\"$schema\": \"https://json-schema.org/draft/2020-12/schema\",",
            "\"$id\": \"http://example.com/schema\",",
            "\"description\": \"Test documentation\",",
            "\"type\": \"object\",",
            "\"required\": [\"normal_pointer\",\"box_pointer\",\"arc\",\"rc\",\"nested\"],",
            "\"properties\": {",
            "\"normal_pointer\": {\"type\": \"string\"},",
            "\"box_pointer\": UINT,\"arc\": UINT,\"rc\": UINT,\"nested\": UINT",
            "}}"
        ].concat().replace("UINT", uint);
    assert_eq!(schema, expected);
}

#[test]
fn schema_without_id_and_with_signed_integers() {
    let s = JsonShape {
        doc: vec![" a".to_string(), "b ".to_string()],
        kind: JsonKind::Struct(vec![field("x", &[], JsonKind::Integer { bits: 64, signed: true })]),
    };
    let schema = to_string(&s, &vec!["rename_all = \"camelCase\"".to_string()]);
    assert_eq!(
        schema,
        [
            "{\"$schema\": \"https://json-schema.org/draft/2020-12/schema\",",
            "\"description\": \"a\nb\",",
            "\"type\": \"object\",\"required\": [\"x\"],",
            "\"properties\": {\"x\": {\"type\": \"integer\", \"format\": \"int64\"}}}"
        ]
        .concat()
    );
}

#[test]
fn unknown_scalars_and_empty_structs() {
    let s = JsonShape { doc: vec![], kind: JsonKind::Struct(vec![field("u", &[], JsonKind::Unknown)]) };
    let schema = to_string(&s, &vec![]);
    assert_eq!(
        schema,
        [
            "{\"$schema\": \"https://json-schema.org/draft/2020-12/schema\",",
            "\"type\": \"object\",\"required\": [\"u\"],",
            "\"properties\": {\"u\": {\"type\": \"unknown\"}}}"
        ]
        .concat()
    );
    let empty = JsonShape { doc: vec![], kind: JsonKind::Struct(vec![]) };
    assert_eq!(
        to_string(&empty, &vec![]),
        "{\"$schema\": \"https://json-schema.org/draft/2020-12/schema\",\"type\": \"object\",\"required\": [],\"properties\": {}}"
    );
}
