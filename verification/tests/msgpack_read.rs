use facet_formats::deserialize::from_slice_value;
use facet_formats::errors::Error;
use facet_formats::schema::{
    FieldSchema, FieldValue, ScalarKind, Schema, Value, VariantKind, VariantSchema,
};

fn field(name: &str, schema: Schema) -> FieldSchema {
    FieldSchema { name: name.to_string(), has_default: false, schema }
}

fn defaulted(name: &str, schema: Schema) -> FieldSchema {
    FieldSchema { name: name.to_string(), has_default: true, schema }
}

fn scalar(kind: ScalarKind) -> Schema {
    Schema::Scalar(kind)
}

fn variant(name: &str, kind: VariantKind, fields: Vec<FieldSchema>) -> VariantSchema {
    VariantSchema { name: name.to_string(), kind, fields }
}

fn given(v: Value) -> FieldValue {
    FieldValue::Given(v)
}

fn text(s: &str) -> Value {
    Value::Str(s.to_string())
}

fn foo_bar() -> Schema {
    Schema::Struct(vec![field("foo", scalar(ScalarKind::U64)), field("bar", scalar(ScalarKind::String))])
}

#[test]
fn msgpack_read_bool() {
    let schema = Schema::Struct(vec![
        field("yes", scalar(ScalarKind::Bool)),
        field("no", scalar(ScalarKind::Bool)),
    ]);
    let data = [0x82, 0xa3, 0x79, 0x65, 0x73, 0xc3, 0xa2, 0x6e, 0x6f, 0xc2];
    let s = from_slice_value(&schema, &data).unwrap();
    assert_eq!(s, Value::Struct(vec![given(Value::Bool(true)), given(Value::Bool(false))]));
}

#[test]
fn bad_hex_1() {
    // The map announces two entries but holds one.
    let data = [0x82, 0xa3, 0x66, 0x6f, 0x6f, 0xce, 0x00, 0x00, 0x00, 0x2a];
    let err = from_slice_value(&foo_bar(), &data).unwrap_err();
    assert_eq!(err, Error::InsufficientData);
    assert_eq!(err.message(), "Insufficient data to decode");
}

#[test]
fn bad_hex_2() {
    // "bar" holds an integer where a string is expected.
    let data = [
        0x82, 0xa3, 0x66, 0x6f, 0x6f, 0xce, 0x00, 0x00, 0x00, 0x2a, 0xa3, 0x62, 0x61, 0x72, 0xce,
        0x00, 0x00, 0x00, 0x2a,
    ];
    let err = from_slice_value(&foo_bar(), &data).unwrap_err();
    assert_eq!(err, Error::UnexpectedType);
}

#[test]
fn msgpack_read_struct_two_fields() {
    let schema = Schema::Struct(vec![
        field("name", scalar(ScalarKind::String)),
        field("age", scalar(ScalarKind::U64)),
    ]);
    let data = [
        0x82, 0xa4, 0x6e, 0x61, 0x6d, 0x65, 0xa5, 0x41, 0x6c, 0x69, 0x63, 0x65, 0xa3, 0x61, 0x67,
        0x65, 0xce, 0x00, 0x00, 0x00, 0x1e,
    ];
    let result = from_slice_value(&schema, &data).unwrap();
    assert_eq!(result, Value::Struct(vec![given(text("Alice")), given(Value::U64(30))]));
}

#[test]
fn msgpack_deserialize_hashmap() {
    let schema = Schema::MapOf(Box::new(scalar(ScalarKind::String)), Box::new(scalar(ScalarKind::String)));
    let data = [
        0x83, 0xa4, 0x6b, 0x65, 0x79, 0x31, 0xa6, 0x76, 0x61, 0x6c, 0x75, 0x65, 0x31, 0xa4, 0x6b,
        0x65, 0x79, 0x32, 0xa6, 0x76, 0x61, 0x6c, 0x75, 0x65, 0x32, 0xa4, 0x6b, 0x65, 0x79, 0x33,
        0xa6, 0x76, 0x61, 0x6c, 0x75, 0x65, 0x33,
    ];
    let m = from_slice_value(&schema, &data).unwrap();
    let entries = match m {
        Value::MapOf(entries) => entries,
        other => panic!("not a map: {:?}", other),
    };
    let get = |key: &str| entries.iter().find(|(k, _)| *k == text(key)).map(|(_, v)| v);
    assert_eq!(get("key1").unwrap(), &text("value1"));
    assert_eq!(get("key2").unwrap(), &text("value2"));
    assert_eq!(get("key3").unwrap(), &text("value3"));
}

#[test]
fn msgpack_deserialize_more_types() {
    let schema = Schema::Struct(vec![
        field("u8_val", scalar(ScalarKind::U8)),
        field("u16_val", scalar(ScalarKind::U16)),
        field("i8_val", scalar(ScalarKind::I8)),
        field("i16_val", scalar(ScalarKind::I16)),
        field("u32_val", scalar(ScalarKind::U32)),
        field("i32_val", scalar(ScalarKind::I32)),
        field("u64_val", scalar(ScalarKind::U64)),
        field("i64_val", scalar(ScalarKind::I64)),
        field("f32_val", scalar(ScalarKind::F32)),
        field("f64_val", scalar(ScalarKind::F64)),
    ]);
    // Each key's fixstr header gives the key's exact length.
    let mut data = vec![0x8a];
    let mut key = |name: &str, value: &[u8]| {
        data.push(0xa0 | name.len() as u8);
        data.extend_from_slice(name.as_bytes());
        data.extend_from_slice(value);
    };
    key("u8_val", &[0xcc, 0xff]);
    key("u16_val", &[0xcd, 0xff, 0xff]);
    key("i8_val", &[0xd0, 0x80]);
    key("i16_val", &[0xd1, 0x80, 0x00]);
    key("u32_val", &[0xce, 0xff, 0xff, 0xff, 0xff]);
    key("i32_val", &[0xd2, 0x80, 0x00, 0x00, 0x00]);
    key("u64_val", &[0xcf, 0xff, 0xff, 0xff, 0xff, 0xff, 0xff, 0xff, 0xff]);
    key("i64_val", &[0xd3, 0x80, 0x00, 0x00, 0x00, 0x00, 0x00, 0x00, 0x00]);
    key("f32_val", &[0xca, 0x40, 0x49, 0x0f, 0xdb]);
    key("f64_val", &[0xcb, 0x40, 0x09, 0x21, 0xfb, 0x54, 0x44, 0x2d, 0x18]);
    let v = from_slice_value(&schema, &data).unwrap();
    let fields = match v {
        Value::Struct(fields) => fields,
        other => panic!("not a struct: {:?}", other),
    };
    assert_eq!(fields[0], given(Value::U8(255)));
    assert_eq!(fields[1], given(Value::U16(65535)));
    assert_eq!(fields[2], given(Value::I8(-128)));
    assert_eq!(fields[3], given(Value::I16(-32768)));
    assert_eq!(fields[4], given(Value::U32(4294967295)));
    assert_eq!(fields[5], given(Value::I32(-2147483648)));
    assert_eq!(fields[6], given(Value::U64(18446744073709551615)));
    assert_eq!(fields[7], given(Value::I64(-9223372036854775808)));
    match &fields[8] {
        FieldValue::Given(Value::F32Bits(bits)) => {
            assert!((f32::from_bits(*bits) - std::f32::consts::PI).abs() < f32::EPSILON)
        }
        other => panic!("not an f32: {:?}", other),
    }
    match &fields[9] {
        FieldValue::Given(Value::F64Bits(bits)) => {
            assert!((f64::from_bits(*bits) - std::f64::consts::PI).abs() < f64::EPSILON)
        }
        other => panic!("not an f64: {:?}", other),
    }
}

#[test]
fn test_from_msgpack_with_option() {
    let inner = Schema::Struct(vec![field("foo", scalar(ScalarKind::I32))]);
    let schema = Schema::Struct(vec![
        field("name", Schema::Optional(Box::new(scalar(ScalarKind::String)))),
        field("age", Schema::Optional(Box::new(scalar(ScalarKind::U32)))),
        field("inner", Schema::Optional(Box::new(inner))),
    ]);
    let data = [
        0x83, 0xa4, 0x6e, 0x61, 0x6d, 0x65, 0xa5, 0x41, 0x6c, 0x69, 0x63, 0x65, 0xa3, 0x61, 0x67,
        0x65, 0xc0, 0xa5, 0x69, 0x6e, 0x6e, 0x65, 0x72, 0x81, 0xa3, 0x66, 0x6f, 0x6f, 0x2a,
    ];
    let v = from_slice_value(&schema, &data).unwrap();
    assert_eq!(
        v,
        Value::Struct(vec![
            given(Value::Present(Box::new(text("Alice")))),
            given(Value::Absent),
            given(Value::Present(Box::new(Value::Struct(vec![given(Value::I32(42))])))),
        ])
    );
}

#[test]
fn msgpack_deserialize_empty_object_for_struct() {
    let schema = Schema::Struct(vec![]);
    let v = from_slice_value(&schema, &[0x80]).unwrap();
    assert_eq!(v, Value::Struct(vec![]));
}

#[test]
fn msgpack_deserialize_empty_object_for_hashmap() {
    let schema = Schema::MapOf(Box::new(scalar(ScalarKind::String)), Box::new(scalar(ScalarKind::String)));
    let v = from_slice_value(&schema, &[0x80]).unwrap();
    assert_eq!(v, Value::MapOf(vec![]));
}

#[test]
fn test_str_escaped() {
    let schema = Schema::Struct(vec![field("foo", scalar(ScalarKind::String))]);
    let data = [0x81, 0xa3, 0x66, 0x6f, 0x6f, 0xa5, 0x22, 0x5c, 0x61, 0x62, 0x63];
    let v = from_slice_value(&schema, &data).unwrap();
    assert_eq!(v, Value::Struct(vec![given(text("\"\\abc"))]));
}

#[test]
fn test_read_tuple_string() {
    let one = Schema::Tuple(vec![scalar(ScalarKind::String)]);
    let v = from_slice_value(&one, &[0x91, 0xa0]).unwrap();
    assert_eq!(v, Value::Tuple(vec![text("")]));

    let three = Schema::Tuple(vec![
        scalar(ScalarKind::String),
        scalar(ScalarKind::String),
        scalar(ScalarKind::String),
    ]);
    let data = [
        0x93, 0xa2, 0x75, 0x6e, 0xa4, 0x64, 0x65, 0x75, 0x78, 0xa5, 0x74, 0x72, 0x6f, 0x69, 0x73,
    ];
    let v = from_slice_value(&three, &data).unwrap();
    assert_eq!(v, Value::Tuple(vec![text("un"), text("deux"), text("trois")]));
}

#[test]
fn test_read_tuple_i32() {
    let one = Schema::Tuple(vec![scalar(ScalarKind::I32)]);
    let v = from_slice_value(&one, &[0x91, 0x0a]).unwrap();
    assert_eq!(v, Value::Tuple(vec![Value::I32(10)]));

    let two = Schema::Tuple(vec![scalar(ScalarKind::I32), scalar(ScalarKind::I32)]);
    let v = from_slice_value(&two, &[0x92, 0x0a, 0x14]).unwrap();
    assert_eq!(v, Value::Tuple(vec![Value::I32(10), Value::I32(20)]));
}

#[test]
fn test_read_tuple_mixed() {
    let schema = Schema::Tuple(vec![scalar(ScalarKind::String), scalar(ScalarKind::I32)]);
    let data = [0x92, 0xa3, 0x61, 0x61, 0x61, 0x64];
    let v = from_slice_value(&schema, &data).unwrap();
    assert_eq!(v, Value::Tuple(vec![text("aaa"), Value::I32(100)]));
}

#[test]
fn msgpack_deserialize_empty_vec() {
    let schema = Schema::List(Box::new(scalar(ScalarKind::I32)));
    let v = from_slice_value(&schema, &[0x90]).unwrap();
    assert_eq!(v, Value::List(vec![]));
}

#[test]
fn msgpack_deserialize_vec() {
    let schema = Schema::List(Box::new(scalar(ScalarKind::U64)));
    let v = from_slice_value(&schema, &[0x95, 0x01, 0x02, 0x03, 0x04, 0x05]).unwrap();
    assert_eq!(
        v,
        Value::List(vec![Value::U64(1), Value::U64(2), Value::U64(3), Value::U64(4), Value::U64(5)])
    );
}

#[test]
fn test_nested_arrays() {
    let schema = Schema::Struct(vec![field(
        "matrix",
        Schema::List(Box::new(Schema::List(Box::new(scalar(ScalarKind::U64))))),
    )]);
    let data = [
        0x81, 0xa6, 0x6d, 0x61, 0x74, 0x72, 0x69, 0x78, 0x93, 0x93, 0x01, 0x02, 0x03, 0x90, 0x92,
        0x04, 0x05,
    ];
    let v = from_slice_value(&schema, &data).unwrap();
    let matrix = match v {
        Value::Struct(mut fields) => match fields.remove(0) {
            FieldValue::Given(Value::List(rows)) => rows,
            other => panic!("not a list: {:?}", other),
        },
        other => panic!("not a struct: {:?}", other),
    };
    let u = |ns: &[u64]| Value::List(ns.iter().map(|n| Value::U64(*n)).collect());
    assert_eq!(matrix.len(), 3);
    assert_eq!(matrix[0], u(&[1, 2, 3]));
    assert_eq!(matrix[1], u(&[]));
    assert_eq!(matrix[2], u(&[4, 5]));
}

#[test]
fn msgpack_deserialize_unit_enum_variant() {
    let schema = Schema::Enum(vec![
        variant("Italic", VariantKind::Unit, vec![]),
        variant("Oblique", VariantKind::Unit, vec![]),
    ]);
    let italic = [0xa6, 0x49, 0x74, 0x61, 0x6c, 0x69, 0x63];
    let oblique = [0xa7, 0x4f, 0x62, 0x6c, 0x69, 0x71, 0x75, 0x65];
    assert_eq!(from_slice_value(&schema, &italic).unwrap(), Value::Variant(0, vec![]));
    assert_eq!(from_slice_value(&schema, &oblique).unwrap(), Value::Variant(1, vec![]));
}

#[test]
fn msgpack_deserialize_tuple_variant() {
    let schema = Schema::Enum(vec![
        variant("X", VariantKind::Tuple, vec![field("0", scalar(ScalarKind::U64))]),
        variant(
            "Y",
            VariantKind::Tuple,
            vec![field("0", scalar(ScalarKind::String)), field("1", scalar(ScalarKind::Bool))],
        ),
    ]);
    let data_x = [0x81, 0xa1, 0x58, 0x7b];
    let data_y = [0x81, 0xa1, 0x59, 0x92, 0xa5, 0x68, 0x65, 0x6c, 0x6c, 0x6f, 0xc3];
    assert_eq!(
        from_slice_value(&schema, &data_x).unwrap(),
        Value::Variant(0, vec![Some(Value::U64(123))])
    );
    assert_eq!(
        from_slice_value(&schema, &data_y).unwrap(),
        Value::Variant(1, vec![Some(text("hello")), Some(Value::Bool(true))])
    );
}

#[test]
fn msgpack_deserialize_struct_variant() {
    let schema = Schema::Enum(vec![
        variant("Thing", VariantKind::Unit, vec![]),
        variant(
            "Well",
            VariantKind::Struct,
            vec![
                field("made", scalar(ScalarKind::String)),
                field("i", scalar(ScalarKind::Bool)),
                field("guess", scalar(ScalarKind::I32)),
            ],
        ),
        variant("Other", VariantKind::Tuple, vec![field("0", scalar(ScalarKind::I32))]),
    ]);
    let data = [
        0x81, 0xa4, 0x57, 0x65, 0x6c, 0x6c, 0x83, 0xa4, 0x6d, 0x61, 0x64, 0x65, 0xaa, 0x69, 0x6e,
        0x20, 0x67, 0x65, 0x72, 0x6d, 0x61, 0x6e, 0x79, 0xa1, 0x69, 0xc2, 0xa5, 0x67, 0x75, 0x65,
        0x73, 0x73, 0x03,
    ];
    assert_eq!(
        from_slice_value(&schema, &data).unwrap(),
        Value::Variant(1, vec![Some(text("in germany")), Some(Value::Bool(false)), Some(Value::I32(3))])
    );
}

#[test]
fn msgpack_deserialize_field_level_default_no_function() {
    let schema = Schema::Struct(vec![
        field("foo", scalar(ScalarKind::I32)),
        defaulted("bar", scalar(ScalarKind::String)),
    ]);
    let data = [0x81, 0xa3, 0x66, 0x6f, 0x6f, 0xcd, 0x03, 0x15];
    let s = from_slice_value(&schema, &data).unwrap();
    // `bar` is missing, so it takes its default (the empty string).
    assert_eq!(s, Value::Struct(vec![given(Value::I32(789)), FieldValue::Default]));
}

#[test]
fn msgpack_deserialize_field_level_default_function() {
    let schema = Schema::Struct(vec![
        defaulted("foo", scalar(ScalarKind::I32)),
        field("bar", scalar(ScalarKind::String)),
    ]);
    let data = [0x81, 0xa3, 0x62, 0x61, 0x72, 0xa5, 0x68, 0x65, 0x6c, 0x6c, 0x6f];
    let s = from_slice_value(&schema, &data).unwrap();
    // `foo` is missing, so it takes its default (what its default function gives).
    assert_eq!(s, Value::Struct(vec![FieldValue::Default, given(text("hello"))]));
}

#[test]
fn key_header_longer_than_its_key_is_invalid() {
    // "u8_val": 255, then "u16_val" under a header of 8 bytes, which takes
    // the next marker into the key and is no longer UTF-8.
    let schema = Schema::Struct(vec![
        field("u8_val", scalar(ScalarKind::U8)),
        field("u16_val", scalar(ScalarKind::U16)),
    ]);
    let data = [
        0x82, 0xa6, 0x75, 0x38, 0x5f, 0x76, 0x61, 0x6c, 0xcc, 0xff, 0xa8, 0x75, 0x31, 0x36, 0x5f,
        0x76, 0x61, 0x6c, 0xcd, 0xff, 0xff,
    ];
    assert_eq!(from_slice_value(&schema, &data), Err(Error::InvalidData));
}
