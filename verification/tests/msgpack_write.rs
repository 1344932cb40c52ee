use facet_formats::encode::MessagePackSerializer;
use facet_formats::deserialize::from_slice_value;
use facet_formats::errors::EncodeError;
use facet_formats::schema::{FieldSchema, FieldValue, ScalarKind, Schema, Value, VariantKind, VariantSchema};

fn fixstr(s: &str) -> Vec<u8> {
    let mut v = vec![0xa0 | s.len() as u8];
    v.extend_from_slice(s.as_bytes());
    v
}

fn cat(parts: &[&[u8]]) -> Vec<u8> {
    parts.iter().flat_map(|p| p.iter().copied()).collect()
}

/// The calls that serialize `SimpleStruct { a, b, c }`.
fn simple_struct(ser: &mut MessagePackSerializer, a: u32, b: &str, c: bool) {
    ser.start_object(Some(3)).unwrap();
    ser.serialize_field_name("a").unwrap();
    ser.serialize_u32(a).unwrap();
    ser.serialize_field_name("b").unwrap();
    ser.serialize_str(b).unwrap();
    ser.serialize_field_name("c").unwrap();
    ser.serialize_bool(c).unwrap();
    ser.end_object().unwrap();
}

/// The calls that serialize `NestedStruct { inner, d, e }`.
fn nested_struct(ser: &mut MessagePackSerializer, a: u32, b: &str, c: bool, d: Option<i8>, e: &[u8]) {
    ser.start_object(Some(3)).unwrap();
    ser.serialize_field_name("inner").unwrap();
    simple_struct(ser, a, b, c);
    ser.serialize_field_name("d").unwrap();
    match d {
        Some(n) => ser.serialize_i8(n).unwrap(),
        None => ser.serialize_none().unwrap(),
    }
    ser.serialize_field_name("e").unwrap();
    ser.start_array(Some(e.len())).unwrap();
    for b in e {
        ser.serialize_u8(*b).unwrap();
    }
    ser.end_array().unwrap();
    ser.end_object().unwrap();
}

#[test]
fn test_simple_struct() {
    let mut ser = MessagePackSerializer::new();
    simple_struct(&mut ser, 123, "hello", true);
    let expected = cat(&[&[0x83], &fixstr("a"), &[0x7b], &fixstr("b"), &fixstr("hello"), &fixstr("c"), &[0xc3]]);
    assert_eq!(ser.take_bytes(), expected);
}

#[test]
fn test_nested_struct() {
    let mut ser = MessagePackSerializer::new();
    nested_struct(&mut ser, 456, "world", false, Some(-5), &[1, 2, 3, 4, 5]);
    let expected = cat(&[
        &[0x83],
        &fixstr("inner"),
        &[0x83],
        &fixstr("a"),
        &[0xcd, 0x01, 0xc8],
        &fixstr("b"),
        &fixstr("world"),
        &fixstr("c"),
        &[0xc2],
        &fixstr("d"),
        &[0xfb],
        &fixstr("e"),
        &[0x95, 1, 2, 3, 4, 5],
    ]);
    assert_eq!(ser.take_bytes(), expected);
}

#[test]
fn test_nested_struct_none() {
    let mut ser = MessagePackSerializer::new();
    nested_struct(&mut ser, 789, "another", true, None, &[]);
    let expected = cat(&[
        &[0x83],
        &fixstr("inner"),
        &[0x83],
        &fixstr("a"),
        &[0xcd, 0x03, 0x15],
        &fixstr("b"),
        &fixstr("another"),
        &fixstr("c"),
        &[0xc3],
        &fixstr("d"),
        &[0xc0],
        &fixstr("e"),
        &[0x90],
    ]);
    assert_eq!(ser.take_bytes(), expected);
}

#[test]
fn test_enum_unit() {
    let mut ser = MessagePackSerializer::new();
    ser.serialize_unit_variant(0, "Unit").unwrap();
    assert_eq!(ser.take_bytes(), fixstr("Unit"));
}

#[test]
fn test_various_types() {
    let mut ser = MessagePackSerializer::new();
    ser.start_object(Some(16)).unwrap();
    ser.serialize_field_name("f1").unwrap();
    ser.serialize_f32_bits(1.23f32.to_bits()).unwrap();
    ser.serialize_field_name("f2").unwrap();
    ser.serialize_f64_bits((-4.56e7f64).to_bits()).unwrap();
    ser.serialize_field_name("i1").unwrap();
    ser.serialize_i8(-10).unwrap();
    ser.serialize_field_name("i2").unwrap();
    ser.serialize_i16(-1000).unwrap();
    ser.serialize_field_name("i3").unwrap();
    ser.serialize_i32(-100000).unwrap();
    ser.serialize_field_name("i4").unwrap();
    ser.serialize_i64(-10000000000).unwrap();
    ser.serialize_field_name("u1").unwrap();
    ser.serialize_u8(10).unwrap();
    ser.serialize_field_name("u2").unwrap();
    ser.serialize_u16(1000).unwrap();
    ser.serialize_field_name("u3").unwrap();
    ser.serialize_u32(100000).unwrap();
    ser.serialize_field_name("u4").unwrap();
    ser.serialize_u64(10000000000).unwrap();
    ser.serialize_field_name("b").unwrap();
    let bin = b"binary data";
    ser.start_array(Some(bin.len())).unwrap();
    for b in bin {
        ser.serialize_u8(*b).unwrap();
    }
    ser.end_array().unwrap();
    ser.serialize_field_name("s").unwrap();
    ser.serialize_str("string data").unwrap();
    ser.serialize_field_name("c").unwrap();
    ser.serialize_char('✅').unwrap();
    ser.serialize_field_name("opt_some").unwrap();
    ser.serialize_i32(99).unwrap();
    ser.serialize_field_name("opt_none").unwrap();
    ser.serialize_none().unwrap();
    ser.serialize_field_name("unit").unwrap();
    ser.serialize_unit().unwrap();
    ser.end_object().unwrap();

    let mut expected = vec![0xde, 0x00, 0x10];
    expected.extend(fixstr("f1"));
    expected.push(0xca);
    expected.extend(1.23f32.to_bits().to_be_bytes());
    expected.extend(fixstr("f2"));
    expected.push(0xcb);
    expected.extend((-4.56e7f64).to_bits().to_be_bytes());
    expected.extend(fixstr("i1"));
    expected.push(0xf6);
    expected.extend(fixstr("i2"));
    expected.push(0xd1);
    expected.extend((-1000i16).to_be_bytes());
    expected.extend(fixstr("i3"));
    expected.push(0xd2);
    expected.extend((-100000i32).to_be_bytes());
    expected.extend(fixstr("i4"));
    expected.push(0xd3);
    expected.extend((-10000000000i64).to_be_bytes());
    expected.extend(fixstr("u1"));
    expected.push(0x0a);
    expected.extend(fixstr("u2"));
    expected.extend([0xcd, 0x03, 0xe8]);
    expected.extend(fixstr("u3"));
    expected.push(0xce);
    expected.extend(100000u32.to_be_bytes());
    expected.extend(fixstr("u4"));
    expected.push(0xcf);
    expected.extend(10000000000u64.to_be_bytes());
    expected.extend(fixstr("b"));
    expected.push(0x9b);
    expected.extend_from_slice(bin);
    expected.extend(fixstr("s"));
    expected.extend(fixstr("string data"));
    expected.extend(fixstr("c"));
    expected.extend(fixstr("✅"));
    expected.extend(fixstr("opt_some"));
    expected.push(0x63);
    expected.extend(fixstr("opt_none"));
    expected.push(0xc0);
    expected.extend(fixstr("unit"));
    expected.push(0xc0);
    assert_eq!(ser.take_bytes(), expected);
}

#[test]
fn serializer_refuses_what_msgpack_cannot_hold() {
    let mut ser = MessagePackSerializer::new();
    assert_eq!(ser.serialize_u128(1), Err(EncodeError::U128NotSupported));
    assert_eq!(ser.serialize_i128(-1), Err(EncodeError::I128NotSupported));
    assert_eq!(ser.start_object(None), Err(EncodeError::MapLengthRequired));
    assert_eq!(ser.start_map(None), Err(EncodeError::MapLengthRequired));
    assert_eq!(ser.start_array(None), Err(EncodeError::ArrayLengthRequired));
    assert_eq!(EncodeError::U128NotSupported.message(), "u128 is not directly supported by MessagePack");
    assert!(ser.take_bytes().is_empty());
}

#[test]
fn serializer_bytes_and_long_headers() {
    let mut ser = MessagePackSerializer::new();
    ser.serialize_bytes(&[1, 2, 3]).unwrap();
    ser.start_array(Some(16)).unwrap();
    ser.start_map(Some(70000)).unwrap();
    let long = "x".repeat(40);
    ser.serialize_str(&long).unwrap();
    let mut expected = vec![0xc4, 0x03, 1, 2, 3, 0xdc, 0x00, 0x10, 0xdf, 0x00, 0x01, 0x11, 0x70, 0xd9, 40];
    expected.extend(long.as_bytes());
    assert_eq!(ser.take_bytes(), expected);
}

#[test]
fn what_the_serializer_writes_reads_back() {
    // struct { name: String, tags: Vec<u8>, shape: enum { Dot, Circle(i16), Rect { w: u32 } }, maybe: Option<bool> }
    let shape = Schema::Enum(vec![
        VariantSchema { name: "Dot".to_string(), kind: VariantKind::Unit, fields: vec![] },
        VariantSchema {
            name: "Circle".to_string(),
            kind: VariantKind::Tuple,
            fields: vec![FieldSchema { name: "0".to_string(), has_default: false, schema: Schema::Scalar(ScalarKind::I16) }],
        },
        VariantSchema {
            name: "Rect".to_string(),
            kind: VariantKind::Struct,
            fields: vec![FieldSchema { name: "w".to_string(), has_default: false, schema: Schema::Scalar(ScalarKind::U32) }],
        },
    ]);
    let field = |name: &str, schema: Schema| FieldSchema { name: name.to_string(), has_default: false, schema };
    let schema = Schema::Struct(vec![
        field("name", Schema::Scalar(ScalarKind::String)),
        field("tags", Schema::List(Box::new(Schema::Scalar(ScalarKind::U8)))),
        field("shape", shape),
        field("maybe", Schema::Optional(Box::new(Schema::Scalar(ScalarKind::Bool)))),
    ]);

    let mut ser = MessagePackSerializer::new();
    ser.start_object(Some(4)).unwrap();
    ser.serialize_field_name("name").unwrap();
    ser.serialize_str("héllo").unwrap();
    ser.serialize_field_name("tags").unwrap();
    ser.start_array(Some(2)).unwrap();
    ser.serialize_u8(200).unwrap();
    ser.serialize_u8(7).unwrap();
    ser.end_array().unwrap();
    ser.serialize_field_name("shape").unwrap();
    ser.start_object(Some(1)).unwrap();
    ser.serialize_field_name("Rect").unwrap();
    ser.start_object(Some(1)).unwrap();
    ser.serialize_field_name("w").unwrap();
    ser.serialize_u32(70000).unwrap();
    ser.end_object().unwrap();
    ser.end_object().unwrap();
    ser.serialize_field_name("maybe").unwrap();
    ser.serialize_bool(true).unwrap();
    ser.end_object().unwrap();
    let bytes = ser.take_bytes();

    let value = from_slice_value(&schema, &bytes).unwrap();
    assert_eq!(
        value,
        Value::Struct(vec![
            FieldValue::Given(Value::Str("héllo".to_string())),
            FieldValue::Given(Value::List(vec![Value::U8(200), Value::U8(7)])),
            FieldValue::Given(Value::Variant(2, vec![Some(Value::U32(70000))])),
            FieldValue::Given(Value::Present(Box::new(Value::Bool(true)))),
        ])
    );
}
