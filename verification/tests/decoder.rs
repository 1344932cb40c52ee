use facet_formats::decode::Decoder;
use facet_formats::deserialize::from_slice_value;
use facet_formats::encode::{
    write_array_len, write_bin, write_bool, write_f32_bits, write_f64_bits, write_i16, write_i32,
    write_i64, write_i8, write_map_len, write_nil, write_str, write_u16, write_u32, write_u64,
    write_u8,
};
use facet_formats::errors::Error;
use facet_formats::schema::{FieldSchema, ScalarKind, Schema, Value, VariantKind, VariantSchema};

#[test]
fn decodes_each_integer_width() {
    let data = [0xcc, 0xff, 0xcd, 0x12, 0x34, 0xce, 0xde, 0xad, 0xbe, 0xef, 0x07];
    let mut d = Decoder::new(&data);
    assert_eq!(d.decode_u64(), Ok(255));
    assert_eq!(d.decode_u64(), Ok(0x1234));
    assert_eq!(d.decode_u64(), Ok(0xdeadbeef));
    assert_eq!(d.decode_u64(), Ok(7));
    assert_eq!(d.offset(), data.len());
    assert_eq!(d.decode_u64(), Err(Error::InsufficientData));
}

#[test]
fn raw_reads_are_big_endian() {
    let data = [0xab, 0x01, 0x02, 0x03, 0x04, 0x05];
    let mut d = Decoder::new(&data);
    assert_eq!(d.decode_u8(), Ok(0xab));
    assert_eq!(d.decode_u16(), Ok(0x0102));
    assert_eq!(d.decode_u32(), Err(Error::InsufficientData));
    assert_eq!(d.decode_u16(), Ok(0x0304));
    assert_eq!(d.decode_u8(), Ok(0x05));
}

#[test]
fn signed_integers_and_their_limits() {
    let mut buf = Vec::new();
    write_i64(&mut buf, -1);
    write_i64(&mut buf, -33);
    write_i64(&mut buf, i64::MIN);
    write_u64(&mut buf, u64::MAX);
    let mut d = Decoder::new(&buf);
    assert_eq!(d.decode_i64(), Ok(-1));
    assert_eq!(d.decode_i64(), Ok(-33));
    assert_eq!(d.decode_i64(), Ok(i64::MIN));
    assert_eq!(d.decode_i64(), Err(Error::IntegerOverflow));
}

#[test]
fn wrong_marker_is_an_unexpected_type() {
    let mut d = Decoder::new(&[0xc3]);
    assert_eq!(d.decode_string(), Err(Error::UnexpectedType));
    let mut d = Decoder::new(&[0xa1, 0x61]);
    assert_eq!(d.decode_bool(), Err(Error::UnexpectedType));
    assert_eq!(d.decode_nil(), Err(Error::UnexpectedType));
}

#[test]
fn strings_must_be_utf8_and_complete() {
    let mut d = Decoder::new(&[0xa2, 0xc3, 0x28]);
    assert_eq!(d.decode_string(), Err(Error::InvalidData));
    let mut d = Decoder::new(&[0xa3, 0x61]);
    assert_eq!(d.decode_string(), Err(Error::InsufficientData));
    let mut d = Decoder::new(&[0xd9, 0x02, 0x68, 0x69]);
    assert_eq!(d.decode_string(), Ok("hi".to_string()));
}

#[test]
fn peeking_does_not_consume() {
    let data = [0xc0, 0xa1, 0x7a];
    let mut d = Decoder::new(&data);
    assert_eq!(d.peek_nil(), Ok(true));
    assert_eq!(d.peek_string(), Ok(false));
    assert_eq!(d.decode_nil(), Ok(()));
    assert_eq!(d.peek_string(), Ok(true));
    assert_eq!(d.decode_string(), Ok("z".to_string()));
    assert_eq!(d.peek_nil(), Err(Error::InsufficientData));
}

#[test]
fn skip_value_passes_over_any_value() {
    // {"a": [1, "b", nil], "c": bin[2], -1: 1.5f32} then 0x2a
    let mut buf = Vec::new();
    write_map_len(&mut buf, 3);
    write_str(&mut buf, "a");
    write_array_len(&mut buf, 3);
    write_u8(&mut buf, 1);
    write_str(&mut buf, "b");
    write_nil(&mut buf);
    write_str(&mut buf, "c");
    write_bin(&mut buf, &[9, 9]);
    write_i8(&mut buf, -1);
    write_f32_bits(&mut buf, 1.5f32.to_bits());
    let end = buf.len();
    write_u8(&mut buf, 42);
    let mut d = Decoder::new(&buf);
    assert_eq!(d.skip_value(), Ok(()));
    assert_eq!(d.offset(), end);
    assert_eq!(d.decode_u64(), Ok(42));
}

#[test]
fn skip_value_passes_over_extensions() {
    // fixext 1, ext 8 of 2 bytes, then true
    let data = [0xd4, 0x01, 0xaa, 0xc7, 0x02, 0x05, 0xbb, 0xcc, 0xc3];
    let mut d = Decoder::new(&data);
    assert_eq!(d.skip_value(), Ok(()));
    assert_eq!(d.skip_value(), Ok(()));
    assert_eq!(d.decode_bool(), Ok(true));
}

#[test]
fn skip_value_needs_the_whole_value() {
    let mut d = Decoder::new(&[0x92, 0x01]);
    assert_eq!(d.skip_value(), Err(Error::InsufficientData));
    let mut d = Decoder::new(&[0xc1]);
    assert_eq!(d.skip_value(), Err(Error::UnexpectedType));
    // a uint16 with one byte missing
    let mut d = Decoder::new(&[0xcd, 0x01]);
    assert_eq!(d.skip_value(), Err(Error::InsufficientData));
    assert!(d.offset() <= 2);
    // every fixed-size format cut short
    for data in [
        &[0xcc][..],
        &[0xd1, 0x00][..],
        &[0xca, 0, 0, 0][..],
        &[0xcb, 0, 0, 0, 0, 0, 0, 0][..],
        &[0xd4, 0x01][..],
        &[0xd8, 0x01, 0, 0, 0, 0, 0, 0, 0, 0, 0, 0, 0, 0, 0, 0][..],
    ] {
        let mut d = Decoder::new(data);
        assert_eq!(d.skip_value(), Err(Error::InsufficientData));
        assert!(d.offset() <= data.len());
    }
    let mut d = Decoder::new(&[0xcd, 0x01, 0x02]);
    assert_eq!(d.skip_value(), Ok(()));
    assert_eq!(d.offset(), 3);
}

#[test]
fn a_struct_whose_unknown_entry_is_cut_short_is_refused() {
    let u8_field = Schema::Struct(vec![named("n", Schema::Scalar(ScalarKind::U8))]);
    // {"n": 3, "x": <uint32 with two bytes missing>}
    assert_eq!(
        from_slice_value(&u8_field, &[0x82, 0xa1, 0x6e, 0x03, 0xa1, 0x78, 0xce, 0x00, 0x01]),
        Err(Error::InsufficientData)
    );
}

#[test]
fn what_is_written_reads_back() {
    let mut buf = Vec::new();
    write_u16(&mut buf, 300);
    write_u32(&mut buf, 70000);
    write_i16(&mut buf, -200);
    write_i32(&mut buf, -70000);
    write_bool(&mut buf, false);
    write_f64_bits(&mut buf, 2.5f64.to_bits());
    write_str(&mut buf, &"é".repeat(20));
    let mut d = Decoder::new(&buf);
    assert_eq!(d.decode_u64(), Ok(300));
    assert_eq!(d.decode_u64(), Ok(70000));
    assert_eq!(d.decode_i64(), Ok(-200));
    assert_eq!(d.decode_i64(), Ok(-70000));
    assert_eq!(d.decode_bool(), Ok(false));
    assert_eq!(d.decode_f64_bits(), Ok(2.5f64.to_bits()));
    assert_eq!(d.decode_string(), Ok("é".repeat(20)));
    assert_eq!(d.offset(), buf.len());
}

#[test]
fn map_and_array_headers_read_back() {
    let mut buf = Vec::new();
    write_map_len(&mut buf, 5);
    write_map_len(&mut buf, 300);
    write_array_len(&mut buf, 15);
    write_array_len(&mut buf, 70000);
    let mut d = Decoder::new(&buf);
    assert_eq!(d.decode_map_len(), Ok(5));
    assert_eq!(d.decode_map_len(), Ok(300));
    assert_eq!(d.decode_array_len(), Ok(15));
    assert_eq!(d.decode_array_len(), Ok(70000));
    let mut d = Decoder::new(&[0x90]);
    assert_eq!(d.decode_map_len(), Err(Error::UnexpectedType));
}

fn named(name: &str, schema: Schema) -> FieldSchema {
    FieldSchema { name: name.to_string(), has_default: false, schema }
}

#[test]
fn each_deserialization_error() {
    let u8_field = Schema::Struct(vec![named("n", Schema::Scalar(ScalarKind::U8))]);
    // {"n": 256}
    assert_eq!(
        from_slice_value(&u8_field, &[0x81, 0xa1, 0x6e, 0xcd, 0x01, 0x00]),
        Err(Error::IntegerOverflow)
    );
    // {}
    assert_eq!(from_slice_value(&u8_field, &[0x80]), Err(Error::MissingField("n".to_string())));
    assert_eq!(
        Error::MissingField("n".to_string()).message(),
        "Missing required field: n"
    );
    // {"other": [1, 2], "n": 3}: unknown keys are skipped with their values
    assert_eq!(
        from_slice_value(&u8_field, &[0x82, 0xa5, 0x6f, 0x74, 0x68, 0x65, 0x72, 0x92, 0x01, 0x02, 0xa1, 0x6e, 0x03]),
        Ok(Value::Struct(vec![facet_formats::schema::FieldValue::Given(Value::U8(3))]))
    );
    let pair = Schema::Tuple(vec![Schema::Scalar(ScalarKind::U8), Schema::Scalar(ScalarKind::U8)]);
    assert_eq!(from_slice_value(&pair, &[0x91, 0x01]), Err(Error::InvalidData));
    let unsupported = Schema::Unsupported("a union".to_string());
    assert_eq!(
        from_slice_value(&unsupported, &[0xc0]),
        Err(Error::UnsupportedShape("a union".to_string()))
    );
    let other = Schema::Scalar(ScalarKind::Other("u128".to_string()));
    assert_eq!(from_slice_value(&other, &[0x01]), Err(Error::UnsupportedType("u128".to_string())));
    let colors = Schema::Enum(vec![VariantSchema {
        name: "Red".to_string(),
        kind: VariantKind::Unit,
        fields: vec![],
    }]);
    // "Blue"
    assert_eq!(
        from_slice_value(&colors, &[0xa4, 0x42, 0x6c, 0x75, 0x65]),
        Err(Error::InvalidEnum("Unknown variant: Blue".to_string()))
    );
    assert_eq!(from_slice_value(&colors, &[]), Err(Error::InsufficientData));
}

#[test]
fn negative_values_fit_signed_targets_only() {
    let small = Schema::Scalar(ScalarKind::I8);
    assert_eq!(from_slice_value(&small, &[0xd1, 0xff, 0x80]), Ok(Value::I8(-128)));
    assert_eq!(from_slice_value(&small, &[0xd1, 0xff, 0x7f]), Err(Error::IntegerOverflow));
    let unsigned = Schema::Scalar(ScalarKind::U32);
    assert_eq!(from_slice_value(&unsigned, &[0xff]), Err(Error::UnexpectedType));
}

#[test]
fn options_lists_and_maps() {
    let opt = Schema::Optional(Box::new(Schema::Scalar(ScalarKind::Bool)));
    assert_eq!(from_slice_value(&opt, &[0xc0]), Ok(Value::Absent));
    assert_eq!(from_slice_value(&opt, &[0xc2]), Ok(Value::Present(Box::new(Value::Bool(false)))));
    let map = Schema::MapOf(Box::new(Schema::Scalar(ScalarKind::U16)), Box::new(Schema::Scalar(ScalarKind::I16)));
    assert_eq!(
        from_slice_value(&map, &[0x82, 0x01, 0xff, 0x02, 0xd0, 0x9c]),
        Ok(Value::MapOf(vec![(Value::U16(1), Value::I16(-1)), (Value::U16(2), Value::I16(-100))]))
    );
    let floats = Schema::List(Box::new(Schema::Scalar(ScalarKind::F32)));
    let mut buf = Vec::new();
    write_array_len(&mut buf, 1);
    write_f32_bits(&mut buf, 0.5f32.to_bits());
    assert_eq!(from_slice_value(&floats, &buf), Ok(Value::List(vec![Value::F32Bits(0.5f32.to_bits())])));
}

#[test]
fn an_unknown_entry_changes_nothing() {
    let two = Schema::Struct(vec![
        named("a", Schema::Scalar(ScalarKind::U8)),
        named("b", Schema::Scalar(ScalarKind::U8)),
    ]);
    // {"a": 1, "b": 2}
    let without = [0x82, 0xa1, 0x61, 0x01, 0xa1, 0x62, 0x02];
    // {"a": 1, "zz": {"q": [1, 2]}, "b": 2}
    let with = [
        0x83, 0xa1, 0x61, 0x01, 0xa2, 0x7a, 0x7a, 0x81, 0xa1, 0x71, 0x92, 0x01, 0x02, 0xa1, 0x62, 0x02,
    ];
    let expected = || {
        Value::Struct(vec![
            facet_formats::schema::FieldValue::Given(Value::U8(1)),
            facet_formats::schema::FieldValue::Given(Value::U8(2)),
        ])
    };
    assert_eq!(from_slice_value(&two, &without), Ok(expected()));
    assert_eq!(from_slice_value(&two, &with), Ok(expected()));
}
