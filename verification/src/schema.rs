//! What the deserializer needs to know of a target type (its schema), and
//! the values that it produces.
use vstd::prelude::*;

verus! {

/// The scalar types that MessagePack values are read into.
pub enum ScalarKind {
    String,
    U64,
    U32,
    U16,
    U8,
    I64,
    I32,
    I16,
    I8,
    F64,
    F32,
    Bool,
    /// Any other scalar, by its type name
    Other(String),
}

/// How the fields of an enum variant are laid out.
#[derive(PartialEq, Eq, Structural)]
pub enum VariantKind {
    /// No fields
    Unit,
    /// Unnamed fields
    Tuple,
    /// Named fields
    Struct,
    /// Unnamed fields declared with struct syntax
    TupleStruct,
}

/// A named field.
pub struct FieldSchema {
    /// The field's name
    pub name: String,
    /// Whether the field takes its default value when it is missing
    pub has_default: bool,
    /// The field's type
    pub schema: Schema,
}

/// An enum variant.
pub struct VariantSchema {
    /// The variant's name
    pub name: String,
    /// How its fields are laid out
    pub kind: VariantKind,
    /// Its fields, in declaration order
    pub fields: Vec<FieldSchema>,
}

/// The shape of a type, as far as deserialization reads it.
pub enum Schema {
    /// A struct with named fields
    Struct(Vec<FieldSchema>),
    /// A tuple
    Tuple(Vec<Schema>),
    /// An enum
    Enum(Vec<VariantSchema>),
    /// A scalar
    Scalar(ScalarKind),
    /// A map from keys to values
    MapOf(Box<Schema>, Box<Schema>),
    /// A list of items
    List(Box<Schema>),
    /// An optional value
    Optional(Box<Schema>),
    /// A shape that deserialization does not support, by its description
    Unsupported(String),
}

/// A deserialized value.
#[derive(Debug, PartialEq)]
pub enum Value {
    Str(String),
    U64(u64),
    U32(u32),
    U16(u16),
    U8(u8),
    I64(i64),
    I32(i32),
    I16(i16),
    I8(i8),
    /// A 64-bit float, as its bits
    F64Bits(u64),
    /// A 32-bit float, as its bits
    F32Bits(u32),
    Bool(bool),
    /// A struct's fields, in declaration order
    Struct(Vec<FieldValue>),
    /// A tuple's items
    Tuple(Vec<Value>),
    /// The index of the selected variant, and those of its fields that were set
    Variant(usize, Vec<Option<Value>>),
    /// A map's entries, in input order
    MapOf(Vec<(Value, Value)>),
    /// A list's items
    List(Vec<Value>),
    /// An option without a value
    Absent,
    /// An option with a value
    Present(Box<Value>),
}

/// A struct field after deserialization.
#[derive(Debug, PartialEq)]
pub enum FieldValue {
    /// Read from the input
    Given(Value),
    /// Missing from the input, so it takes its default
    Default,
}

/// A `Value` with its strings as character sequences.
pub enum ValueView {
    Str(Seq<char>),
    U64(u64),
    U32(u32),
    U16(u16),
    U8(u8),
    I64(i64),
    I32(i32),
    I16(i16),
    I8(i8),
    F64Bits(u64),
    F32Bits(u32),
    Bool(bool),
    Struct(Seq<FieldValueView>),
    Tuple(Seq<ValueView>),
    Variant(int, Seq<Option<ValueView>>),
    MapOf(Seq<(ValueView, ValueView)>),
    List(Seq<ValueView>),
    Absent,
    Present(Box<ValueView>),
}

/// A `FieldValue` by its view.
pub enum FieldValueView {
    Given(ValueView),
    Default,
}

impl Value {
    /// The view of a value.
    pub open spec fn vview(self) -> ValueView
        decreases self,
    {
        match self {
            Value::Str(s) => ValueView::Str(s@),
            Value::U64(n) => ValueView::U64(n),
            Value::U32(n) => ValueView::U32(n),
            Value::U16(n) => ValueView::U16(n),
            Value::U8(n) => ValueView::U8(n),
            Value::I64(n) => ValueView::I64(n),
            Value::I32(n) => ValueView::I32(n),
            Value::I16(n) => ValueView::I16(n),
            Value::I8(n) => ValueView::I8(n),
            Value::F64Bits(n) => ValueView::F64Bits(n),
            Value::F32Bits(n) => ValueView::F32Bits(n),
            Value::Bool(b) => ValueView::Bool(b),
            Value::Struct(fields) => ValueView::Struct(
                Seq::new(
                    fields@.len(),
                    |i: int|
                        if 0 <= i < fields@.len() {
                            match fields@[i] {
                                FieldValue::Given(v) => FieldValueView::Given(v.vview()),
                                FieldValue::Default => FieldValueView::Default,
                            }
                        } else {
                            FieldValueView::Default
                        },
                ),
            ),
            Value::Tuple(items) => ValueView::Tuple(
                Seq::new(
                    items@.len(),
                    |i: int|
                        if 0 <= i < items@.len() {
                            items@[i].vview()
                        } else {
                            ValueView::Absent
                        },
                ),
            ),
            Value::Variant(idx, fields) => ValueView::Variant(
                idx as int,
                Seq::new(
                    fields@.len(),
                    |i: int|
                        if 0 <= i < fields@.len() {
                            match fields@[i] {
                                Some(v) => Some(v.vview()),
                                None => None,
                            }
                        } else {
                            None
                        },
                ),
            ),
            Value::MapOf(entries) => ValueView::MapOf(
                Seq::new(
                    entries@.len(),
                    |i: int|
                        if 0 <= i < entries@.len() {
                            (entries@[i].0.vview(), entries@[i].1.vview())
                        } else {
                            (ValueView::Absent, ValueView::Absent)
                        },
                ),
            ),
            Value::List(items) => ValueView::List(
                Seq::new(
                    items@.len(),
                    |i: int|
                        if 0 <= i < items@.len() {
                            items@[i].vview()
                        } else {
                            ValueView::Absent
                        },
                ),
            ),
            Value::Absent => ValueView::Absent,
            Value::Present(v) => ValueView::Present(Box::new((*v).vview())),
        }
    }
}

impl View for Value {
    type V = ValueView;

    open spec fn view(&self) -> ValueView {
        self.vview()
    }
}

} // verus!
