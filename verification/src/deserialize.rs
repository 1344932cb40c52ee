//! Deserialization of MessagePack into a value of a given schema: the
//! spec of what is read for each shape, and the decoder that reads it.
use vstd::prelude::*;
use crate::errors::{Error, ErrorView};
use crate::schema::{
    FieldSchema, FieldValue, FieldValueView, Schema, ScalarKind, Value, ValueView, VariantKind,
    VariantSchema,
};
use crate::decode::{
    Decoder, Step, dec_str, dec_uint, dec_int, dec_bool, dec_nil, dec_f32_bits, dec_f64_bits,
    dec_map_len, dec_array_len, peek_is_nil, peek_is_str, skip_value, res_view, str_res_view,
};

verus! {

/// The index of the first field at or after `i` named `key`.
pub open spec fn find_field(fields: Seq<FieldSchema>, key: Seq<char>, i: int) -> Option<int>
    decreases fields.len() - i,
{
    if i < 0 || i >= fields.len() {
        None
    } else if fields[i].name@ == key {
        Some(i)
    } else {
        find_field(fields, key, i + 1)
    }
}

/// The index of the first variant at or after `i` named `name`.
pub open spec fn find_variant(variants: Seq<VariantSchema>, name: Seq<char>, i: int) -> Option<int>
    decreases variants.len() - i,
{
    if i < 0 || i >= variants.len() {
        None
    } else if variants[i].name@ == name {
        Some(i)
    } else {
        find_variant(variants, name, i + 1)
    }
}

/// The index of the first field at or after `i` that was not read and has
/// no default.
pub open spec fn first_missing(fields: Seq<FieldSchema>, seen: Seq<Option<ValueView>>, i: int) -> Option<int>
    decreases fields.len() - i,
{
    if i < 0 || i >= fields.len() {
        None
    } else if seen[i] is None && !fields[i].has_default {
        Some(i)
    } else {
        first_missing(fields, seen, i + 1)
    }
}

/// The fields of a struct once the input is read: the first field that was
/// neither read nor has a default is missing; every other unread field
/// takes its default.
pub open spec fn complete_fields(fields: Seq<FieldSchema>, seen: Seq<Option<ValueView>>) -> Result<Seq<FieldValueView>, ErrorView> {
    match first_missing(fields, seen, 0) {
        Some(j) => Err(ErrorView::MissingField(fields[j].name@)),
        None => Ok(Seq::new(
            seen.len(),
            |j: int|
                match seen[j] {
                    Some(v) => FieldValueView::Given(v),
                    None => FieldValueView::Default,
                },
        )),
    }
}

/// Nothing set yet for `n` fields.
pub open spec fn none_set(n: int) -> Seq<Option<ValueView>> {
    Seq::new(n as nat, |j: int| None)
}

/// The message for a variant name that the enum does not have.
pub open spec fn unknown_variant(name: Seq<char>) -> ErrorView {
    ErrorView::InvalidEnum("Unknown variant: "@ + name)
}

/// A value of the given schema, read at `off`.
pub open spec fn de(schema: Schema, s: Seq<u8>, off: int) -> Step<ValueView>
    decreases schema, 3nat, 0nat,
{
    match schema {
        Schema::Struct(_) => de_struct(schema, s, off),
        Schema::Tuple(_) => de_tuple(schema, s, off),
        Schema::Enum(_) => de_enum(schema, s, off),
        Schema::Scalar(k) => de_scalar(k, s, off),
        Schema::MapOf(_, _) => de_map(schema, s, off),
        Schema::List(_) => de_list(schema, s, off),
        Schema::Optional(_) => de_option(schema, s, off),
        Schema::Unsupported(d) => (Err(ErrorView::UnsupportedShape(d@)), off),
    }
}

/// A scalar: strings, integers (which must fit the target type), floats
/// (as their bits) and booleans.
pub open spec fn de_scalar(k: ScalarKind, s: Seq<u8>, off: int) -> Step<ValueView> {
    match k {
        ScalarKind::String => {
            let (r, o) = dec_str(s, off);
            (match r { Ok(x) => Ok(ValueView::Str(x)), Err(e) => Err(e) }, o)
        },
        ScalarKind::U64 => {
            let (r, o) = dec_uint(s, off);
            (match r { Ok(n) => Ok(ValueView::U64(n)), Err(e) => Err(e) }, o)
        },
        ScalarKind::U32 => {
            let (r, o) = dec_uint(s, off);
            (match r {
                Ok(n) => if n > u32::MAX { Err(ErrorView::IntegerOverflow) } else { Ok(ValueView::U32(n as u32)) },
                Err(e) => Err(e),
            }, o)
        },
        ScalarKind::U16 => {
            let (r, o) = dec_uint(s, off);
            (match r {
                Ok(n) => if n > u16::MAX { Err(ErrorView::IntegerOverflow) } else { Ok(ValueView::U16(n as u16)) },
                Err(e) => Err(e),
            }, o)
        },
        ScalarKind::U8 => {
            let (r, o) = dec_uint(s, off);
            (match r {
                Ok(n) => if n > u8::MAX { Err(ErrorView::IntegerOverflow) } else { Ok(ValueView::U8(n as u8)) },
                Err(e) => Err(e),
            }, o)
        },
        ScalarKind::I64 => {
            let (r, o) = dec_int(s, off);
            (match r { Ok(n) => Ok(ValueView::I64(n)), Err(e) => Err(e) }, o)
        },
        ScalarKind::I32 => {
            let (r, o) = dec_int(s, off);
            (match r {
                Ok(n) => if n < i32::MIN || n > i32::MAX { Err(ErrorView::IntegerOverflow) } else { Ok(ValueView::I32(n as i32)) },
                Err(e) => Err(e),
            }, o)
        },
        ScalarKind::I16 => {
            let (r, o) = dec_int(s, off);
            (match r {
                Ok(n) => if n < i16::MIN || n > i16::MAX { Err(ErrorView::IntegerOverflow) } else { Ok(ValueView::I16(n as i16)) },
                Err(e) => Err(e),
            }, o)
        },
        ScalarKind::I8 => {
            let (r, o) = dec_int(s, off);
            (match r {
                Ok(n) => if n < i8::MIN || n > i8::MAX { Err(ErrorView::IntegerOverflow) } else { Ok(ValueView::I8(n as i8)) },
                Err(e) => Err(e),
            }, o)
        },
        ScalarKind::F64 => {
            let (r, o) = dec_f64_bits(s, off);
            (match r { Ok(n) => Ok(ValueView::F64Bits(n)), Err(e) => Err(e) }, o)
        },
        ScalarKind::F32 => {
            let (r, o) = dec_f32_bits(s, off);
            (match r { Ok(n) => Ok(ValueView::F32Bits(n)), Err(e) => Err(e) }, o)
        },
        ScalarKind::Bool => {
            let (r, o) = dec_bool(s, off);
            (match r { Ok(b) => Ok(ValueView::Bool(b)), Err(e) => Err(e) }, o)
        },
        ScalarKind::Other(name) => (Err(ErrorView::UnsupportedType(name@)), off),
    }
}

/// A struct: a map whose keys name fields. Unknown keys are skipped with
/// their values; a field given twice keeps its last value.
pub open spec fn de_struct(schema: Schema, s: Seq<u8>, off: int) -> Step<ValueView>
    decreases schema, 2nat, 0nat,
{
    match schema {
        Schema::Struct(fields) => {
            let (r, o) = dec_map_len(s, off);
            match r {
                Err(e) => (Err(e), o),
                Ok(n) => {
                    let (r2, o2) = struct_entries(schema, s, o, n as int, none_set(fields@.len() as int));
                    match r2 {
                        Err(e) => (Err(e), o2),
                        Ok(seen) => match complete_fields(fields@, seen) {
                            Ok(fv) => (Ok(ValueView::Struct(fv)), o2),
                            Err(e) => (Err(e), o2),
                        },
                    }
                },
            }
        },
        _ => (Err(ErrorView::InvalidData), off),
    }
}

/// The remaining `n` entries of a struct's map.
pub open spec fn struct_entries(schema: Schema, s: Seq<u8>, off: int, n: int, seen: Seq<Option<ValueView>>) -> Step<Seq<Option<ValueView>>>
    decreases schema, 0nat, if n > 0 { n as nat } else { 0 },
{
    if n <= 0 {
        (Ok(seen), off)
    } else {
        match schema {
            Schema::Struct(fields) => {
                let (r, o) = dec_str(s, off);
                match r {
                    Err(e) => (Err(e), o),
                    Ok(key) => match find_field(fields@, key, 0) {
                        Some(i) => if 0 <= i < fields@.len() {
                            let (rv, o2) = de(fields@[i].schema, s, o);
                            match rv {
                                Err(e) => (Err(e), o2),
                                Ok(v) => struct_entries(schema, s, o2, n - 1, seen.update(i, Some(v))),
                            }
                        } else {
                            (Err(ErrorView::InvalidData), o)
                        },
                        None => {
                            let (rs, o2) = skip_value(s, o);
                            match rs {
                                Err(e) => (Err(e), o2),
                                Ok(_) => struct_entries(schema, s, o2, n - 1, seen),
                            }
                        },
                    },
                }
            },
            _ => (Err(ErrorView::InvalidData), off),
        }
    }
}

/// A tuple: an array with exactly as many items as the tuple has.
pub open spec fn de_tuple(schema: Schema, s: Seq<u8>, off: int) -> Step<ValueView>
    decreases schema, 2nat, 0nat,
{
    match schema {
        Schema::Tuple(elems) => {
            let (r, o) = dec_array_len(s, off);
            match r {
                Err(e) => (Err(e), o),
                Ok(n) => if n != elems@.len() {
                    (Err(ErrorView::InvalidData), o)
                } else {
                    let (r2, o2) = tuple_items(schema, s, o, 0, seq![]);
                    (match r2 { Ok(items) => Ok(ValueView::Tuple(items)), Err(e) => Err(e) }, o2)
                },
            }
        },
        _ => (Err(ErrorView::InvalidData), off),
    }
}

/// The tuple items from index `i` on.
pub open spec fn tuple_items(schema: Schema, s: Seq<u8>, off: int, i: int, acc: Seq<ValueView>) -> Step<Seq<ValueView>>
    decreases schema, 0nat, match schema { Schema::Tuple(elems) => if i < elems@.len() { (elems@.len() - i) as nat } else { 0 }, _ => 0 },
{
    match schema {
        Schema::Tuple(elems) => if i < 0 || i >= elems@.len() {
            (Ok(acc), off)
        } else {
            let (r, o) = de(elems@[i], s, off);
            match r {
                Err(e) => (Err(e), o),
                Ok(v) => tuple_items(schema, s, o, i + 1, acc.push(v)),
            }
        },
        _ => (Err(ErrorView::InvalidData), off),
    }
}

/// An enum: a unit variant as its name alone, or a map with one entry from
/// the variant's name to its content.
pub open spec fn de_enum(schema: Schema, s: Seq<u8>, off: int) -> Step<ValueView>
    decreases schema, 2nat, 0nat,
{
    match schema {
        Schema::Enum(variants) => {
            let (p, o) = peek_is_str(s, off);
            match p {
                Err(e) => (Err(e), o),
                Ok(true) => {
                    let (r, o1) = dec_str(s, o);
                    match r {
                        Err(e) => (Err(e), o1),
                        Ok(name) => match find_variant(variants@, name, 0) {
                            Some(idx) => if 0 <= idx < variants@.len() {
                                (Ok(ValueView::Variant(idx, none_set(variants@[idx].fields@.len() as int))), o1)
                            } else {
                                (Err(ErrorView::InvalidData), o1)
                            },
                            None => (Err(unknown_variant(name)), o1),
                        },
                    }
                },
                Ok(false) => {
                    let (r, o1) = dec_map_len(s, o);
                    match r {
                        Err(e) => (Err(e), o1),
                        Ok(n) => if n != 1 {
                            (Err(ErrorView::InvalidData), o1)
                        } else {
                            let (r2, o2) = dec_str(s, o1);
                            match r2 {
                                Err(e) => (Err(e), o2),
                                Ok(name) => match find_variant(variants@, name, 0) {
                                    Some(idx) => de_variant_body(schema, idx, s, o2),
                                    None => (Err(unknown_variant(name)), o2),
                                },
                            }
                        },
                    }
                },
            }
        },
        _ => (Err(ErrorView::InvalidData), off),
    }
}

/// The content of the variant at `idx`: nothing (any value there is
/// skipped) for a unit variant; the value itself for a tuple variant of one
/// field, an array of its fields for a longer one; a map of named fields for
/// a struct variant.
pub open spec fn de_variant_body(schema: Schema, idx: int, s: Seq<u8>, off: int) -> Step<ValueView>
    decreases schema, 1nat, 0nat,
{
    match schema {
        Schema::Enum(variants) => if 0 <= idx < variants@.len() {
            let fields = variants@[idx].fields;
            match variants@[idx].kind {
                VariantKind::Unit => {
                    let (r, o) = skip_value(s, off);
                    (match r { Ok(_) => Ok(ValueView::Variant(idx, none_set(fields@.len() as int))), Err(e) => Err(e) }, o)
                },
                VariantKind::Tuple => if fields@.len() == 1 {
                    let (r, o) = de(fields@[0].schema, s, off);
                    (match r { Ok(v) => Ok(ValueView::Variant(idx, seq![Some(v)])), Err(e) => Err(e) }, o)
                } else {
                    let (r, o) = dec_array_len(s, off);
                    match r {
                        Err(e) => (Err(e), o),
                        Ok(n) => if n != fields@.len() {
                            (Err(ErrorView::InvalidData), o)
                        } else {
                            let (r2, o2) = variant_items(schema, idx, s, o, 0, seq![]);
                            (match r2 { Ok(items) => Ok(ValueView::Variant(idx, items)), Err(e) => Err(e) }, o2)
                        },
                    }
                },
                VariantKind::Struct => {
                    let (r, o) = dec_map_len(s, off);
                    match r {
                        Err(e) => (Err(e), o),
                        Ok(n) => {
                            let (r2, o2) = variant_entries(schema, idx, s, o, n as int, none_set(fields@.len() as int));
                            (match r2 { Ok(seen) => Ok(ValueView::Variant(idx, seen)), Err(e) => Err(e) }, o2)
                        },
                    }
                },
                VariantKind::TupleStruct => (
                    Err(ErrorView::UnsupportedType("Unsupported enum variant kind: TupleStruct"@)),
                    off,
                ),
            }
        } else {
            (Err(ErrorView::InvalidData), off)
        },
        _ => (Err(ErrorView::InvalidData), off),
    }
}

/// The fields of a tuple variant from index `i` on.
pub open spec fn variant_items(schema: Schema, idx: int, s: Seq<u8>, off: int, i: int, acc: Seq<Option<ValueView>>) -> Step<Seq<Option<ValueView>>>
    decreases schema, 0nat, match schema { Schema::Enum(variants) => if 0 <= idx < variants@.len() && i < variants@[idx].fields@.len() { (variants@[idx].fields@.len() - i) as nat } else { 0 }, _ => 0 },
{
    match schema {
        Schema::Enum(variants) => if 0 <= idx < variants@.len() && 0 <= i < variants@[idx].fields@.len() {
            let (r, o) = de(variants@[idx].fields@[i].schema, s, off);
            match r {
                Err(e) => (Err(e), o),
                Ok(v) => variant_items(schema, idx, s, o, i + 1, acc.push(Some(v))),
            }
        } else {
            (Ok(acc), off)
        },
        _ => (Err(ErrorView::InvalidData), off),
    }
}

/// The remaining `n` entries of a struct variant's map.
pub open spec fn variant_entries(schema: Schema, idx: int, s: Seq<u8>, off: int, n: int, seen: Seq<Option<ValueView>>) -> Step<Seq<Option<ValueView>>>
    decreases schema, 0nat, if n > 0 { n as nat } else { 0 },
{
    if n <= 0 {
        (Ok(seen), off)
    } else {
        match schema {
            Schema::Enum(variants) => if 0 <= idx < variants@.len() {
                let fields = variants@[idx].fields;
                let (r, o) = dec_str(s, off);
                match r {
                    Err(e) => (Err(e), o),
                    Ok(key) => match find_field(fields@, key, 0) {
                        Some(i) => if 0 <= i < fields@.len() {
                            let (rv, o2) = de(fields@[i].schema, s, o);
                            match rv {
                                Err(e) => (Err(e), o2),
                                Ok(v) => variant_entries(schema, idx, s, o2, n - 1, seen.update(i, Some(v))),
                            }
                        } else {
                            (Err(ErrorView::InvalidData), o)
                        },
                        None => {
                            let (rs, o2) = skip_value(s, o);
                            match rs {
                                Err(e) => (Err(e), o2),
                                Ok(_) => variant_entries(schema, idx, s, o2, n - 1, seen),
                            }
                        },
                    },
                }
            } else {
                (Err(ErrorView::InvalidData), off)
            },
            _ => (Err(ErrorView::InvalidData), off),
        }
    }
}

/// A map: its entries, each a key then a value.
pub open spec fn de_map(schema: Schema, s: Seq<u8>, off: int) -> Step<ValueView>
    decreases schema, 2nat, 0nat,
{
    match schema {
        Schema::MapOf(_, _) => {
            let (r, o) = dec_map_len(s, off);
            match r {
                Err(e) => (Err(e), o),
                Ok(n) => {
                    let (r2, o2) = map_entries(schema, s, o, n as int, seq![]);
                    (match r2 { Ok(es) => Ok(ValueView::MapOf(es)), Err(e) => Err(e) }, o2)
                },
            }
        },
        _ => (Err(ErrorView::InvalidData), off),
    }
}

/// The remaining `n` entries of a map.
pub open spec fn map_entries(schema: Schema, s: Seq<u8>, off: int, n: int, acc: Seq<(ValueView, ValueView)>) -> Step<Seq<(ValueView, ValueView)>>
    decreases schema, 0nat, if n > 0 { n as nat } else { 0 },
{
    if n <= 0 {
        (Ok(acc), off)
    } else {
        match schema {
            Schema::MapOf(k, v) => {
                let (rk, o) = de(*k, s, off);
                match rk {
                    Err(e) => (Err(e), o),
                    Ok(key) => {
                        let (rv, o2) = de(*v, s, o);
                        match rv {
                            Err(e) => (Err(e), o2),
                            Ok(val) => map_entries(schema, s, o2, n - 1, acc.push((key, val))),
                        }
                    },
                }
            },
            _ => (Err(ErrorView::InvalidData), off),
        }
    }
}

/// A list: an array of items.
pub open spec fn de_list(schema: Schema, s: Seq<u8>, off: int) -> Step<ValueView>
    decreases schema, 2nat, 0nat,
{
    match schema {
        Schema::List(_) => {
            let (r, o) = dec_array_len(s, off);
            match r {
                Err(e) => (Err(e), o),
                Ok(n) => {
                    let (r2, o2) = list_items(schema, s, o, n as int, seq![]);
                    (match r2 { Ok(items) => Ok(ValueView::List(items)), Err(e) => Err(e) }, o2)
                },
            }
        },
        _ => (Err(ErrorView::InvalidData), off),
    }
}

/// The remaining `n` items of a list.
pub open spec fn list_items(schema: Schema, s: Seq<u8>, off: int, n: int, acc: Seq<ValueView>) -> Step<Seq<ValueView>>
    decreases schema, 0nat, if n > 0 { n as nat } else { 0 },
{
    if n <= 0 {
        (Ok(acc), off)
    } else {
        match schema {
            Schema::List(e) => {
                let (r, o) = de(*e, s, off);
                match r {
                    Err(err) => (Err(err), o),
                    Ok(v) => list_items(schema, s, o, n - 1, acc.push(v)),
                }
            },
            _ => (Err(ErrorView::InvalidData), off),
        }
    }
}

/// An option: nil for none, otherwise the value.
pub open spec fn de_option(schema: Schema, s: Seq<u8>, off: int) -> Step<ValueView>
    decreases schema, 2nat, 0nat,
{
    match schema {
        Schema::Optional(inner) => {
            let (p, o) = peek_is_nil(s, off);
            match p {
                Err(e) => (Err(e), o),
                Ok(true) => {
                    let (r, o2) = dec_nil(s, o);
                    (match r { Ok(_) => Ok(ValueView::Absent), Err(e) => Err(e) }, o2)
                },
                Ok(false) => {
                    let (r, o2) = de(*inner, s, o);
                    (match r { Ok(v) => Ok(ValueView::Present(Box::new(v))), Err(e) => Err(e) }, o2)
                },
            }
        },
        _ => (Err(ErrorView::InvalidData), off),
    }
}

} // verus!

verus! {

/// Views of a sequence of values.
pub open spec fn views(s: Seq<Value>) -> Seq<ValueView> {
    Seq::new(s.len(), |i: int| if 0 <= i < s.len() { s[i].vview() } else { ValueView::Absent })
}

/// Views of a sequence of optional values.
pub open spec fn opt_views(s: Seq<Option<Value>>) -> Seq<Option<ValueView>> {
    Seq::new(
        s.len(),
        |i: int|
            if 0 <= i < s.len() {
                match s[i] {
                    Some(v) => Some(v.vview()),
                    None => None,
                }
            } else {
                None
            },
    )
}

/// Views of a sequence of key-value pairs.
pub open spec fn pair_views(s: Seq<(Value, Value)>) -> Seq<(ValueView, ValueView)> {
    Seq::new(
        s.len(),
        |i: int|
            if 0 <= i < s.len() {
                (s[i].0.vview(), s[i].1.vview())
            } else {
                (ValueView::Absent, ValueView::Absent)
            },
    )
}

/// The result of a deserialization, taken by its view.
pub open spec fn value_res_view(r: Result<Value, Error>) -> Result<ValueView, ErrorView> {
    match r {
        Ok(v) => Ok(v@),
        Err(e) => Err(e@),
    }
}

fn find_field_index(fields: &Vec<FieldSchema>, key: &String) -> (r: Option<usize>)
    ensures
        r matches Some(i) ==> find_field(fields@, key@, 0) == Some(i as int) && i < fields@.len(),
        r is None ==> find_field(fields@, key@, 0) is None,
{
    let mut i: usize = 0;
    while i < fields.len()
        invariant
            i <= fields@.len(),
            find_field(fields@, key@, 0) == find_field(fields@, key@, i as int),
        decreases fields@.len() - i,
    {
        if fields[i].name == *key {
            return Some(i);
        }
        i += 1;
    }
    None
}

fn find_variant_index(variants: &Vec<VariantSchema>, name: &String) -> (r: Option<usize>)
    ensures
        r matches Some(i) ==> find_variant(variants@, name@, 0) == Some(i as int) && i < variants@.len(),
        r is None ==> find_variant(variants@, name@, 0) is None,
{
    let mut i: usize = 0;
    while i < variants.len()
        invariant
            i <= variants@.len(),
            find_variant(variants@, name@, 0) == find_variant(variants@, name@, i as int),
        decreases variants@.len() - i,
    {
        if variants[i].name == *name {
            return Some(i);
        }
        i += 1;
    }
    None
}

fn nones(n: usize) -> (r: Vec<Option<Value>>)
    ensures
        r@.len() == n,
        opt_views(r@) == none_set(n as int),
{
    let mut r: Vec<Option<Value>> = Vec::new();
    let mut j: usize = 0;
    while j < n
        invariant
            j <= n,
            r@.len() == j,
            forall|k: int| 0 <= k < j ==> r@[k] is None,
        decreases n - j,
    {
        r.push(None);
        j += 1;
    }
    assert(opt_views(r@) =~= none_set(n as int));
    r
}

fn complete_struct(fields: &Vec<FieldSchema>, seen: Vec<Option<Value>>) -> (r: Result<Vec<FieldValue>, Error>)
    requires
        seen@.len() == fields@.len(),
    ensures
        match complete_fields(fields@, opt_views(seen@)) {
            Ok(fv) => r matches Ok(out) && Value::Struct(out)@ == ValueView::Struct(fv),
            Err(e) => r matches Err(err) && err@ == e,
        },
{
    let ghost sv = opt_views(seen@);
    let mut i: usize = 0;
    while i < fields.len()
        invariant
            i <= fields@.len(),
            seen@.len() == fields@.len(),
            sv == opt_views(seen@),
            first_missing(fields@, sv, 0) == first_missing(fields@, sv, i as int),
        decreases fields@.len() - i,
    {
        if seen[i].is_none() && !fields[i].has_default {
            return Err(Error::MissingField(fields[i].name.clone()));
        }
        i += 1;
    }
    let mut seen = seen;
    let mut out: Vec<FieldValue> = Vec::new();
    let mut j: usize = 0;
    while j < fields.len()
        invariant
            j <= fields@.len(),
            seen@.len() == fields@.len(),
            out@.len() == j,
            forall|k: int| j <= k < seen@.len() ==> opt_views(seen@)[k] == sv[k],
            forall|k: int| 0 <= k < j ==> match #[trigger] out@[k] {
                FieldValue::Given(v) => sv[k] == Some(v@),
                FieldValue::Default => sv[k] is None,
            },
        decreases fields@.len() - j,
    {
        let mut slot: Option<Value> = None;
        seen.set_and_swap(j, &mut slot);
        match slot {
            Some(v) => out.push(FieldValue::Given(v)),
            None => out.push(FieldValue::Default),
        }
        j += 1;
    }
    proof {
        let fv = complete_fields(fields@, sv)->Ok_0;
        assert(Value::Struct(out)@ == ValueView::Struct(fv)) by {
            let lhs = Value::Struct(out)@;
            assert(lhs->Struct_0 =~= fv);
        }
    }
    Ok(out)
}

fn unknown_variant_message(name: &String) -> (r: String)
    ensures
        ErrorView::InvalidEnum(r@) == unknown_variant(name@),
{
    let mut r = String::from_str("Unknown variant: ");
    r.append(name.as_str());
    r
}

impl<'input> Decoder<'input> {
    /// Deserializes a value of the given schema.
    pub fn deserialize_value(&mut self, schema: &Schema) -> (r: Result<Value, Error>)
        requires
            old(self).wf(),
        ensures
            final(self).wf(),
            final(self).bytes() == old(self).bytes(),
            (value_res_view(r), final(self).pos()) == de(*schema, old(self).bytes(), old(self).pos()),
        decreases *schema, 3nat, 0nat,
    {
        match schema {
            Schema::Struct(_) => self.deserialize_struct(schema),
            Schema::Tuple(_) => self.deserialize_tuple(schema),
            Schema::Enum(_) => self.deserialize_enum(schema),
            Schema::Scalar(k) => self.deserialize_scalar(k),
            Schema::MapOf(_, _) => self.deserialize_map(schema),
            Schema::List(_) => self.deserialize_list(schema),
            Schema::Optional(_) => self.deserialize_option(schema),
            Schema::Unsupported(d) => Err(Error::UnsupportedShape(d.clone())),
        }
    }

    fn deserialize_scalar(&mut self, k: &ScalarKind) -> (r: Result<Value, Error>)
        requires
            old(self).wf(),
        ensures
            final(self).wf(),
            final(self).bytes() == old(self).bytes(),
            (value_res_view(r), final(self).pos()) == de_scalar(*k, old(self).bytes(), old(self).pos()),
    {
        match k {
            ScalarKind::String => Ok(Value::Str(self.decode_string()?)),
            ScalarKind::U64 => Ok(Value::U64(self.decode_u64()?)),
            ScalarKind::U32 => {
                let n = self.decode_u64()?;
                if n > u32::MAX as u64 {
                    return Err(Error::IntegerOverflow);
                }
                Ok(Value::U32(n as u32))
            },
            ScalarKind::U16 => {
                let n = self.decode_u64()?;
                if n > u16::MAX as u64 {
                    return Err(Error::IntegerOverflow);
                }
                Ok(Value::U16(n as u16))
            },
            ScalarKind::U8 => {
                let n = self.decode_u64()?;
                if n > u8::MAX as u64 {
                    return Err(Error::IntegerOverflow);
                }
                Ok(Value::U8(n as u8))
            },
            ScalarKind::I64 => Ok(Value::I64(self.decode_i64()?)),
            ScalarKind::I32 => {
                let n = self.decode_i64()?;
                if n < i32::MIN as i64 || n > i32::MAX as i64 {
                    return Err(Error::IntegerOverflow);
                }
                Ok(Value::I32(n as i32))
            },
            ScalarKind::I16 => {
                let n = self.decode_i64()?;
                if n < i16::MIN as i64 || n > i16::MAX as i64 {
                    return Err(Error::IntegerOverflow);
                }
                Ok(Value::I16(n as i16))
            },
            ScalarKind::I8 => {
                let n = self.decode_i64()?;
                if n < i8::MIN as i64 || n > i8::MAX as i64 {
                    return Err(Error::IntegerOverflow);
                }
                Ok(Value::I8(n as i8))
            },
            ScalarKind::F64 => Ok(Value::F64Bits(self.decode_f64_bits()?)),
            ScalarKind::F32 => Ok(Value::F32Bits(self.decode_f32_bits()?)),
            ScalarKind::Bool => Ok(Value::Bool(self.decode_bool()?)),
            ScalarKind::Other(name) => Err(Error::UnsupportedType(name.clone())),
        }
    }

    #[verifier::loop_isolation(false)]
    fn deserialize_struct(&mut self, schema: &Schema) -> (r: Result<Value, Error>)
        requires
            old(self).wf(),
        ensures
            final(self).wf(),
            final(self).bytes() == old(self).bytes(),
            (value_res_view(r), final(self).pos()) == de_struct(*schema, old(self).bytes(), old(self).pos()),
        decreases *schema, 2nat, 0nat,
    {
        let fields = match schema {
            Schema::Struct(fields) => fields,
            _ => { return Err(Error::InvalidData); },
        };
        let n = self.decode_map_len()?;
        let mut seen = nones(fields.len());
        let ghost s = self.bytes();
        let ghost o = self.pos();
        let mut i: u64 = 0;
        while i < n
            invariant
                self.wf(),
                self.bytes() == s,
                s == old(self).bytes(),
                *schema == Schema::Struct(*fields),
                seen@.len() == fields@.len(),
                i <= n,
                struct_entries(*schema, s, o, n as int, none_set(fields@.len() as int))
                    == struct_entries(*schema, s, self.pos(), n - i, opt_views(seen@)),
            decreases n - i,
        {
            let key = self.decode_string()?;
            match find_field_index(fields, &key) {
                Some(idx) => {
                    let v = self.deserialize_value(&fields[idx].schema)?;
                    let ghost before = opt_views(seen@);
                    seen.set(idx, Some(v));
                    assert(opt_views(seen@) =~= before.update(idx as int, Some(v@)));
                },
                None => {
                    self.skip_value()?;
                },
            }
            i += 1;
        }
        let out = complete_struct(fields, seen)?;
        Ok(Value::Struct(out))
    }

    #[verifier::loop_isolation(false)]
    fn deserialize_tuple(&mut self, schema: &Schema) -> (r: Result<Value, Error>)
        requires
            old(self).wf(),
        ensures
            final(self).wf(),
            final(self).bytes() == old(self).bytes(),
            (value_res_view(r), final(self).pos()) == de_tuple(*schema, old(self).bytes(), old(self).pos()),
        decreases *schema, 2nat, 0nat,
    {
        let elems = match schema {
            Schema::Tuple(elems) => elems,
            _ => { return Err(Error::InvalidData); },
        };
        let n = self.decode_array_len()?;
        if n != elems.len() as u64 {
            return Err(Error::InvalidData);
        }
        let ghost s = self.bytes();
        let ghost o = self.pos();
        let mut items: Vec<Value> = Vec::new();
        assert(views(items@) =~= seq![]);
        let mut i: usize = 0;
        while i < elems.len()
            invariant
                self.wf(),
                self.bytes() == s,
                s == old(self).bytes(),
                *schema == Schema::Tuple(*elems),
                items@.len() == i,
                i <= elems@.len(),
                tuple_items(*schema, s, o, 0, seq![]) == tuple_items(*schema, s, self.pos(), i as int, views(items@)),
            decreases elems@.len() - i,
        {
            let v = self.deserialize_value(&elems[i])?;
            let ghost before = views(items@);
            items.push(v);
            assert(views(items@) =~= before.push(v@));
            i += 1;
        }
        assert(Value::Tuple(items)@->Tuple_0 =~= views(items@));
        Ok(Value::Tuple(items))
    }

    #[verifier::loop_isolation(false)]
    fn deserialize_map(&mut self, schema: &Schema) -> (r: Result<Value, Error>)
        requires
            old(self).wf(),
        ensures
            final(self).wf(),
            final(self).bytes() == old(self).bytes(),
            (value_res_view(r), final(self).pos()) == de_map(*schema, old(self).bytes(), old(self).pos()),
        decreases *schema, 2nat, 0nat,
    {
        let (ks, vs) = match schema {
            Schema::MapOf(k, v) => (k, v),
            _ => { return Err(Error::InvalidData); },
        };
        let n = self.decode_map_len()?;
        let ghost s = self.bytes();
        let ghost o = self.pos();
        let mut entries: Vec<(Value, Value)> = Vec::new();
        assert(pair_views(entries@) =~= seq![]);
        let mut i: u64 = 0;
        while i < n
            invariant
                self.wf(),
                self.bytes() == s,
                s == old(self).bytes(),
                *schema == Schema::MapOf(*ks, *vs),
                i <= n,
                map_entries(*schema, s, o, n as int, seq![])
                    == map_entries(*schema, s, self.pos(), n - i, pair_views(entries@)),
            decreases n - i,
        {
            let key = self.deserialize_value(ks)?;
            let val = self.deserialize_value(vs)?;
            let ghost before = pair_views(entries@);
            entries.push((key, val));
            assert(pair_views(entries@) =~= before.push((key@, val@)));
            i += 1;
        }
        assert(Value::MapOf(entries)@->MapOf_0 =~= pair_views(entries@));
        Ok(Value::MapOf(entries))
    }

    #[verifier::loop_isolation(false)]
    fn deserialize_list(&mut self, schema: &Schema) -> (r: Result<Value, Error>)
        requires
            old(self).wf(),
        ensures
            final(self).wf(),
            final(self).bytes() == old(self).bytes(),
            (value_res_view(r), final(self).pos()) == de_list(*schema, old(self).bytes(), old(self).pos()),
        decreases *schema, 2nat, 0nat,
    {
        let elem = match schema {
            Schema::List(e) => e,
            _ => { return Err(Error::InvalidData); },
        };
        let n = self.decode_array_len()?;
        let ghost s = self.bytes();
        let ghost o = self.pos();
        let mut items: Vec<Value> = Vec::new();
        assert(views(items@) =~= seq![]);
        let mut i: u64 = 0;
        while i < n
            invariant
                self.wf(),
                self.bytes() == s,
                s == old(self).bytes(),
                *schema == Schema::List(*elem),
                i <= n,
                list_items(*schema, s, o, n as int, seq![])
                    == list_items(*schema, s, self.pos(), n - i, views(items@)),
            decreases n - i,
        {
            let v = self.deserialize_value(elem)?;
            let ghost before = views(items@);
            items.push(v);
            assert(views(items@) =~= before.push(v@));
            i += 1;
        }
        assert(Value::List(items)@->List_0 =~= views(items@));
        Ok(Value::List(items))
    }

    fn deserialize_option(&mut self, schema: &Schema) -> (r: Result<Value, Error>)
        requires
            old(self).wf(),
        ensures
            final(self).wf(),
            final(self).bytes() == old(self).bytes(),
            (value_res_view(r), final(self).pos()) == de_option(*schema, old(self).bytes(), old(self).pos()),
        decreases *schema, 2nat, 0nat,
    {
        let inner = match schema {
            Schema::Optional(inner) => inner,
            _ => { return Err(Error::InvalidData); },
        };
        if self.peek_nil()? {
            self.decode_nil()?;
            Ok(Value::Absent)
        } else {
            let v = self.deserialize_value(inner)?;
            Ok(Value::Present(Box::new(v)))
        }
    }

    fn deserialize_enum(&mut self, schema: &Schema) -> (r: Result<Value, Error>)
        requires
            old(self).wf(),
        ensures
            final(self).wf(),
            final(self).bytes() == old(self).bytes(),
            (value_res_view(r), final(self).pos()) == de_enum(*schema, old(self).bytes(), old(self).pos()),
        decreases *schema, 2nat, 0nat,
    {
        let variants = match schema {
            Schema::Enum(variants) => variants,
            _ => { return Err(Error::InvalidData); },
        };
        if self.peek_string()? {
            let variant_name = self.decode_string()?;
            match find_variant_index(variants, &variant_name) {
                Some(idx) => {
                    let fields = nones(variants[idx].fields.len());
                    assert(Value::Variant(idx, fields)@->Variant_1 =~= opt_views(fields@));
                    return Ok(Value::Variant(idx, fields));
                },
                None => {
                    return Err(Error::InvalidEnum(unknown_variant_message(&variant_name)));
                },
            }
        }
        let map_len = self.decode_map_len()?;
        if map_len != 1 {
            return Err(Error::InvalidData);
        }
        let variant_name = self.decode_string()?;
        match find_variant_index(variants, &variant_name) {
            Some(idx) => self.deserialize_variant_body(schema, idx),
            None => Err(Error::InvalidEnum(unknown_variant_message(&variant_name))),
        }
    }

    #[verifier::loop_isolation(false)]
    fn deserialize_variant_body(&mut self, schema: &Schema, idx: usize) -> (r: Result<Value, Error>)
        requires
            old(self).wf(),
            schema matches Schema::Enum(variants) && idx < variants@.len(),
        ensures
            final(self).wf(),
            final(self).bytes() == old(self).bytes(),
            (value_res_view(r), final(self).pos()) == de_variant_body(*schema, idx as int, old(self).bytes(), old(self).pos()),
        decreases *schema, 1nat, 0nat,
    {
        let variants = match schema {
            Schema::Enum(variants) => variants,
            _ => { return Err(Error::InvalidData); },
        };
        let fields = &variants[idx].fields;
        match variants[idx].kind {
            VariantKind::Unit => {
                self.skip_value()?;
                let set = nones(fields.len());
                assert(Value::Variant(idx, set)@->Variant_1 =~= opt_views(set@));
                Ok(Value::Variant(idx, set))
            },
            VariantKind::Tuple => {
                if fields.len() == 1 {
                    let v = self.deserialize_value(&fields[0].schema)?;
                    let mut set: Vec<Option<Value>> = Vec::new();
                    set.push(Some(v));
                    assert(Value::Variant(idx, set)@->Variant_1 =~= seq![Some(v@)]);
                    return Ok(Value::Variant(idx, set));
                }
                let n = self.decode_array_len()?;
                if n != fields.len() as u64 {
                    return Err(Error::InvalidData);
                }
                let ghost s = self.bytes();
                let ghost o = self.pos();
                let mut set: Vec<Option<Value>> = Vec::new();
                assert(opt_views(set@) =~= seq![]);
                let mut i: usize = 0;
                while i < fields.len()
                    invariant
                        self.wf(),
                        self.bytes() == s,
                        s == old(self).bytes(),
                        *schema == Schema::Enum(*variants),
                        idx < variants@.len(),
                        *fields == variants@[idx as int].fields,
                        set@.len() == i,
                        i <= fields@.len(),
                        variant_items(*schema, idx as int, s, o, 0, seq![])
                            == variant_items(*schema, idx as int, s, self.pos(), i as int, opt_views(set@)),
                    decreases fields@.len() - i,
                {
                    let v = self.deserialize_value(&fields[i].schema)?;
                    let ghost before = opt_views(set@);
                    set.push(Some(v));
                    assert(opt_views(set@) =~= before.push(Some(v@)));
                    i += 1;
                }
                assert(Value::Variant(idx, set)@->Variant_1 =~= opt_views(set@));
                Ok(Value::Variant(idx, set))
            },
            VariantKind::Struct => {
                let n = self.decode_map_len()?;
                let mut seen = nones(fields.len());
                let ghost s = self.bytes();
                let ghost o = self.pos();
                let mut i: u64 = 0;
                while i < n
                    invariant
                        self.wf(),
                        self.bytes() == s,
                        s == old(self).bytes(),
                        *schema == Schema::Enum(*variants),
                        idx < variants@.len(),
                        *fields == variants@[idx as int].fields,
                        seen@.len() == fields@.len(),
                        i <= n,
                        variant_entries(*schema, idx as int, s, o, n as int, none_set(fields@.len() as int))
                            == variant_entries(*schema, idx as int, s, self.pos(), n - i, opt_views(seen@)),
                    decreases n - i,
                {
                    let field_name = self.decode_string()?;
                    match find_field_index(fields, &field_name) {
                        Some(fi) => {
                            let v = self.deserialize_value(&fields[fi].schema)?;
                            let ghost before = opt_views(seen@);
                            seen.set(fi, Some(v));
                            assert(opt_views(seen@) =~= before.update(fi as int, Some(v@)));
                        },
                        None => {
                            self.skip_value()?;
                        },
                    }
                    i += 1;
                }
                assert(Value::Variant(idx, seen)@->Variant_1 =~= opt_views(seen@));
                Ok(Value::Variant(idx, seen))
            },
            VariantKind::TupleStruct => Err(Error::UnsupportedType(String::from_str("Unsupported enum variant kind: TupleStruct"))),
        }
    }
}

/// Deserializes MessagePack-encoded data into a value of the given schema.
/// What follows the value in the input is not read.
pub fn from_slice_value(schema: &Schema, msgpack: &[u8]) -> (r: Result<Value, Error>)
    requires
        msgpack@.len() <= isize::MAX,
    ensures
        value_res_view(r) == de(*schema, msgpack@, 0).0,
{
    let mut decoder = Decoder::new(msgpack);
    decoder.deserialize_value(schema)
}

} // verus!
