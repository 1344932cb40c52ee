//! What deserialization gives back of what serialization writes: a value
//! written field by field, item by item, in the order the serializer is
//! driven, reads back as the same value under the same schema.
use vstd::prelude::*;
use crate::errors::ErrorView;
use crate::format::{
    encode_uint, encode_int, encode_str, encode_bool, encode_nil, encode_f32_bits,
    encode_f64_bits, map_header, array_header,
};
use crate::schema::{FieldSchema, FieldValueView, Schema, ScalarKind, ValueView, VariantKind, VariantSchema};
use crate::decode::{Step, skip_value, dec_str};
use crate::deserialize::{
    de, de_scalar, de_struct, struct_entries, de_tuple, tuple_items, de_enum, de_variant_body,
    variant_items, variant_entries, de_map, map_entries, de_list, list_items, de_option,
    find_field, find_variant, first_missing, complete_fields, none_set,
};
use crate::laws::{
    holds_at, lemma_byte_at, lemma_tail, law_uint_roundtrip, law_int_roundtrip,
    law_map_len_roundtrip, law_array_len_roundtrip, law_str_roundtrip, law_bool_roundtrip,
    law_nil_roundtrip, law_f32_roundtrip, law_f64_roundtrip,
};

verus! {

/// The UTF-8 form of a text, as a string is written.
pub open spec fn utf8(t: Seq<char>) -> Seq<u8> {
    vstd::utf8::encode_utf8(t)
}

/// What the serializer writes for a scalar.
pub open spec fn written_scalar(v: ValueView) -> Seq<u8> {
    match v {
        ValueView::Str(t) => encode_str(utf8(t)),
        ValueView::U64(n) => encode_uint(n as int),
        ValueView::U32(n) => encode_uint(n as int),
        ValueView::U16(n) => encode_uint(n as int),
        ValueView::U8(n) => encode_uint(n as int),
        ValueView::I64(n) => encode_int(n as int),
        ValueView::I32(n) => encode_int(n as int),
        ValueView::I16(n) => encode_int(n as int),
        ValueView::I8(n) => encode_int(n as int),
        ValueView::F64Bits(b) => encode_f64_bits(b),
        ValueView::F32Bits(b) => encode_f32_bits(b),
        ValueView::Bool(b) => encode_bool(b),
        _ => seq![],
    }
}

/// What the serializer writes for a value of the schema: a struct as a map
/// from field names to values, a tuple or list as an array, a map as its
/// entries, an absent option as nil and a present one as its value, a
/// variant without fields as its name, and any other variant as a map of
/// one entry from its name to its fields (the value itself for one unnamed
/// field, an array for several, a map for named ones).
pub open spec fn written(schema: Schema, v: ValueView) -> Seq<u8>
    decreases schema, 1nat, 0nat,
{
    match schema {
        Schema::Scalar(_) => written_scalar(v),
        Schema::Struct(fields) => match v {
            ValueView::Struct(fvs) => map_header(fvs.len() as int) + written_fields(schema, fvs, 0),
            _ => seq![],
        },
        Schema::Tuple(_) => match v {
            ValueView::Tuple(items) => array_header(items.len() as int) + written_elems(schema, items, 0),
            _ => seq![],
        },
        Schema::List(_) => match v {
            ValueView::List(items) => array_header(items.len() as int) + written_list(schema, items, 0),
            _ => seq![],
        },
        Schema::MapOf(_, _) => match v {
            ValueView::MapOf(es) => map_header(es.len() as int) + written_entries(schema, es, 0),
            _ => seq![],
        },
        Schema::Optional(inner) => match v {
            ValueView::Absent => encode_nil(),
            ValueView::Present(x) => written(*inner, *x),
            _ => seq![],
        },
        Schema::Enum(variants) => match v {
            ValueView::Variant(idx, fs) => if 0 <= idx < variants@.len() {
                let var = variants@[idx];
                if var.fields@.len() == 0 {
                    encode_str(utf8(var.name@))
                } else {
                    map_header(1) + encode_str(utf8(var.name@)) + written_body(schema, idx, fs)
                }
            } else {
                seq![]
            },
            _ => seq![],
        },
        Schema::Unsupported(_) => seq![],
    }
}

/// The fields of a struct from index `i` on, each its name then its value.
pub open spec fn written_fields(schema: Schema, fvs: Seq<FieldValueView>, i: int) -> Seq<u8>
    decreases schema, 0nat, if i < fvs.len() { (fvs.len() - i) as nat } else { 0 },
{
    match schema {
        Schema::Struct(fields) => if 0 <= i < fvs.len() && i < fields@.len() {
            match fvs[i] {
                FieldValueView::Given(x) => encode_str(utf8(fields@[i].name@)) + written(fields@[i].schema, x)
                    + written_fields(schema, fvs, i + 1),
                FieldValueView::Default => written_fields(schema, fvs, i + 1),
            }
        } else {
            seq![]
        },
        _ => seq![],
    }
}

/// The items of a tuple from index `i` on.
pub open spec fn written_elems(schema: Schema, items: Seq<ValueView>, i: int) -> Seq<u8>
    decreases schema, 0nat, if i < items.len() { (items.len() - i) as nat } else { 0 },
{
    match schema {
        Schema::Tuple(elems) => if 0 <= i < items.len() && i < elems@.len() {
            written(elems@[i], items[i]) + written_elems(schema, items, i + 1)
        } else {
            seq![]
        },
        _ => seq![],
    }
}

/// The items of a list from index `i` on.
pub open spec fn written_list(schema: Schema, items: Seq<ValueView>, i: int) -> Seq<u8>
    decreases schema, 0nat, if i < items.len() { (items.len() - i) as nat } else { 0 },
{
    match schema {
        Schema::List(e) => if 0 <= i < items.len() {
            written(*e, items[i]) + written_list(schema, items, i + 1)
        } else {
            seq![]
        },
        _ => seq![],
    }
}

/// The entries of a map from index `i` on, each its key then its value.
pub open spec fn written_entries(schema: Schema, es: Seq<(ValueView, ValueView)>, i: int) -> Seq<u8>
    decreases schema, 0nat, if i < es.len() { (es.len() - i) as nat } else { 0 },
{
    match schema {
        Schema::MapOf(k, vv) => if 0 <= i < es.len() {
            written(*k, es[i].0) + written(*vv, es[i].1) + written_entries(schema, es, i + 1)
        } else {
            seq![]
        },
        _ => seq![],
    }
}

/// The fields of the variant at `idx`: the value of a single unnamed
/// field, an array of unnamed fields, or a map of named ones.
pub open spec fn written_body(schema: Schema, idx: int, fs: Seq<Option<ValueView>>) -> Seq<u8>
    decreases schema, 0nat, fs.len() + 1,
{
    match schema {
        Schema::Enum(variants) => if 0 <= idx < variants@.len() {
            let var = variants@[idx];
            if var.kind == VariantKind::Tuple && var.fields@.len() == 1 && fs.len() == 1 {
                match fs[0] {
                    Some(x) => written(var.fields@[0].schema, x),
                    None => seq![],
                }
            } else if var.kind == VariantKind::Tuple {
                array_header(fs.len() as int) + written_vitems(schema, idx, fs, 0)
            } else {
                map_header(fs.len() as int) + written_vfields(schema, idx, fs, 0)
            }
        } else {
            seq![]
        },
        _ => seq![],
    }
}

/// The unnamed fields of the variant at `idx` from index `i` on.
pub open spec fn written_vitems(schema: Schema, idx: int, fs: Seq<Option<ValueView>>, i: int) -> Seq<u8>
    decreases schema, 0nat, if i < fs.len() { (fs.len() - i) as nat } else { 0 },
{
    match schema {
        Schema::Enum(variants) => if 0 <= idx < variants@.len() && 0 <= i < fs.len() && i
            < variants@[idx].fields@.len() {
            match fs[i] {
                Some(x) => written(variants@[idx].fields@[i].schema, x) + written_vitems(schema, idx, fs, i + 1),
                None => written_vitems(schema, idx, fs, i + 1),
            }
        } else {
            seq![]
        },
        _ => seq![],
    }
}

/// The named fields of the variant at `idx` from index `i` on, each its
/// name then its value.
pub open spec fn written_vfields(schema: Schema, idx: int, fs: Seq<Option<ValueView>>, i: int) -> Seq<u8>
    decreases schema, 0nat, if i < fs.len() { (fs.len() - i) as nat } else { 0 },
{
    match schema {
        Schema::Enum(variants) => if 0 <= idx < variants@.len() && 0 <= i < fs.len() && i
            < variants@[idx].fields@.len() {
            let f = variants@[idx].fields@[i];
            match fs[i] {
                Some(x) => encode_str(utf8(f.name@)) + written(f.schema, x) + written_vfields(schema, idx, fs, i + 1),
                None => written_vfields(schema, idx, fs, i + 1),
            }
        } else {
            seq![]
        },
        _ => seq![],
    }
}

/// A length that a header can hold.
pub open spec fn short(n: int) -> bool {
    0 <= n <= 4294967295
}

/// Whether the names of the fields differ pairwise, and each fits a
/// string header.
pub open spec fn names_ok(fields: Seq<FieldSchema>) -> bool {
    &&& forall|i: int, j: int| 0 <= i < j < fields.len() ==> fields[i].name@ != fields[j].name@
    &&& forall|i: int| 0 <= i < fields.len() ==> short(#[trigger] utf8(fields[i].name@).len() as int)
}

/// Whether a scalar value is of the scalar kind.
pub open spec fn fits_scalar(k: ScalarKind, v: ValueView) -> bool {
    match (k, v) {
        (ScalarKind::String, ValueView::Str(t)) => short(utf8(t).len() as int),
        (ScalarKind::U64, ValueView::U64(_)) => true,
        (ScalarKind::U32, ValueView::U32(_)) => true,
        (ScalarKind::U16, ValueView::U16(_)) => true,
        (ScalarKind::U8, ValueView::U8(_)) => true,
        (ScalarKind::I64, ValueView::I64(_)) => true,
        (ScalarKind::I32, ValueView::I32(_)) => true,
        (ScalarKind::I16, ValueView::I16(_)) => true,
        (ScalarKind::I8, ValueView::I8(_)) => true,
        (ScalarKind::F64, ValueView::F64Bits(_)) => true,
        (ScalarKind::F32, ValueView::F32Bits(_)) => true,
        (ScalarKind::Bool, ValueView::Bool(_)) => true,
        _ => false,
    }
}

/// Whether a value is one that serialization writes for the schema: every
/// field and item there, of its schema; lengths and names that headers
/// hold; field names that differ, and a variant name that no earlier
/// variant has; a present option holding a value (not another absent one);
/// no variant of unnamed fields declared with struct syntax.
pub open spec fn fits(schema: Schema, v: ValueView) -> bool
    decreases schema, 1nat, 0nat,
{
    match schema {
        Schema::Scalar(k) => fits_scalar(k, v),
        Schema::Struct(fields) => match v {
            ValueView::Struct(fvs) => {
                &&& fvs.len() == fields@.len()
                &&& short(fvs.len() as int)
                &&& names_ok(fields@)
                &&& fits_fields(schema, fvs, 0)
            },
            _ => false,
        },
        Schema::Tuple(elems) => match v {
            ValueView::Tuple(items) => items.len() == elems@.len() && short(items.len() as int)
                && fits_elems(schema, items, 0),
            _ => false,
        },
        Schema::List(_) => match v {
            ValueView::List(items) => short(items.len() as int) && fits_list(schema, items, 0),
            _ => false,
        },
        Schema::MapOf(_, _) => match v {
            ValueView::MapOf(es) => short(es.len() as int) && fits_entries(schema, es, 0),
            _ => false,
        },
        Schema::Optional(inner) => match v {
            ValueView::Absent => true,
            ValueView::Present(x) => !(*x is Absent) && fits(*inner, *x),
            _ => false,
        },
        Schema::Enum(variants) => match v {
            ValueView::Variant(idx, fs) => {
                &&& 0 <= idx < variants@.len()
                &&& short(utf8(variants@[idx].name@).len() as int)
                &&& forall|j: int| 0 <= j < idx ==> variants@[j].name@ != variants@[idx].name@
                &&& variants@[idx].kind != VariantKind::TupleStruct
                &&& (variants@[idx].kind == VariantKind::Unit ==> variants@[idx].fields@.len() == 0)
                &&& fs.len() == variants@[idx].fields@.len()
                &&& short(fs.len() as int)
                &&& names_ok(variants@[idx].fields@)
                &&& fits_vfields(schema, idx, fs, 0)
            },
            _ => false,
        },
        Schema::Unsupported(_) => false,
    }
}

/// Every field from `i` on is given, and fits its schema.
pub open spec fn fits_fields(schema: Schema, fvs: Seq<FieldValueView>, i: int) -> bool
    decreases schema, 0nat, if i < fvs.len() { (fvs.len() - i) as nat } else { 0 },
{
    match schema {
        Schema::Struct(fields) => if 0 <= i < fvs.len() && i < fields@.len() {
            match fvs[i] {
                FieldValueView::Given(x) => fits(fields@[i].schema, x) && fits_fields(schema, fvs, i + 1),
                FieldValueView::Default => false,
            }
        } else {
            true
        },
        _ => false,
    }
}

/// Every tuple item from `i` on fits its schema.
pub open spec fn fits_elems(schema: Schema, items: Seq<ValueView>, i: int) -> bool
    decreases schema, 0nat, if i < items.len() { (items.len() - i) as nat } else { 0 },
{
    match schema {
        Schema::Tuple(elems) => if 0 <= i < items.len() && i < elems@.len() {
            fits(elems@[i], items[i]) && fits_elems(schema, items, i + 1)
        } else {
            true
        },
        _ => false,
    }
}

/// Every list item from `i` on fits the item schema.
pub open spec fn fits_list(schema: Schema, items: Seq<ValueView>, i: int) -> bool
    decreases schema, 0nat, if i < items.len() { (items.len() - i) as nat } else { 0 },
{
    match schema {
        Schema::List(e) => if 0 <= i < items.len() {
            fits(*e, items[i]) && fits_list(schema, items, i + 1)
        } else {
            true
        },
        _ => false,
    }
}

/// Every map entry from `i` on fits the key and value schemas.
pub open spec fn fits_entries(schema: Schema, es: Seq<(ValueView, ValueView)>, i: int) -> bool
    decreases schema, 0nat, if i < es.len() { (es.len() - i) as nat } else { 0 },
{
    match schema {
        Schema::MapOf(k, vv) => if 0 <= i < es.len() {
            fits(*k, es[i].0) && fits(*vv, es[i].1) && fits_entries(schema, es, i + 1)
        } else {
            true
        },
        _ => false,
    }
}

/// Every field of the variant at `idx` from `i` on is there, and fits its
/// schema.
pub open spec fn fits_vfields(schema: Schema, idx: int, fs: Seq<Option<ValueView>>, i: int) -> bool
    decreases schema, 0nat, if i < fs.len() { (fs.len() - i) as nat } else { 0 },
{
    match schema {
        Schema::Enum(variants) => if 0 <= idx < variants@.len() && 0 <= i < fs.len() && i
            < variants@[idx].fields@.len() {
            match fs[i] {
                Some(x) => fits(variants@[idx].fields@[i].schema, x) && fits_vfields(schema, idx, fs, i + 1),
                None => false,
            }
        } else {
            true
        },
        _ => false,
    }
}


proof fn lemma_scalar(k: ScalarKind, v: ValueView, s: Seq<u8>, off: int)
    requires
        fits_scalar(k, v),
        holds_at(s, off, written_scalar(v)),
    ensures
        de_scalar(k, s, off) == (Ok::<ValueView, ErrorView>(v), off + written_scalar(v).len()),
{
    match v {
        ValueView::Str(t) => law_str_roundtrip(s, off, t),
        ValueView::U64(n) => law_uint_roundtrip(s, off, n),
        ValueView::U32(n) => law_uint_roundtrip(s, off, n as u64),
        ValueView::U16(n) => law_uint_roundtrip(s, off, n as u64),
        ValueView::U8(n) => law_uint_roundtrip(s, off, n as u64),
        ValueView::I64(n) => law_int_roundtrip(s, off, n),
        ValueView::I32(n) => law_int_roundtrip(s, off, n as i64),
        ValueView::I16(n) => law_int_roundtrip(s, off, n as i64),
        ValueView::I8(n) => law_int_roundtrip(s, off, n as i64),
        ValueView::F64Bits(b) => law_f64_roundtrip(s, off, b),
        ValueView::F32Bits(b) => law_f32_roundtrip(s, off, b),
        ValueView::Bool(b) => law_bool_roundtrip(s, off, b),
        _ => {},
    }
}

/// What is written for a present value is not empty and does not start
/// with nil.
proof fn lemma_not_nil(schema: Schema, v: ValueView)
    requires
        fits(schema, v),
        !(v is Absent),
    ensures
        written(schema, v).len() > 0,
        written(schema, v)[0] != 0xc0u8,
    decreases schema,
{
    match schema {
        Schema::Optional(inner) => match v {
            ValueView::Present(x) => lemma_not_nil(*inner, *x),
            _ => {},
        },
        _ => {},
    }
}


/// The first `j` fields' values, as reading has them after their entries.
pub open spec fn seen_upto(fvs: Seq<FieldValueView>, j: int) -> Seq<Option<ValueView>> {
    Seq::new(
        fvs.len(),
        |i: int|
            if i < j {
                match fvs[i] {
                    FieldValueView::Given(x) => Some(x),
                    FieldValueView::Default => None,
                }
            } else {
                None
            },
    )
}

/// The first `j` fields of a variant, as reading has them after their
/// entries.
pub open spec fn vseen_upto(fs: Seq<Option<ValueView>>, j: int) -> Seq<Option<ValueView>> {
    Seq::new(fs.len(), |i: int| if i < j { fs[i] } else { None })
}

proof fn lemma_find_field(fields: Seq<FieldSchema>, j: int, i: int)
    requires
        0 <= i <= j < fields.len(),
        forall|a: int, b: int| 0 <= a < b < fields.len() ==> fields[a].name@ != fields[b].name@,
    ensures
        find_field(fields, fields[j].name@, i) == Some(j),
    decreases j - i,
{
    if i < j {
        assert(fields[i].name@ != fields[j].name@);
        lemma_find_field(fields, j, i + 1);
    }
}

proof fn lemma_find_variant(variants: Seq<VariantSchema>, j: int, i: int)
    requires
        0 <= i <= j < variants.len(),
        forall|a: int| 0 <= a < j ==> variants[a].name@ != variants[j].name@,
    ensures
        find_variant(variants, variants[j].name@, i) == Some(j),
    decreases j - i,
{
    if i < j {
        lemma_find_variant(variants, j, i + 1);
    }
}

proof fn lemma_first_missing(fields: Seq<FieldSchema>, seen: Seq<Option<ValueView>>, i: int)
    requires
        seen.len() == fields.len(),
        0 <= i,
        forall|k: int| i <= k < seen.len() ==> #[trigger] seen[k] is Some,
    ensures
        first_missing(fields, seen, i) is None,
    decreases fields.len() - i,
{
    if i < fields.len() {
        assert(seen[i] is Some);
        lemma_first_missing(fields, seen, i + 1);
    }
}

proof fn lemma_all_given(schema: Schema, fvs: Seq<FieldValueView>, i: int)
    requires
        schema is Struct,
        fvs.len() == schema->Struct_0@.len(),
        0 <= i,
        fits_fields(schema, fvs, i),
    ensures
        forall|k: int| i <= k < fvs.len() ==> #[trigger] fvs[k] is Given,
    decreases fvs.len() - i,
{
    if i < fvs.len() {
        lemma_all_given(schema, fvs, i + 1);
    }
}

proof fn lemma_all_some(schema: Schema, idx: int, fs: Seq<Option<ValueView>>, i: int)
    requires
        schema is Enum,
        0 <= idx < schema->Enum_0@.len(),
        fs.len() == schema->Enum_0@[idx].fields@.len(),
        0 <= i,
        fits_vfields(schema, idx, fs, i),
    ensures
        forall|k: int| i <= k < fs.len() ==> (#[trigger] fs[k] matches Some(x) && fits(schema->Enum_0@[idx].fields@[k].schema, x)),
    decreases fs.len() - i,
{
    if i < fs.len() {
        lemma_all_some(schema, idx, fs, i + 1);
    }
}

proof fn lemma_str_marker(bytes: Seq<u8>)
    requires
        short(bytes.len() as int),
    ensures
        encode_str(bytes).len() > 0,
        crate::format::is_str_marker(encode_str(bytes)[0]),
{
}

proof fn lemma_list(schema: Schema, items: Seq<ValueView>, s: Seq<u8>, off: int, i: int)
    requires
        schema is List,
        0 <= i <= items.len(),
        fits_list(schema, items, i),
        holds_at(s, off, written_list(schema, items, i)),
    ensures
        list_items(schema, s, off, items.len() - i, items.subrange(0, i))
            == (Ok::<Seq<ValueView>, ErrorView>(items), off + written_list(schema, items, i).len()),
    decreases schema, 0nat, items.len() - i,
{
    if i < items.len() {
        let e = *schema->List_0;
        let w = written(e, items[i]);
        lemma_tail(s, off, w, written_list(schema, items, i + 1));
        law_written_reads_back(e, items[i], s, off);
        assert(items.subrange(0, i).push(items[i]) =~= items.subrange(0, i + 1));
        lemma_list(schema, items, s, off + w.len(), i + 1);
    } else {
        assert(items.subrange(0, i) =~= items);
    }
}

proof fn lemma_elems(schema: Schema, items: Seq<ValueView>, s: Seq<u8>, off: int, i: int)
    requires
        schema is Tuple,
        items.len() == schema->Tuple_0@.len(),
        0 <= i <= items.len(),
        fits_elems(schema, items, i),
        holds_at(s, off, written_elems(schema, items, i)),
    ensures
        tuple_items(schema, s, off, i, items.subrange(0, i))
            == (Ok::<Seq<ValueView>, ErrorView>(items), off + written_elems(schema, items, i).len()),
    decreases schema, 0nat, items.len() - i,
{
    if i < items.len() {
        let e = schema->Tuple_0@[i];
        let w = written(e, items[i]);
        lemma_tail(s, off, w, written_elems(schema, items, i + 1));
        law_written_reads_back(e, items[i], s, off);
        assert(items.subrange(0, i).push(items[i]) =~= items.subrange(0, i + 1));
        lemma_elems(schema, items, s, off + w.len(), i + 1);
    } else {
        assert(items.subrange(0, i) =~= items);
    }
}

proof fn lemma_entries(schema: Schema, es: Seq<(ValueView, ValueView)>, s: Seq<u8>, off: int, i: int)
    requires
        schema is MapOf,
        0 <= i <= es.len(),
        fits_entries(schema, es, i),
        holds_at(s, off, written_entries(schema, es, i)),
    ensures
        map_entries(schema, s, off, es.len() - i, es.subrange(0, i))
            == (Ok::<Seq<(ValueView, ValueView)>, ErrorView>(es), off + written_entries(schema, es, i).len()),
    decreases schema, 0nat, es.len() - i,
{
    if i < es.len() {
        let k = *schema->MapOf_0;
        let vv = *schema->MapOf_1;
        let wk = written(k, es[i].0);
        let wv = written(vv, es[i].1);
        lemma_tail(s, off, wk + wv, written_entries(schema, es, i + 1));
        lemma_tail(s, off, wk, wv);
        law_written_reads_back(k, es[i].0, s, off);
        law_written_reads_back(vv, es[i].1, s, off + wk.len());
        assert(es.subrange(0, i).push((es[i].0, es[i].1)) =~= es.subrange(0, i + 1));
        lemma_entries(schema, es, s, off + wk.len() + wv.len(), i + 1);
    } else {
        assert(es.subrange(0, i) =~= es);
    }
}

proof fn lemma_fields(schema: Schema, fvs: Seq<FieldValueView>, s: Seq<u8>, off: int, j: int)
    requires
        schema is Struct,
        fvs.len() == schema->Struct_0@.len(),
        names_ok(schema->Struct_0@),
        0 <= j <= fvs.len(),
        fits_fields(schema, fvs, j),
        holds_at(s, off, written_fields(schema, fvs, j)),
    ensures
        struct_entries(schema, s, off, fvs.len() - j, seen_upto(fvs, j))
            == (Ok::<Seq<Option<ValueView>>, ErrorView>(seen_upto(fvs, fvs.len() as int)), off + written_fields(schema, fvs, j).len()),
    decreases schema, 0nat, fvs.len() - j,
{
    let fields = schema->Struct_0@;
    if j < fvs.len() {
        let x = fvs[j]->Given_0;
        let name = fields[j].name@;
        let ws = encode_str(utf8(name));
        let wx = written(fields[j].schema, x);
        lemma_tail(s, off, ws + wx, written_fields(schema, fvs, j + 1));
        lemma_tail(s, off, ws, wx);
        assert(short(utf8(fields[j].name@).len() as int));
        law_str_roundtrip(s, off, name);
        lemma_find_field(fields, j, 0);
        law_written_reads_back(fields[j].schema, x, s, off + ws.len());
        assert(seen_upto(fvs, j).update(j, Some(x)) =~= seen_upto(fvs, j + 1));
        lemma_fields(schema, fvs, s, off + ws.len() + wx.len(), j + 1);
    }
}

proof fn lemma_vitems(schema: Schema, idx: int, fs: Seq<Option<ValueView>>, s: Seq<u8>, off: int, i: int)
    requires
        schema is Enum,
        0 <= idx < schema->Enum_0@.len(),
        fs.len() == schema->Enum_0@[idx].fields@.len(),
        0 <= i <= fs.len(),
        fits_vfields(schema, idx, fs, i),
        holds_at(s, off, written_vitems(schema, idx, fs, i)),
    ensures
        variant_items(schema, idx, s, off, i, fs.subrange(0, i))
            == (Ok::<Seq<Option<ValueView>>, ErrorView>(fs), off + written_vitems(schema, idx, fs, i).len()),
    decreases schema, 0nat, fs.len() - i,
{
    let f = schema->Enum_0@[idx].fields@;
    if i < fs.len() {
        let x = fs[i]->Some_0;
        let w = written(f[i].schema, x);
        lemma_tail(s, off, w, written_vitems(schema, idx, fs, i + 1));
        law_written_reads_back(f[i].schema, x, s, off);
        assert(fs.subrange(0, i).push(Some(x)) =~= fs.subrange(0, i + 1));
        lemma_vitems(schema, idx, fs, s, off + w.len(), i + 1);
    } else {
        assert(fs.subrange(0, i) =~= fs);
    }
}

proof fn lemma_vfields(schema: Schema, idx: int, fs: Seq<Option<ValueView>>, s: Seq<u8>, off: int, j: int)
    requires
        schema is Enum,
        0 <= idx < schema->Enum_0@.len(),
        fs.len() == schema->Enum_0@[idx].fields@.len(),
        names_ok(schema->Enum_0@[idx].fields@),
        0 <= j <= fs.len(),
        fits_vfields(schema, idx, fs, j),
        holds_at(s, off, written_vfields(schema, idx, fs, j)),
    ensures
        variant_entries(schema, idx, s, off, fs.len() - j, vseen_upto(fs, j))
            == (Ok::<Seq<Option<ValueView>>, ErrorView>(vseen_upto(fs, fs.len() as int)), off + written_vfields(schema, idx, fs, j).len()),
    decreases schema, 0nat, fs.len() - j,
{
    let fields = schema->Enum_0@[idx].fields@;
    if j < fs.len() {
        let x = fs[j]->Some_0;
        let name = fields[j].name@;
        let ws = encode_str(utf8(name));
        let wx = written(fields[j].schema, x);
        lemma_tail(s, off, ws + wx, written_vfields(schema, idx, fs, j + 1));
        lemma_tail(s, off, ws, wx);
        assert(short(utf8(fields[j].name@).len() as int));
        law_str_roundtrip(s, off, name);
        lemma_find_field(fields, j, 0);
        law_written_reads_back(fields[j].schema, x, s, off + ws.len());
        assert(vseen_upto(fs, j).update(j, Some(x)) =~= vseen_upto(fs, j + 1));
        lemma_vfields(schema, idx, fs, s, off + ws.len() + wx.len(), j + 1);
    }
}

/// Reading gives back what writing wrote: for a value that fits its
/// schema, the bytes written for it, found at any offset of any input, read
/// back as the same value, with the offset just past them.
pub proof fn law_written_reads_back(schema: Schema, v: ValueView, s: Seq<u8>, off: int)
    requires
        fits(schema, v),
        holds_at(s, off, written(schema, v)),
    ensures
        de(schema, s, off) == (Ok::<ValueView, ErrorView>(v), off + written(schema, v).len()),
    decreases schema, 1nat, 0nat,
{
    match schema {
        Schema::Scalar(k) => lemma_scalar(k, v, s, off),
        Schema::Optional(inner) => match v {
            ValueView::Absent => {
                lemma_byte_at(s, off, encode_nil(), 0);
                law_nil_roundtrip(s, off);
            },
            ValueView::Present(x) => {
                lemma_not_nil(*inner, *x);
                lemma_byte_at(s, off, written(*inner, *x), 0);
                law_written_reads_back(*inner, *x, s, off);
            },
            _ => {},
        },
        Schema::List(_) => match v {
            ValueView::List(items) => {
                let h = array_header(items.len() as int);
                lemma_tail(s, off, h, written_list(schema, items, 0));
                law_array_len_roundtrip(s, off, items.len() as u64);
                lemma_list(schema, items, s, off + h.len(), 0);
                assert(items.subrange(0, 0) =~= Seq::<ValueView>::empty());
            },
            _ => {},
        },
        Schema::Tuple(_) => match v {
            ValueView::Tuple(items) => {
                let h = array_header(items.len() as int);
                lemma_tail(s, off, h, written_elems(schema, items, 0));
                law_array_len_roundtrip(s, off, items.len() as u64);
                lemma_elems(schema, items, s, off + h.len(), 0);
                assert(items.subrange(0, 0) =~= Seq::<ValueView>::empty());
            },
            _ => {},
        },
        Schema::MapOf(_, _) => match v {
            ValueView::MapOf(es) => {
                let h = map_header(es.len() as int);
                lemma_tail(s, off, h, written_entries(schema, es, 0));
                law_map_len_roundtrip(s, off, es.len() as u64);
                lemma_entries(schema, es, s, off + h.len(), 0);
                assert(es.subrange(0, 0) =~= Seq::<(ValueView, ValueView)>::empty());
            },
            _ => {},
        },
        Schema::Struct(fields) => match v {
            ValueView::Struct(fvs) => {
                let h = map_header(fvs.len() as int);
                lemma_tail(s, off, h, written_fields(schema, fvs, 0));
                law_map_len_roundtrip(s, off, fvs.len() as u64);
                assert(none_set(fields@.len() as int) =~= seen_upto(fvs, 0));
                lemma_fields(schema, fvs, s, off + h.len(), 0);
                let seen = seen_upto(fvs, fvs.len() as int);
                lemma_all_given(schema, fvs, 0);
                assert forall|k: int| 0 <= k < seen.len() implies #[trigger] seen[k] is Some by {
                    assert(fvs[k] is Given);
                }
                lemma_first_missing(fields@, seen, 0);
                assert(complete_fields(fields@, seen) == Ok::<Seq<FieldValueView>, ErrorView>(fvs)) by {
                    assert(Seq::new(
                        seen.len(),
                        |j: int|
                            match seen[j] {
                                Some(x) => FieldValueView::Given(x),
                                None => FieldValueView::Default,
                            },
                    ) =~= fvs);
                }
            },
            _ => {},
        },
        Schema::Enum(variants) => match v {
            ValueView::Variant(idx, fs) => lemma_variant(schema, idx, fs, s, off),
            _ => {},
        },
        Schema::Unsupported(_) => {},
    }
}

proof fn lemma_variant(schema: Schema, idx: int, fs: Seq<Option<ValueView>>, s: Seq<u8>, off: int)
    requires
        schema is Enum,
        fits(schema, ValueView::Variant(idx, fs)),
        holds_at(s, off, written(schema, ValueView::Variant(idx, fs))),
    ensures
        de(schema, s, off) == (Ok::<ValueView, ErrorView>(ValueView::Variant(idx, fs)), off + written(
            schema,
            ValueView::Variant(idx, fs),
        ).len()),
    decreases schema, 0nat, fs.len() + 2,
{
    let variants = schema->Enum_0@;
    let var = variants[idx];
    let name = var.name@;
    let ws = encode_str(utf8(name));
    lemma_find_variant(variants, idx, 0);
    if var.fields@.len() == 0 {
        lemma_str_marker(utf8(name));
        lemma_byte_at(s, off, ws, 0);
        law_str_roundtrip(s, off, name);
        assert(fs =~= none_set(0));
        assert(de_enum(schema, s, off) == (Ok::<ValueView, ErrorView>(ValueView::Variant(idx, fs)), off + ws.len()));
    } else {
        let h = map_header(1);
        let body = written_body(schema, idx, fs);
        lemma_tail(s, off, h + ws, body);
        lemma_tail(s, off, h, ws);
        lemma_byte_at(s, off, h, 0);
        law_map_len_roundtrip(s, off, 1);
        law_str_roundtrip(s, off + 1, name);
        let o = off + 1 + ws.len();
        lemma_all_some(schema, idx, fs, 0);
        if var.kind == VariantKind::Tuple && var.fields@.len() == 1 {
            assert(fs[0] matches Some(x) && fits(var.fields@[0].schema, x));
            let x = fs[0]->Some_0;
            law_written_reads_back(var.fields@[0].schema, x, s, o);
            assert(fs =~= seq![Some(x)]);
            assert(de_variant_body(schema, idx, s, o) == (Ok::<ValueView, ErrorView>(ValueView::Variant(idx, fs)), o + body.len()));
        } else if var.kind == VariantKind::Tuple {
            let ha = array_header(fs.len() as int);
            lemma_tail(s, o, ha, written_vitems(schema, idx, fs, 0));
            law_array_len_roundtrip(s, o, fs.len() as u64);
            lemma_vitems(schema, idx, fs, s, o + ha.len(), 0);
            assert(fs.subrange(0, 0) =~= Seq::<Option<ValueView>>::empty());
            assert(de_variant_body(schema, idx, s, o) == (Ok::<ValueView, ErrorView>(ValueView::Variant(idx, fs)), o + body.len()));
        } else {
            let hm = map_header(fs.len() as int);
            lemma_tail(s, o, hm, written_vfields(schema, idx, fs, 0));
            law_map_len_roundtrip(s, o, fs.len() as u64);
            assert(none_set(var.fields@.len() as int) =~= vseen_upto(fs, 0));
            lemma_vfields(schema, idx, fs, s, o + hm.len(), 0);
            assert(vseen_upto(fs, fs.len() as int) =~= fs);
            assert(de_variant_body(schema, idx, s, o) == (Ok::<ValueView, ErrorView>(ValueView::Variant(idx, fs)), o + body.len()));
        }
    }
}

/// The fields of a struct from index `i` up to (not including) `j`, each
/// its name then its value.
pub open spec fn written_fields_between(schema: Schema, fvs: Seq<FieldValueView>, i: int, j: int) -> Seq<u8>
    decreases if i < j { (j - i) as nat } else { 0 },
{
    match schema {
        Schema::Struct(fields) => if 0 <= i < j && i < fvs.len() && i < fields@.len() {
            match fvs[i] {
                FieldValueView::Given(x) => encode_str(utf8(fields@[i].name@)) + written(fields@[i].schema, x)
                    + written_fields_between(schema, fvs, i + 1, j),
                FieldValueView::Default => written_fields_between(schema, fvs, i + 1, j),
            }
        } else {
            seq![]
        },
        _ => seq![],
    }
}

proof fn lemma_between_split(schema: Schema, fvs: Seq<FieldValueView>, i: int, j: int)
    requires
        schema is Struct,
        fvs.len() == schema->Struct_0@.len(),
        0 <= i <= j <= fvs.len(),
    ensures
        written_fields(schema, fvs, i) == written_fields_between(schema, fvs, i, j) + written_fields(schema, fvs, j),
    decreases j - i,
{
    if i < j {
        lemma_between_split(schema, fvs, i + 1, j);
        match fvs[i] {
            FieldValueView::Given(x) => {
                let fields = schema->Struct_0@;
                let a = encode_str(utf8(fields[i].name@)) + written(fields[i].schema, x);
                assert(a + written_fields(schema, fvs, i + 1) =~= a + written_fields_between(schema, fvs, i + 1, j)
                    + written_fields(schema, fvs, j));
            },
            FieldValueView::Default => {},
        }
    } else {
        assert(written_fields_between(schema, fvs, i, j) + written_fields(schema, fvs, j) =~= written_fields(
            schema,
            fvs,
            j,
        ));
    }
}

proof fn lemma_between_read(schema: Schema, fvs: Seq<FieldValueView>, s: Seq<u8>, off: int, i: int, j: int, extra: int)
    requires
        schema is Struct,
        fvs.len() == schema->Struct_0@.len(),
        names_ok(schema->Struct_0@),
        0 <= i <= j <= fvs.len(),
        extra >= 0,
        fits_fields(schema, fvs, i),
        holds_at(s, off, written_fields_between(schema, fvs, i, j)),
    ensures
        struct_entries(schema, s, off, (j - i) + extra, seen_upto(fvs, i)) == struct_entries(
            schema,
            s,
            off + written_fields_between(schema, fvs, i, j).len(),
            extra,
            seen_upto(fvs, j),
        ),
    decreases j - i,
{
    let fields = schema->Struct_0@;
    if i < j {
        let x = fvs[i]->Given_0;
        let name = fields[i].name@;
        let ws = encode_str(utf8(name));
        let wx = written(fields[i].schema, x);
        lemma_tail(s, off, ws + wx, written_fields_between(schema, fvs, i + 1, j));
        lemma_tail(s, off, ws, wx);
        assert(short(utf8(fields[i].name@).len() as int));
        law_str_roundtrip(s, off, name);
        lemma_find_field(fields, i, 0);
        law_written_reads_back(fields[i].schema, x, s, off + ws.len());
        assert(seen_upto(fvs, i).update(i, Some(x)) =~= seen_upto(fvs, i + 1));
        assert((j - i) + extra - 1 == (j - (i + 1)) + extra);
        lemma_between_read(schema, fvs, s, off + ws.len() + wx.len(), i + 1, j, extra);
    }
}

proof fn lemma_fits_fields_from(schema: Schema, fvs: Seq<FieldValueView>, i: int, j: int)
    requires
        schema is Struct,
        fvs.len() == schema->Struct_0@.len(),
        0 <= i <= j,
        fits_fields(schema, fvs, i),
    ensures
        fits_fields(schema, fvs, j),
    decreases j - i,
{
    if i < j {
        if i < fvs.len() {
            lemma_fits_fields_from(schema, fvs, i + 1, j);
        }
    }
}

/// The start of a struct's map that holds one more entry after the first
/// `j` written fields: the header counting it, those fields, and the
/// entry's key.
pub open spec fn with_entry_prefix(schema: Schema, fvs: Seq<FieldValueView>, j: int, key: Seq<char>) -> Seq<u8> {
    map_header(fvs.len() + 1int) + written_fields_between(schema, fvs, 0, j) + encode_str(utf8(key))
}

/// An entry whose key names no field is skipped whole: a struct's map
/// holding, after any of the written fields, an entry whose key is no field
/// name and whose value is any complete MessagePack value (one that
/// skipping passes over, of `value_len` bytes), then the other fields,
/// reads as the same struct as the map without that entry (one entry fewer
/// in its header), which is what writing the struct gives.
pub proof fn law_unknown_entry_is_skipped(
    schema: Schema,
    v: ValueView,
    j: int,
    key: Seq<char>,
    s: Seq<u8>,
    off: int,
    value_len: int,
    s2: Seq<u8>,
    off2: int,
)
    requires
        schema is Struct,
        fits(schema, v),
        v is Struct,
        0 <= j <= v->Struct_0.len(),
        short(v->Struct_0.len() + 1int),
        short(utf8(key).len() as int),
        find_field(schema->Struct_0@, key, 0) is None,
        holds_at(s, off, with_entry_prefix(schema, v->Struct_0, j, key)),
        skip_value(s, off + with_entry_prefix(schema, v->Struct_0, j, key).len()) == (
            Ok::<(), ErrorView>(()),
            off + with_entry_prefix(schema, v->Struct_0, j, key).len() + value_len,
        ),
        holds_at(
            s,
            off + with_entry_prefix(schema, v->Struct_0, j, key).len() + value_len,
            written_fields(schema, v->Struct_0, j),
        ),
        holds_at(s2, off2, written(schema, v)),
    ensures
        written(schema, v) == map_header(v->Struct_0.len() as int) + written_fields_between(schema, v->Struct_0, 0, j)
            + written_fields(schema, v->Struct_0, j),
        de(schema, s, off) == (
            Ok::<ValueView, ErrorView>(v),
            off + with_entry_prefix(schema, v->Struct_0, j, key).len() + value_len + written_fields(
                schema,
                v->Struct_0,
                j,
            ).len(),
        ),
        de(schema, s2, off2) == (Ok::<ValueView, ErrorView>(v), off2 + written(schema, v).len()),
{
    let fields = schema->Struct_0@;
    let fvs = v->Struct_0;
    let n = fvs.len();
    let h = map_header(n + 1int);
    assert(with_entry_prefix(schema, fvs, j, key) == h + written_fields_between(schema, fvs, 0, j) + encode_str(utf8(key)));
    let pre = written_fields_between(schema, fvs, 0, j);
    let ks = encode_str(utf8(key));
    lemma_between_split(schema, fvs, 0, j);
    assert(written(schema, v) =~= map_header(n as int) + pre + written_fields(schema, fvs, j));
    law_written_reads_back(schema, v, s2, off2);
    // the header, then the first `j` fields
    lemma_tail(s, off, h + pre, ks);
    lemma_tail(s, off, h, pre);
    law_map_len_roundtrip(s, off, (n + 1) as u64);
    assert(none_set(fields.len() as int) =~= seen_upto(fvs, 0));
    lemma_between_read(schema, fvs, s, off + h.len(), 0, j, n - j + 1);
    // the unknown entry: its key names no field, and its value is skipped
    let ko = off + h.len() + pre.len();
    law_str_roundtrip(s, ko, key);
    let vo = ko + ks.len();
    assert(vo == off + (h + pre + ks).len());
    // then the remaining fields
    lemma_fits_fields_from(schema, fvs, 0, j);
    lemma_fields(schema, fvs, s, vo + value_len, j);
    let seen = seen_upto(fvs, n as int);
    lemma_all_given(schema, fvs, 0);
    assert forall|k: int| 0 <= k < seen.len() implies #[trigger] seen[k] is Some by {
        assert(fvs[k] is Given);
    }
    lemma_first_missing(fields, seen, 0);
    assert(complete_fields(fields, seen) == Ok::<Seq<FieldValueView>, ErrorView>(fvs)) by {
        assert(Seq::new(
            seen.len(),
            |k: int|
                match seen[k] {
                    Some(x) => FieldValueView::Given(x),
                    None => FieldValueView::Default,
                },
        ) =~= fvs);
    }
}

/// An unknown entry changes nothing, at any point of reading a struct's
/// map and whatever the bytes: where the next entry's key names no field
/// and a complete value follows it, reading that entry and the `n` after
/// it gives what reading those `n` from just after its value gives, from
/// the same fields read so far.
pub proof fn law_unknown_entry_leaves_reading_unchanged(
    schema: Schema,
    s: Seq<u8>,
    p: int,
    n: int,
    seen: Seq<Option<ValueView>>,
)
    requires
        schema is Struct,
        n >= 0,
        dec_str(s, p).0 matches Ok(key) && find_field(schema->Struct_0@, key, 0) is None,
        skip_value(s, dec_str(s, p).1).0 is Ok,
    ensures
        struct_entries(schema, s, p, n + 1, seen) == struct_entries(schema, s, skip_value(s, dec_str(s, p).1).1, n, seen),
{
}

} // verus!
