//! JSON Schema text for a type, from what its shape says of it.
use vstd::prelude::*;
use crate::text::{
    decimal, join_lines, trimmed, unquoted, push_decimal, push_chars, str_chars, strip,
    string_push,
};

verus! {

/// A named field of a struct, with its documentation.
pub struct JsonField {
    /// The field's name
    pub name: String,
    /// The lines of the field's doc comment
    pub doc: Vec<String>,
    /// The field's type
    pub shape: JsonShape,
}

/// What a type is, as far as its schema goes.
pub enum JsonKind {
    /// A struct with named fields
    Struct(Vec<JsonField>),
    /// An integer of `bits` bits, signed or not
    Integer { bits: u64, signed: bool },
    /// A floating-point number
    Number,
    /// A string
    Str,
    /// A boolean
    Boolean,
    /// A list or a slice of items
    List(Box<JsonShape>),
    /// An array of exactly `len` items
    Array(u64, Box<JsonShape>),
    /// A reference, raw pointer or smart pointer to a value
    Pointer(Box<JsonShape>),
    /// Anything else that has no schema of its own
    Unknown,
    /// An enum (not supported)
    Enum,
    /// A map (not supported)
    MapOf,
    /// An option (not supported)
    Optional,
    /// A number that is neither an integer nor a float (not supported)
    OtherNumber,
    /// A scalar of no supported kind, by its description (not supported)
    OtherScalar(String),
}

/// A type: its doc comment and what it is.
pub struct JsonShape {
    /// The lines of the type's doc comment
    pub doc: Vec<String>,
    /// What the type is
    pub kind: JsonKind,
}

/// The character sequences of some strings.
pub open spec fn lines_of(v: Seq<String>) -> Seq<Seq<char>> {
    Seq::new(v.len(), |i: int| v[i]@)
}

/// Whether a schema can be written for the shape: no enum, map, option or
/// unsupported scalar anywhere in it.
pub open spec fn supported(shape: JsonShape) -> bool
    decreases shape, 1nat, 0nat,
{
    match shape.kind {
        JsonKind::Struct(fields) => fields_supported(shape, fields@.len() as int),
        JsonKind::List(inner) => supported(*inner),
        JsonKind::Array(_, inner) => supported(*inner),
        JsonKind::Pointer(inner) => supported(*inner),
        JsonKind::Enum | JsonKind::MapOf | JsonKind::Optional | JsonKind::OtherNumber
        | JsonKind::OtherScalar(_) => false,
        _ => true,
    }
}

/// Whether the first `n` fields of a struct shape are supported.
pub open spec fn fields_supported(shape: JsonShape, n: int) -> bool
    decreases shape, 0nat, if n > 0 { n as nat } else { 0 },
{
    match shape.kind {
        JsonKind::Struct(fields) => if n <= 0 || n > fields@.len() {
            true
        } else {
            fields_supported(shape, n - 1) && supported(fields@[n - 1].shape)
        },
        _ => true,
    }
}

/// The `"description"` entry for the doc lines, or nothing when there are
/// none.
pub open spec fn description(lines: Seq<Seq<char>>) -> Seq<char> {
    if lines.len() == 0 {
        seq![]
    } else {
        "\"description\": \""@ + trimmed(join_lines(lines)) + "\","@
    }
}

/// The schema entries for a shape, whose description also takes the lines
/// `extra` (a field's doc comment).
pub open spec fn shape_text(shape: JsonShape, extra: Seq<Seq<char>>) -> Seq<char>
    decreases shape, 2nat, 0nat,
{
    description(lines_of(shape.doc@) + extra) + kind_text(shape)
}

/// The schema entries for what a shape is.
pub open spec fn kind_text(shape: JsonShape) -> Seq<char>
    decreases shape, 1nat, 0nat,
{
    match shape.kind {
        JsonKind::Struct(fields) => "\"type\": \"object\","@ + "\"required\": ["@ + required_text(
            fields@,
            fields@.len() as int,
        ) + "],"@ + "\"properties\": {"@ + properties_text(shape, fields@.len() as int) + "}"@,
        JsonKind::Integer { bits, signed } => "\"type\": \"integer\""@ + if signed {
            ", \"format\": \"int"@ + decimal(bits as nat) + "\""@
        } else {
            ", \"format\": \"uint"@ + decimal(bits as nat) + "\""@ + ", \"minimum\": 0"@
        },
        JsonKind::Number => "\"type\": \"number\""@ + ", \"format\": \"double\""@,
        JsonKind::Str => "\"type\": \"string\""@,
        JsonKind::Boolean => "\"type\": \"boolean\""@,
        JsonKind::List(inner) => "\"type\": \"array\","@ + "\"items\": {"@ + shape_text(*inner, seq![])
            + "}"@,
        JsonKind::Array(n, inner) => "\"type\": \"array\","@ + "\"minItems\": "@ + decimal(n as nat)
            + ","@ + "\"maxItems\": "@ + decimal(n as nat) + ","@ + "\"items\": {"@ + shape_text(
            *inner,
            seq![],
        ) + "}"@,
        JsonKind::Pointer(inner) => shape_text(*inner, seq![]),
        _ => "\"type\": \"unknown\""@,
    }
}

/// The names of the first `n` fields, each in quotes, separated by commas.
pub open spec fn required_text(fields: Seq<JsonField>, n: int) -> Seq<char>
    decreases n,
{
    if n <= 0 || n > fields.len() {
        seq![]
    } else if n == 1 {
        "\""@ + fields[0].name@ + "\""@
    } else {
        required_text(fields, n - 1) + ","@ + "\""@ + fields[n - 1].name@ + "\""@
    }
}

/// The property of a field: its name, then its schema in braces.
pub open spec fn property_text(name: Seq<char>, body: Seq<char>) -> Seq<char> {
    "\""@ + name + "\": {"@ + body + "}"@
}

/// The properties of the first `n` fields of a struct shape, separated by
/// commas.
pub open spec fn properties_text(shape: JsonShape, n: int) -> Seq<char>
    decreases shape, 0nat, if n > 0 { n as nat } else { 0 },
{
    match shape.kind {
        JsonKind::Struct(fields) => if n <= 0 || n > fields@.len() {
            seq![]
        } else {
            let f = fields@[n - 1];
            let p = property_text(f.name@, shape_text(f.shape, lines_of(f.doc@)));
            if n == 1 {
                p
            } else {
                properties_text(shape, n - 1) + ","@ + p
            }
        },
        _ => seq![],
    }
}

/// The text after the first `=` of `s`, up to the next `=` (nothing when
/// there is no `=`): what `split('=').nth(1)` gives, or its default.
pub open spec fn second_piece(s: Seq<char>) -> Seq<char> {
    match first_eq(s, 0) {
        None => seq![],
        Some(i) => {
            let rest = s.subrange(i + 1, s.len() as int);
            match first_eq(rest, 0) {
                None => rest,
                Some(j) => rest.subrange(0, j),
            }
        },
    }
}

/// The index of the first `=` at or after `i`.
pub open spec fn first_eq(s: Seq<char>, i: int) -> Option<int>
    decreases s.len() - i,
{
    if i < 0 || i >= s.len() {
        None
    } else if s[i] == '=' {
        Some(i)
    } else {
        first_eq(s, i + 1)
    }
}

/// The id that an attribute gives, if it starts with `id`: the text after
/// its `=`, trimmed, without quotes at either end.
pub open spec fn id_of(attr: Seq<char>) -> Option<Seq<char>> {
    if attr.len() >= 2 && attr[0] == 'i' && attr[1] == 'd' {
        Some(unquoted(trimmed(second_piece(attr))))
    } else {
        None
    }
}

/// The ids given by the first `n` attributes, in order.
pub open spec fn ids_of(attrs: Seq<Seq<char>>, n: int) -> Seq<Seq<char>>
    decreases n,
{
    if n <= 0 || n > attrs.len() {
        seq![]
    } else {
        match id_of(attrs[n - 1]) {
            Some(id) => ids_of(attrs, n - 1).push(id),
            None => ids_of(attrs, n - 1),
        }
    }
}

/// The whole schema document for a type with the given shape and
/// attributes.
pub open spec fn schema_document(shape: JsonShape, attrs: Seq<Seq<char>>) -> Seq<char> {
    let ids = ids_of(attrs, attrs.len() as int);
    "{"@ + "\"$schema\": \"https://json-schema.org/draft/2020-12/schema\","@ + (if ids.len() == 1 {
        "\"$id\": \""@ + ids[0] + "\","@
    } else {
        seq![]
    }) + shape_text(shape, seq![]) + "}"@
}


proof fn lemma_fields_supported(shape: JsonShape, n: int, k: int)
    requires
        fields_supported(shape, n),
        shape.kind is Struct,
        0 <= k < n <= shape.kind->Struct_0@.len(),
    ensures
        supported(shape.kind->Struct_0@[k].shape),
    decreases n,
{
    if k < n - 1 {
        lemma_fields_supported(shape, n - 1, k);
    }
}

/// Appends the lines joined by newlines.
fn push_joined(out: &mut String, lines: &Vec<String>)
    ensures
        final(out)@ == old(out)@ + join_lines(lines_of(lines@)),
{
    let ghost start = out@;
    let ghost all = lines_of(lines@);
    let mut i: usize = 0;
    while i < lines.len()
        invariant
            i <= lines@.len(),
            all == lines_of(lines@),
            out@ == start + join_lines(all.take(i as int)),
        decreases lines@.len() - i,
    {
        assert(all.take(i + 1).drop_last() =~= all.take(i as int));
        if i > 0 {
            string_push(out, '\n');
        }
        out.append(lines[i].as_str());
        assert(out@ =~= start + join_lines(all.take(i + 1)));
        i += 1;
    }
    assert(all.take(lines@.len() as int) =~= all);
}

/// Writes the `"description"` entry for the doc lines, if there are any.
fn serialize_doc(doc: &Vec<String>, out: &mut String)
    ensures
        final(out)@ == old(out)@ + description(lines_of(doc@)),
{
    if doc.len() > 0 {
        let mut joined = String::new();
        push_joined(&mut joined, doc);
        let chars = str_chars(joined.as_str());
        let trimmed_chars = strip(chars.as_slice(), false);
        out.append("\"description\": \"");
        push_chars(out, trimmed_chars.as_slice());
        out.append("\",");
    } else {
        assert(lines_of(doc@) =~= Seq::<Seq<char>>::empty());
    }
}

fn concat_docs(a: &Vec<String>, b: &Vec<String>) -> (r: Vec<String>)
    ensures
        lines_of(r@) == lines_of(a@) + lines_of(b@),
{
    let mut r: Vec<String> = Vec::new();
    let mut i: usize = 0;
    while i < a.len()
        invariant
            i <= a@.len(),
            r@.len() == i,
            forall|k: int| 0 <= k < i ==> #[trigger] r@[k]@ == a@[k]@,
        decreases a@.len() - i,
    {
        let line = a[i].clone();
        r.push(line);
        i += 1;
    }
    let mut j: usize = 0;
    while j < b.len()
        invariant
            j <= b@.len(),
            r@.len() == a@.len() + j,
            forall|k: int| 0 <= k < a@.len() ==> #[trigger] r@[k]@ == a@[k]@,
            forall|k: int| 0 <= k < j ==> #[trigger] r@[a@.len() + k]@ == b@[k]@,
        decreases b@.len() - j,
    {
        let line = b[j].clone();
        r.push(line);
        j += 1;
    }
    assert(lines_of(r@) =~= lines_of(a@) + lines_of(b@)) by {
        assert forall|k: int| 0 <= k < r@.len() implies #[trigger] lines_of(r@)[k] == (lines_of(a@) + lines_of(b@))[k] by {
            if k >= a@.len() {
                assert(r@[a@.len() + (k - a@.len())]@ == b@[k - a@.len()]@);
            }
        }
    }
    r
}

/// Writes the schema entries of a shape, whose description also takes the
/// lines `doc`.
fn serialize(shape: &JsonShape, doc: &Vec<String>, out: &mut String)
    requires
        supported(*shape),
    ensures
        final(out)@ == old(out)@ + shape_text(*shape, lines_of(doc@)),
    decreases *shape, 2nat, 0nat,
{
    let all = concat_docs(&shape.doc, doc);
    serialize_doc(&all, out);
    serialize_kind(shape, out);
}

fn serialize_kind(shape: &JsonShape, out: &mut String)
    requires
        supported(*shape),
    ensures
        final(out)@ == old(out)@ + kind_text(*shape),
    decreases *shape, 1nat, 0nat,
{
    let ghost start = out@;
    let no_doc: Vec<String> = Vec::new();
    assert(lines_of(no_doc@) =~= Seq::<Seq<char>>::empty());
    match &shape.kind {
        JsonKind::Struct(_) => serialize_struct(shape, out),
        JsonKind::Integer { bits, signed } => {
            out.append("\"type\": \"integer\"");
            if *signed {
                out.append(", \"format\": \"int");
                push_decimal(out, *bits);
                out.append("\"");
            } else {
                out.append(", \"format\": \"uint");
                push_decimal(out, *bits);
                out.append("\"");
                out.append(", \"minimum\": 0");
            }
        },
        JsonKind::Number => {
            out.append("\"type\": \"number\"");
            out.append(", \"format\": \"double\"");
        },
        JsonKind::Str => out.append("\"type\": \"string\""),
        JsonKind::Boolean => out.append("\"type\": \"boolean\""),
        JsonKind::List(inner) => {
            out.append("\"type\": \"array\",");
            out.append("\"items\": {");
            serialize(inner, &no_doc, out);
            out.append("}");
        },
        JsonKind::Array(n, inner) => {
            out.append("\"type\": \"array\",");
            out.append("\"minItems\": ");
            push_decimal(out, *n);
            out.append(",");
            out.append("\"maxItems\": ");
            push_decimal(out, *n);
            out.append(",");
            out.append("\"items\": {");
            serialize(inner, &no_doc, out);
            out.append("}");
        },
        JsonKind::Pointer(inner) => serialize(inner, &no_doc, out),
        _ => out.append("\"type\": \"unknown\""),
    }
    assert(out@ =~= start + kind_text(*shape));
}

fn serialize_struct(shape: &JsonShape, out: &mut String)
    requires
        supported(*shape),
        shape.kind is Struct,
    ensures
        final(out)@ == old(out)@ + kind_text(*shape),
    decreases *shape, 0nat, 0nat,
{
    let fields = match &shape.kind {
        JsonKind::Struct(fields) => fields,
        _ => { return; },
    };
    let ghost start = out@;
    out.append("\"type\": \"object\",");
    out.append("\"required\": [");
    let ghost mid = out@;
    let mut i: usize = 0;
    while i < fields.len()
        invariant
            i <= fields@.len(),
            out@ == mid + required_text(fields@, i as int),
        decreases fields@.len() - i,
    {
        if i > 0 {
            out.append(",");
        }
        out.append("\"");
        out.append(fields[i].name.as_str());
        out.append("\"");
        i += 1;
        assert(out@ =~= mid + required_text(fields@, i as int));
    }
    out.append("],");
    out.append("\"properties\": {");
    let ghost props = out@;
    let mut j: usize = 0;
    while j < fields.len()
        invariant
            j <= fields@.len(),
            shape.kind == JsonKind::Struct(*fields),
            supported(*shape),
            out@ == props + properties_text(*shape, j as int),
        decreases fields@.len() - j,
    {
        if j > 0 {
            out.append(",");
        }
        out.append("\"");
        out.append(fields[j].name.as_str());
        out.append("\": {");
        proof {
            lemma_fields_supported(*shape, fields@.len() as int, j as int);
        }
        serialize(&fields[j].shape, &fields[j].doc, out);
        out.append("}");
        j += 1;
        assert(out@ =~= props + properties_text(*shape, j as int));
    }
    out.append("}");
    assert(out@ =~= start + kind_text(*shape));
}

fn first_eq_index(s: &[char], from: usize) -> (r: Option<usize>)
    requires
        from <= s@.len(),
    ensures
        r matches Some(i) ==> first_eq(s@, from as int) == Some(i as int) && i < s@.len(),
        r is None ==> first_eq(s@, from as int) is None,
{
    let mut i = from;
    while i < s.len()
        invariant
            from <= i <= s@.len(),
            first_eq(s@, from as int) == first_eq(s@, i as int),
        decreases s@.len() - i,
    {
        if s[i] == '=' {
            return Some(i);
        }
        i += 1;
    }
    None
}

fn subrange_chars(s: &[char], from: usize, to: usize) -> (r: Vec<char>)
    requires
        from <= to <= s@.len(),
    ensures
        r@ == s@.subrange(from as int, to as int),
{
    let mut r: Vec<char> = Vec::new();
    let mut k = from;
    while k < to
        invariant
            from <= k <= to,
            to <= s@.len(),
            r@ == s@.subrange(from as int, k as int),
        decreases to - k,
    {
        r.push(s[k]);
        k += 1;
        assert(s@.subrange(from as int, k as int) =~= s@.subrange(from as int, k - 1).push(s@[k - 1]));
    }
    r
}

/// The id that an attribute gives, if it starts with `id`.
fn attribute_id(attr: &String) -> (r: Option<Vec<char>>)
    ensures
        match id_of(attr@) {
            Some(id) => r matches Some(v) && v@ == id,
            None => r is None,
        },
{
    let chars = str_chars(attr.as_str());
    if !(chars.len() >= 2 && chars[0] == 'i' && chars[1] == 'd') {
        return None;
    }
    let piece = match first_eq_index(chars.as_slice(), 0) {
        None => Vec::new(),
        Some(i) => {
            let rest = subrange_chars(chars.as_slice(), i + 1, chars.len());
            match first_eq_index(rest.as_slice(), 0) {
                None => rest,
                Some(j) => subrange_chars(rest.as_slice(), 0, j),
            }
        },
    };
    assert(piece@ == second_piece(attr@));
    let t = strip(piece.as_slice(), false);
    Some(strip(t.as_slice(), true))
}

/// The JSON Schema document of a type, from its shape and its arbitrary
/// attributes: the `$schema` line, the `$id` that an `id = "..."` attribute
/// gives (there may be at most one), then the type's entries.
pub fn to_string(shape: &JsonShape, attributes: &Vec<String>) -> (r: String)
    requires
        supported(*shape),
        ids_of(Seq::new(attributes@.len(), |i: int| attributes@[i]@), attributes@.len() as int).len() <= 1,
    ensures
        r@ == schema_document(*shape, Seq::new(attributes@.len(), |i: int| attributes@[i]@)),
{
    let ghost attrs = Seq::new(attributes@.len(), |i: int| attributes@[i]@);
    let mut id: Option<Vec<char>> = None;
    let mut i: usize = 0;
    while i < attributes.len()
        invariant
            i <= attributes@.len(),
            attrs == Seq::new(attributes@.len(), |i: int| attributes@[i]@),
            ids_of(attrs, attributes@.len() as int).len() <= 1,
            match id {
                Some(v) => ids_of(attrs, i as int) == seq![v@],
                None => ids_of(attrs, i as int) == Seq::<Seq<char>>::empty(),
            },
        decreases attributes@.len() - i,
    {
        proof {
            lemma_ids_grow(attrs, i as int + 1, attributes@.len() as int);
        }
        match attribute_id(&attributes[i]) {
            Some(found) => {
                id = Some(found);
            },
            None => {},
        }
        i += 1;
    }
    let mut out = String::new();
    out.append("{");
    out.append("\"$schema\": \"https://json-schema.org/draft/2020-12/schema\",");
    match &id {
        Some(v) => {
            out.append("\"$id\": \"");
            push_chars(&mut out, v.as_slice());
            out.append("\",");
        },
        None => {},
    }
    let no_doc: Vec<String> = Vec::new();
    assert(lines_of(no_doc@) =~= Seq::<Seq<char>>::empty());
    serialize(shape, &no_doc, &mut out);
    out.append("}");
    assert(out@ =~= schema_document(*shape, attrs));
    out
}

/// Why no schema is written for a type.
#[derive(Debug, PartialEq, Eq, Structural)]
pub enum SchemaRefusal {
    /// More than one attribute gives an id
    TooManyIds,
    /// The shape holds an enum, a map, an option or a scalar that has no
    /// schema
    Unsupported,
}

/// Whether a schema can be written for the shape.
pub fn is_supported(shape: &JsonShape) -> (r: bool)
    ensures
        r == supported(*shape),
    decreases *shape, 1nat, 0nat,
{
    match &shape.kind {
        JsonKind::Struct(fields) => {
            let mut i: usize = 0;
            while i < fields.len()
                invariant
                    i <= fields@.len(),
                    shape.kind == JsonKind::Struct(*fields),
                    fields_supported(*shape, i as int),
                decreases fields@.len() - i,
            {
                assert(decreases_to!(*shape => fields@[i as int].shape));
                if !is_supported(&fields[i].shape) {
                    proof {
                        lemma_fields_unsupported(*shape, i as int, fields@.len() as int);
                    }
                    return false;
                }
                i += 1;
            }
            true
        },
        JsonKind::List(inner) => is_supported(inner),
        JsonKind::Array(_, inner) => is_supported(inner),
        JsonKind::Pointer(inner) => is_supported(inner),
        JsonKind::Enum | JsonKind::MapOf | JsonKind::Optional | JsonKind::OtherNumber
        | JsonKind::OtherScalar(_) => false,
        _ => true,
    }
}

proof fn lemma_fields_unsupported(shape: JsonShape, k: int, n: int)
    requires
        shape.kind is Struct,
        0 <= k < n <= shape.kind->Struct_0@.len(),
        !supported(shape.kind->Struct_0@[k].shape),
    ensures
        !fields_supported(shape, n),
    decreases n,
{
    if k < n - 1 {
        lemma_fields_unsupported(shape, k, n - 1);
    }
}

/// The JSON Schema document of a type, or why there is none: more than
/// one id among the attributes, or a shape that has no schema (in that
/// order).
pub fn try_to_string(shape: &JsonShape, attributes: &Vec<String>) -> (r: Result<String, SchemaRefusal>)
    ensures
        ({
            let attrs = Seq::new(attributes@.len(), |i: int| attributes@[i]@);
            let ids = ids_of(attrs, attributes@.len() as int);
            &&& ids.len() > 1 ==> r == Err::<String, SchemaRefusal>(SchemaRefusal::TooManyIds)
            &&& ids.len() <= 1 && !supported(*shape) ==> r == Err::<String, SchemaRefusal>(SchemaRefusal::Unsupported)
            &&& ids.len() <= 1 && supported(*shape) ==> (r matches Ok(text) && text@ == schema_document(*shape, attrs))
        }),
{
    let ghost attrs = Seq::new(attributes@.len(), |i: int| attributes@[i]@);
    let mut count: usize = 0;
    let mut i: usize = 0;
    while i < attributes.len()
        invariant
            i <= attributes@.len(),
            attrs == Seq::new(attributes@.len(), |i: int| attributes@[i]@),
            count == ids_of(attrs, i as int).len(),
            count <= i,
        decreases attributes@.len() - i,
    {
        match attribute_id(&attributes[i]) {
            Some(_) => {
                count += 1;
            },
            None => {},
        }
        i += 1;
    }
    if count > 1 {
        return Err(SchemaRefusal::TooManyIds);
    }
    if !is_supported(shape) {
        return Err(SchemaRefusal::Unsupported);
    }
    Ok(to_string(shape, attributes))
}

proof fn lemma_ids_grow(attrs: Seq<Seq<char>>, i: int, n: int)
    requires
        0 <= i <= n <= attrs.len(),
    ensures
        ids_of(attrs, i).len() <= ids_of(attrs, n).len(),
    decreases n - i,
{
    if i < n {
        lemma_ids_grow(attrs, i, n - 1);
    }
}

/// A field's schema is described by its type's doc lines followed by the
/// field's own doc lines: in the properties of a struct, the property of
/// field `k` is its name, then, in braces, the description made of the
/// lines of the field type's doc comment and then those of the field's doc
/// comment, then what the field's type is; it follows the properties of
/// the fields before it, after a comma.
pub proof fn law_field_description_type_doc_first(shape: JsonShape, k: int)
    requires
        shape.kind is Struct,
        0 <= k < shape.kind->Struct_0@.len(),
    ensures
        ({
            let f = shape.kind->Struct_0@[k];
            properties_text(shape, k + 1) == (if k == 0 { seq![] } else { properties_text(shape, k) + ","@ })
                + "\""@ + f.name@ + "\": {"@ + description(lines_of(f.shape.doc@) + lines_of(f.doc@))
                + kind_text(f.shape) + "}"@
        }),
{
    let f = shape.kind->Struct_0@[k];
    assert(property_text(f.name@, shape_text(f.shape, lines_of(f.doc@))) =~= "\""@ + f.name@ + "\": {"@
        + description(lines_of(f.shape.doc@) + lines_of(f.doc@)) + kind_text(f.shape) + "}"@);
    if k == 0 {
        assert(seq![] + property_text(f.name@, shape_text(f.shape, lines_of(f.doc@))) =~= property_text(
            f.name@,
            shape_text(f.shape, lines_of(f.doc@)),
        ));
    } else {
        assert(properties_text(shape, k) + ","@ + property_text(f.name@, shape_text(f.shape, lines_of(f.doc@)))
            =~= properties_text(shape, k) + ","@ + "\""@ + f.name@ + "\": {"@ + description(
            lines_of(f.shape.doc@) + lines_of(f.doc@),
        ) + kind_text(f.shape) + "}"@);
    }
}

/// The document of a struct with one field, and no id among its
/// attributes: the schema line, the struct's own description, the object
/// with its one required field, and that field's property, described by
/// the field type's doc lines followed by the field's doc lines.
pub proof fn law_one_field_document(doc: Vec<String>, field: JsonField, fields: Vec<JsonField>, shape: JsonShape)
    requires
        fields@ == seq![field],
        shape.doc == doc,
        shape.kind == JsonKind::Struct(fields),
    ensures
        schema_document(shape, seq![]) == "{"@ + "\"$schema\": \"https://json-schema.org/draft/2020-12/schema\","@
            + description(lines_of(doc@)) + "\"type\": \"object\","@ + "\"required\": ["@ + "\""@ + field.name@
            + "\""@ + "],"@ + "\"properties\": {"@ + "\""@ + field.name@ + "\": {"@ + description(
            lines_of(field.shape.doc@) + lines_of(field.doc@),
        ) + kind_text(field.shape) + "}"@ + "}"@ + "}"@,
{
    law_field_description_type_doc_first(shape, 0);
    assert(ids_of(seq![], 0) =~= Seq::<Seq<char>>::empty());
    assert(lines_of(doc@) + seq![] =~= lines_of(doc@));
    let props = properties_text(shape, 1);
    let req = required_text(fields@, 1);
    assert(req == "\""@ + field.name@ + "\""@);
    let kt = "\"type\": \"object\","@ + "\"required\": ["@ + req + "],"@ + "\"properties\": {"@ + props + "}"@;
    assert(kind_text(shape) == kt);
    assert(shape_text(shape, seq![]) == description(lines_of(doc@)) + kt);
    assert(schema_document(shape, seq![]) == "{"@ + "\"$schema\": \"https://json-schema.org/draft/2020-12/schema\","@
        + Seq::<char>::empty() + (description(lines_of(doc@)) + kt) + "}"@);
    assert(schema_document(shape, seq![]) =~= "{"@ + "\"$schema\": \"https://json-schema.org/draft/2020-12/schema\","@
        + description(lines_of(doc@)) + "\"type\": \"object\","@ + "\"required\": ["@ + "\""@ + field.name@
        + "\""@ + "],"@ + "\"properties\": {"@ + "\""@ + field.name@ + "\": {"@ + description(
        lines_of(field.shape.doc@) + lines_of(field.doc@),
    ) + kind_text(field.shape) + "}"@ + "}"@ + "}"@);
}

proof fn lemma_join_append(a: Seq<Seq<char>>, b: Seq<Seq<char>>)
    requires
        a.len() > 0,
        b.len() > 0,
    ensures
        join_lines(a + b) == join_lines(a) + seq!['\n'] + join_lines(b),
    decreases b.len(),
{
    if b.len() == 1 {
        assert((a + b).drop_last() =~= a);
        assert((a + b).last() == b[0]);
    } else {
        lemma_join_append(a, b.drop_last());
        assert((a + b).drop_last() =~= a + b.drop_last());
        assert((a + b).last() == b.last());
        assert(join_lines(a) + seq!['\n'] + join_lines(b.drop_last()) + seq!['\n'] + b.last() =~= join_lines(a)
            + seq!['\n'] + (join_lines(b.drop_last()) + seq!['\n'] + b.last()));
    }
}

/// When both the field's type and the field have doc lines, the field's
/// description is the type's doc text, a newline, then the field's doc
/// text (each the lines joined by newlines), trimmed as a whole.
pub proof fn law_field_description_joins_type_then_field(type_doc: Seq<String>, field_doc: Seq<String>)
    requires
        type_doc.len() > 0,
        field_doc.len() > 0,
    ensures
        description(lines_of(type_doc) + lines_of(field_doc)) == "\"description\": \""@ + trimmed(
            join_lines(lines_of(type_doc)) + seq!['\n'] + join_lines(lines_of(field_doc)),
        ) + "\","@,
{
    lemma_join_append(lines_of(type_doc), lines_of(field_doc));
}

} // verus!
