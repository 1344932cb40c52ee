//! Reading a KDL document into a struct whose fields are child nodes: the
//! document is parsed by the `kdl` crate, and the reading decides, from
//! the target's shape and the document's nodes, which error comes or
//! which field the last node fills.
use vstd::prelude::*;
use kdl::KdlDocument;
use crate::build_state::{names_of, copy, ReflectError, reflect_message};

verus! {

/// The names of the top-level nodes of a KDL text, in order, or `None`
/// when `KdlDocument`'s parser rejects the text.
pub uninterp spec fn kdl_nodes(text: Seq<char>) -> Option<Seq<Seq<char>>>;

/// The message of a KDL parse error, as its `Display` writes it: always
/// the same sentence (the details are in its diagnostics).
pub open spec fn kdl_parse_message() -> Seq<char> {
    "Failed to parse KDL document"@
}

/// `str::parse::<KdlDocument>`, then the names of the document's nodes
/// (`KdlNode::name().value()`), in order; on a parse error, its message.
#[verifier::external_body]
fn parse_kdl_nodes(text: &str) -> (r: Result<Vec<String>, String>)
    ensures
        match r {
            Ok(names) => kdl_nodes(text@) == Some(names_of(names@)),
            Err(m) => kdl_nodes(text@) is None && m@ == kdl_parse_message(),
        },
{
    match text.parse::<KdlDocument>() {
        Ok(doc) => Ok(doc.nodes().iter().map(|n| n.name().value().to_string()).collect()),
        Err(e) => Err(e.to_string()),
    }
}

/// A field of the struct that a document is read into.
pub struct NodeField {
    /// The field's name
    pub name: String,
    /// Whether the field is marked as a child node
    pub child: bool,
}

/// The shape of the type that a document is read into.
pub enum DocumentShape {
    /// A struct: its fields, the description of its definition, and its
    /// shape as `Display` writes it
    Struct { fields: Vec<NodeField>, def: String, shape: String },
    /// Any other type
    Other,
}

/// What goes wrong while reading a KDL document.
pub enum KdlErrorKind {
    /// The target is a struct with a field that is not a child node; the
    /// description of its definition
    InvalidDocumentShape(String),
    /// The document has no node where one was expected; what was expected
    MissingNodes(Vec<String>),
    /// The text is not KDL; the parser's message
    Parse(String),
    /// Building the value refused a step
    Reflect(ReflectError),
}

/// An error of KDL reading.
pub struct KdlError {
    /// What went wrong
    pub kind: KdlErrorKind,
}

/// What a reading error is, as plain values (a parse error's message
/// aside).
pub enum KdlErrorView {
    InvalidDocumentShape(Seq<char>),
    MissingNodes(Seq<Seq<char>>),
    /// The text is not KDL; the parser's message
    Parse(Seq<char>),
    /// An operation of building failed on a shape
    Reflect { shape: Seq<char>, operation: Seq<char> },
    /// Building refused a step otherwise; the refusal's message
    ReflectOther(Seq<char>),
}

impl KdlError {
    /// This error as plain values.
    pub open spec fn eview(self) -> KdlErrorView {
        match self.kind {
            KdlErrorKind::InvalidDocumentShape(d) => KdlErrorView::InvalidDocumentShape(d@),
            KdlErrorKind::MissingNodes(v) => KdlErrorView::MissingNodes(names_of(v@)),
            KdlErrorKind::Parse(m) => KdlErrorView::Parse(m@),
            KdlErrorKind::Reflect(e) => match e {
                ReflectError::OperationFailed { shape, operation } => KdlErrorView::Reflect {
                    shape: shape@,
                    operation: operation@,
                },
                _ => KdlErrorView::ReflectOther(reflect_message(e)),
            },
        }
    }
}

/// Whether the first `n` fields are all child nodes.
pub open spec fn all_children(fields: Seq<NodeField>, n: int) -> bool
    decreases n,
{
    if n <= 0 || n > fields.len() {
        true
    } else {
        all_children(fields, n - 1) && fields[n - 1].child
    }
}

/// The index of the first field at or after `i` named `name`.
pub open spec fn field_named(fields: Seq<NodeField>, name: Seq<char>, i: int) -> Option<int>
    decreases fields.len() - i,
{
    if i < 0 || i >= fields.len() {
        None
    } else if fields[i].name@ == name {
        Some(i)
    } else {
        field_named(fields, name, i + 1)
    }
}

/// Where reading a document of these nodes into a struct of these fields
/// goes: a struct with a field that is not a child node is no document; a
/// document without nodes misses one; else the last node must name a
/// field, which it then fills, and naming none is a field that building
/// the struct (of shape `shape`) does not find.
pub open spec fn document_outcome(fields: Seq<NodeField>, def: Seq<char>, shape: Seq<char>, nodes: Seq<Seq<char>>) -> Result<int, KdlErrorView> {
    if !all_children(fields, fields.len() as int) {
        Err(KdlErrorView::InvalidDocumentShape(def))
    } else if nodes.len() == 0 {
        Err(KdlErrorView::MissingNodes(seq!["TODO"@]))
    } else {
        match field_named(fields, nodes.last(), 0) {
            Some(i) => Ok(i),
            None => Err(KdlErrorView::Reflect { shape, operation: "field not found"@ }),
        }
    }
}

/// Whether a result of reading is the one the spec gives.
pub open spec fn outcome_is(r: Result<usize, KdlError>, g: Result<int, KdlErrorView>) -> bool {
    match (r, g) {
        (Ok(i), Ok(j)) => i == j,
        (Err(e), Err(v)) => e.eview() == v,
        _ => false,
    }
}

/// The index of the first field named `name`.
fn find_field(fields: &Vec<NodeField>, name: &String) -> (r: Option<usize>)
    ensures
        match r {
            Some(i) => field_named(fields@, name@, 0) == Some(i as int),
            None => field_named(fields@, name@, 0) is None,
        },
{
    let mut i: usize = 0;
    while i < fields.len()
        invariant
            i <= fields@.len(),
            field_named(fields@, name@, 0) == field_named(fields@, name@, i as int),
        decreases fields@.len() - i,
    {
        if fields[i].name == *name {
            return Some(i);
        }
        i += 1;
    }
    None
}

/// Reads a document of the given nodes into a struct of the given fields,
/// as far as reading goes: the index of the field that the last node
/// fills, or the error.
pub fn deserialize_document(fields: &Vec<NodeField>, def: &String, shape: &String, nodes: &Vec<String>) -> (r: Result<usize, KdlError>)
    ensures
        outcome_is(r, document_outcome(fields@, def@, shape@, names_of(nodes@))),
{
    let mut i: usize = 0;
    while i < fields.len()
        invariant
            i <= fields@.len(),
            all_children(fields@, i as int),
        decreases fields@.len() - i,
    {
        if !fields[i].child {
            proof {
                lemma_not_all_children(fields@, i as int, fields@.len() as int);
            }
            return Err(KdlError { kind: KdlErrorKind::InvalidDocumentShape(copy(def)) });
        }
        i += 1;
    }
    if nodes.len() == 0 {
        let mut expected: Vec<String> = Vec::new();
        expected.push(String::from_str("TODO"));
        let r = KdlError { kind: KdlErrorKind::MissingNodes(expected) };
        proof {
            reveal_strlit("TODO");
        }
        assert(names_of(expected@) =~= seq!["TODO"@]);
        return Err(r);
    }
    let last = &nodes[nodes.len() - 1];
    assert(names_of(nodes@).last() == last@);
    match find_field(fields, last) {
        Some(i) => Ok(i),
        None => Err(
            KdlError {
                kind: KdlErrorKind::Reflect(
                    ReflectError::OperationFailed { shape: copy(shape), operation: String::from_str("field not found") },
                ),
            },
        ),
    }
}

proof fn lemma_not_all_children(fields: Seq<NodeField>, i: int, n: int)
    requires
        0 <= i < n <= fields.len(),
        !fields[i].child,
    ensures
        !all_children(fields, n),
    decreases n,
{
    if i < n - 1 {
        lemma_not_all_children(fields, i, n - 1);
    }
}

/// How `Debug` writes a string: in double quotes, with the characters that
/// need it escaped.
pub uninterp spec fn str_debug_text(s: Seq<char>) -> Seq<char>;

/// `format!("{:?}", s)` for a string slice.
#[verifier::external_body]
fn debug_str(s: &str) -> (r: String)
    ensures
        r@ == str_debug_text(s@),
{
    format!("{:?}", s)
}

/// The first `n` strings as `Debug` writes them, separated by `", "`.
pub open spec fn debug_items(v: Seq<Seq<char>>, n: int) -> Seq<char>
    decreases n,
{
    if n <= 0 || n > v.len() {
        seq![]
    } else {
        debug_items(v, n - 1) + (if n > 1 { ", "@ } else { seq![] }) + str_debug_text(v[n - 1])
    }
}

/// The message of a reading error: what the definition was for a
/// document of the wrong shape, the nodes looked for (as `Debug` writes
/// the list), the parser's message, or the message of the building step
/// that was refused.
pub open spec fn kdl_message(e: KdlError) -> Seq<char> {
    match e.kind {
        KdlErrorKind::InvalidDocumentShape(def) => "invalid shape "@ + def@ + " \u{2014} needed... TODO"@,
        KdlErrorKind::MissingNodes(v) => "failed to find node ["@ + debug_items(names_of(v@), v@.len() as int)
            + "]"@,
        KdlErrorKind::Parse(m) => m@,
        KdlErrorKind::Reflect(r) => reflect_message(r),
    }
}

impl KdlError {
    /// The error's message.
    pub fn message(&self) -> (r: String)
        ensures
            r@ == kdl_message(*self),
    {
        match &self.kind {
            KdlErrorKind::InvalidDocumentShape(def) => {
                let mut out = String::from_str("invalid shape ");
                out.append(def.as_str());
                out.append(" \u{2014} needed... TODO");
                out
            },
            KdlErrorKind::MissingNodes(v) => {
                let mut out = String::from_str("failed to find node [");
                let mut i: usize = 0;
                while i < v.len()
                    invariant
                        i <= v@.len(),
                        out@ == "failed to find node ["@ + debug_items(names_of(v@), i as int),
                    decreases v@.len() - i,
                {
                    if i > 0 {
                        out.append(", ");
                    }
                    let d = debug_str(v[i].as_str());
                    out.append(d.as_str());
                    assert(names_of(v@)[i as int] == v@[i as int]@);
                    i += 1;
                }
                out.append("]");
                out
            },
            KdlErrorKind::Parse(m) => copy(m),
            KdlErrorKind::Reflect(r) => r.message(),
        }
    }
}

/// How far reading a document goes when no error stops it.
#[derive(Debug, PartialEq, Eq, Structural)]
pub enum Progress {
    /// The last node fills the struct's field at this index
    FieldSelected(usize),
    /// The target is not a struct
    NotAStruct,
}

/// Reads a KDL text into a type of the given shape, as far as reading
/// goes: a parse error first; then, for a struct, what
/// `deserialize_document` gives for the document's nodes.
pub fn from_str(kdl: &str, shape: &DocumentShape) -> (r: Result<Progress, KdlError>)
    ensures
        match kdl_nodes(kdl@) {
            None => r matches Err(e) && e.eview() == KdlErrorView::Parse(kdl_parse_message()),
            Some(names) => match shape {
                DocumentShape::Struct { fields, def, shape } => match (r, document_outcome(fields@, def@, shape@, names)) {
                    (Ok(Progress::FieldSelected(i)), Ok(j)) => i == j,
                    (Err(e), Err(v)) => e.eview() == v,
                    _ => false,
                },
                DocumentShape::Other => r == Ok::<Progress, KdlError>(Progress::NotAStruct),
            },
        },
{
    match parse_kdl_nodes(kdl) {
        Err(message) => Err(KdlError { kind: KdlErrorKind::Parse(message) }),
        Ok(nodes) => match shape {
            DocumentShape::Struct { fields, def, shape } => match deserialize_document(fields, def, shape, &nodes) {
                Ok(i) => Ok(Progress::FieldSelected(i)),
                Err(e) => Err(e),
            },
            DocumentShape::Other => Ok(Progress::NotAStruct),
        },
    }
}

} // verus!
