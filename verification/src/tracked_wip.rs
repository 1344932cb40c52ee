//! A builder whose frames each record their own initialization state:
//! which fields are set, the variant chosen, the index of the next element,
//! and how the frame was entered (as a field, a list element, a map's key
//! or value, an option's content). Closing a frame marks what it finished
//! in its parent and names the memory work that goes with it; closed
//! frames are kept, so that dropping the builder can clean them up.
use vstd::prelude::*;
use crate::build_state::{ISet, ReflectError, first_set, copy};

verus! {

/// How a frame was entered.
#[derive(PartialEq, Eq, Structural, Clone, Copy)]
pub enum FrameMode {
    /// The value being built
    Root,
    /// A field of a struct or enum
    Field,
    /// An element of a list, tuple, array, or tuple-like struct or variant
    ListElement,
    /// The key of a map entry
    MapKey,
    /// The value of a map entry, whose key is the frame at this index
    MapValue { index: usize },
    /// The content of an option
    OptionSome,
    /// An option left empty
    OptionNone,
}

/// A variant by its number of fields, and whether it is tuple-like.
#[derive(PartialEq, Eq, Structural, Clone, Copy, Debug)]
pub struct VariantForm {
    pub fields: usize,
    pub tuple: bool,
}

/// What a type is, as closing a frame reads it.
pub enum PartKind {
    /// A struct with this many fields, tuple-like or not
    Struct { fields: usize, tuple: bool },
    /// An enum with these variants
    Enum { variants: Vec<VariantForm> },
    /// A tuple with this many fields
    Tuple(usize),
    /// Anything else
    Other,
}

/// What a type's definition is, as closing a frame reads it.
pub enum PartDef {
    /// A list
    List,
    /// A map
    MapDef,
    /// An option
    Optional,
    /// An array of this many elements
    Array(usize),
    /// A scalar with no data (a unit)
    EmptyScalar,
    /// Anything else
    Other,
}

/// A type: its description, what it is, its definition, and whether it
/// is sized.
pub struct PartShape {
    pub shape: String,
    pub kind: PartKind,
    pub def: PartDef,
    pub sized: bool,
}

/// How far a frame's value is initialized, and how the frame was entered.
pub struct IState {
    /// The fields that are set (for a value without fields, the first
    /// flag says whether it is set)
    pub fields: ISet,
    /// The variant chosen, for an enum
    pub variant: Option<VariantForm>,
    /// One past the index of the element being built, for a sequence
    pub list_index: Option<usize>,
    /// How the frame was entered
    pub mode: FrameMode,
    /// Whether the value was moved out of the frame's memory
    pub moved: bool,
}

/// A frame: the type it builds, the index of the parent's field it
/// builds (if it builds one), and its state.
pub struct TrackedFrame {
    pub shape: PartShape,
    pub field_index_in_parent: Option<usize>,
    pub istate: IState,
}

/// What must be done with memory when a frame is closed.
#[derive(PartialEq, Eq, Structural, Clone, Copy)]
pub enum PopWork {
    /// Nothing
    Nothing,
    /// Push the finished element onto the parent list
    PushToList,
    /// Copy the finished element into the parent's field at this index
    FillField(usize),
    /// Copy the finished element into the parent array at this index
    FillElement(usize),
    /// Insert the finished key and value into the parent map
    InsertEntry,
    /// Make the parent option hold the finished content
    InitSome,
}

/// A builder: the open frames, the root first, and the closed frames kept
/// for cleaning up.
pub struct TrackedWip {
    pub frames: Vec<TrackedFrame>,
    pub closed: Vec<TrackedFrame>,
}

/// Whether exactly the flags below `n` are set.
pub open spec fn exactly_first(s: Seq<bool>, n: int) -> bool {
    forall|i: int| 0 <= i < 64 ==> s[i] == (i < n)
}

/// Whether the frame's value is complete: a struct's fields are all set,
/// an enum has a variant whose fields are all set, and anything else has
/// its first flag set.
pub open spec fn complete(f: TrackedFrame) -> bool {
    match f.shape.kind {
        PartKind::Struct { fields, .. } => first_set(f.istate.fields@, fields as int),
        PartKind::Enum { .. } => match f.istate.variant {
            Some(v) => first_set(f.istate.fields@, v.fields as int),
            None => false,
        },
        _ => f.istate.fields@[0],
    }
}

/// Whether `g` is `f` with only its set flags replaced by `s`.
pub open spec fn with_flags(f: TrackedFrame, g: TrackedFrame, s: Seq<bool>) -> bool {
    &&& g.shape == f.shape
    &&& g.field_index_in_parent == f.field_index_in_parent
    &&& g.istate.variant == f.istate.variant
    &&& g.istate.list_index == f.istate.list_index
    &&& g.istate.mode == f.istate.mode
    &&& g.istate.moved == f.istate.moved
    &&& g.istate.fields@ == s
}

/// Whether `g` is `f` marked complete: an array's next index is its
/// length, a struct's or the chosen variant's fields are exactly those
/// set, and anything else has its first flag set.
pub open spec fn marks(f: TrackedFrame, g: TrackedFrame) -> bool {
    &&& g.shape == f.shape
    &&& g.field_index_in_parent == f.field_index_in_parent
    &&& g.istate.variant == f.istate.variant
    &&& g.istate.mode == f.istate.mode
    &&& g.istate.moved == f.istate.moved
    &&& g.istate.list_index == match f.shape.def {
        PartDef::Array(n) => Some(n),
        _ => f.istate.list_index,
    }
    &&& match f.shape.kind {
        PartKind::Struct { fields, .. } => exactly_first(g.istate.fields@, fields as int),
        PartKind::Enum { .. } => match f.istate.variant {
            Some(v) => exactly_first(g.istate.fields@, v.fields as int),
            None => g.istate.fields@ == f.istate.fields@,
        },
        _ => g.istate.fields@ == f.istate.fields@.update(0, true),
    }
}

/// Whether `g` is the finished frame `f` marked complete, an array then
/// having its first flag set too.
pub open spec fn marks_popped(f: TrackedFrame, g: TrackedFrame) -> bool {
    exists|f0: TrackedFrame| {
        &&& #[trigger] marks(f, f0)
        &&& if f.shape.def is Array {
            with_flags(f0, g, f0.istate.fields@.update(0, true))
        } else {
            g == f0
        }
    }
}

/// Whether `g` is `f` with its value moved out.
pub open spec fn moved_out(f: TrackedFrame, g: TrackedFrame) -> bool {
    &&& g.shape == f.shape
    &&& g.field_index_in_parent == f.field_index_in_parent
    &&& g.istate.variant == f.istate.variant
    &&& g.istate.list_index == f.istate.list_index
    &&& g.istate.mode == f.istate.mode
    &&& g.istate.fields@ == f.istate.fields@
    &&& g.istate.moved
}

/// Whether marking the frame complete stays within 64 flags, and does not
/// need to read the variant of an enum from memory.
pub open spec fn markable(f: TrackedFrame) -> bool {
    match f.shape.kind {
        PartKind::Struct { fields, .. } => fields <= 64,
        PartKind::Enum { .. } => f.istate.variant matches Some(v) && v.fields <= 64,
        _ => true,
    }
}

/// Whether checking the frame for completeness stays within 64 flags.
pub open spec fn checkable_frame(f: TrackedFrame) -> bool {
    match f.shape.kind {
        PartKind::Struct { fields, .. } => fields <= 64,
        PartKind::Enum { .. } => f.istate.variant matches Some(v) ==> v.fields <= 64,
        _ => true,
    }
}

/// The index of the element just finished in a sequence: one before the
/// next index (the next index being 1 when none is recorded).
pub open spec fn element_index(p: TrackedFrame) -> int {
    match p.istate.list_index {
        Some(k) => k - 1,
        None => 0,
    }
}

/// The number of fields a tuple-like parent has, if it takes finished
/// elements as fields: a tuple, a tuple-like struct with fields, or an
/// enum whose chosen variant is tuple-like.
pub open spec fn tuple_fields(p: TrackedFrame) -> Option<int> {
    match p.shape.kind {
        PartKind::Tuple(n) => Some(n as int),
        PartKind::Struct { fields, tuple: true } => if fields > 0 { Some(fields as int) } else { None },
        PartKind::Enum { .. } => match p.istate.variant {
            Some(v) => if v.tuple { Some(v.fields as int) } else { None },
            None => None,
        },
        _ => None,
    }
}

/// Whether the parent of a finished list element can take it without a
/// panic: a list or unit takes it whole; a tuple-like parent or an array
/// at a valid index, with the parent's flags, and, for an array, its own
/// parent's, within range.
pub open spec fn takes_element(p: TrackedFrame, below: Seq<TrackedFrame>) -> bool {
    match p.shape.def {
        PartDef::List => true,
        PartDef::EmptyScalar => markable(p),
        _ => if p.shape.kind matches PartKind::Struct { fields: 0, tuple: true } {
            true
        } else if let Some(n) = tuple_fields(p) {
            &&& p.istate.list_index != Some(0usize)
            &&& 0 <= element_index(p) < n
            &&& element_index(p) < 64
        } else if p.shape.kind is Enum {
            false
        } else {
            match p.shape.def {
                PartDef::Array(n) => {
                    &&& p.istate.list_index != Some(0usize)
                    &&& 0 <= element_index(p) < n
                    &&& markable(p)
                    &&& (p.istate.list_index == Some(n) && below.len() >= 1 ==> (p.field_index_in_parent
                        matches Some(k) ==> k < 64))
                },
                _ => false,
            }
        },
    }
}

/// Whether closing the innermost frame of `w` runs without a panic: the
/// flags it touches stay within range, and a finished element, map value
/// or option content has a parent of the right kind (and a map value its
/// key, initialized, at the recorded index).
pub open spec fn can_pop_inner(w: TrackedWip) -> bool {
    let n = w.frames@.len();
    n > 0 ==> {
        let f = w.frames@[n - 1];
        &&& checkable_frame(f)
        &&& complete(f) ==> {
            &&& markable(f)
            &&& (n >= 2 ==> (f.field_index_in_parent matches Some(k) ==> k < 64))
            &&& f.istate.mode == FrameMode::ListElement ==> n >= 2 && takes_element(
                w.frames@[n - 2],
                w.frames@.take(n - 2),
            )
            &&& f.istate.mode matches FrameMode::MapValue { index } ==> {
                &&& index < n - 1
                &&& n >= 3
                &&& exists|j: int| 0 <= j < 64 && #[trigger] w.frames@[index as int].istate.fields@[j]
                &&& w.frames@.remove(index as int)[n - 3].shape.def is MapDef
            }
            &&& f.istate.mode == FrameMode::OptionSome ==> {
                &&& n >= 2
                &&& w.frames@[n - 2].shape.def is Optional
                &&& w.frames@[n - 2].shape.kind matches PartKind::Enum { variants } ==> variants@.len() >= 2
                &&& markable_as_some(w.frames@[n - 2])
            }
        }
    }
}

/// Whether the frames below a finished frame `f1` let it be closed
/// without a panic (see `can_pop_inner`).
pub open spec fn can_close(f1: TrackedFrame, frames: Seq<TrackedFrame>) -> bool {
    let m = frames.len();
    &&& checkable_frame(f1)
    &&& complete(f1) ==> {
        &&& f1.istate.mode == FrameMode::ListElement ==> m >= 1 && takes_element(frames[m - 1], frames.take(m - 1))
        &&& f1.istate.mode matches FrameMode::MapValue { index } ==> {
            &&& index < m
            &&& m >= 2
            &&& exists|j: int| 0 <= j < 64 && #[trigger] frames[index as int].istate.fields@[j]
            &&& frames.remove(index as int)[m - 2].shape.def is MapDef
        }
        &&& f1.istate.mode == FrameMode::OptionSome ==> {
            &&& m >= 1
            &&& frames[m - 1].shape.def is Optional
            &&& frames[m - 1].shape.kind matches PartKind::Enum { variants } ==> variants@.len() >= 2
            &&& markable_as_some(frames[m - 1])
        }
    }
}

/// The variant an option takes when its content is set: its second
/// variant when it is an enum, else a tuple-like variant without fields.
pub open spec fn some_variant(p: TrackedFrame) -> VariantForm {
    match p.shape.kind {
        PartKind::Enum { variants } => variants@[1],
        _ => VariantForm { fields: 0, tuple: true },
    }
}

/// Whether an option can be marked complete once its variant is the one
/// that holds content.
pub open spec fn markable_as_some(p: TrackedFrame) -> bool {
    match p.shape.kind {
        PartKind::Struct { fields, .. } => fields <= 64,
        PartKind::Enum { .. } => some_variant(p).fields <= 64,
        _ => true,
    }
}

/// The open frames once the innermost frame `f` is finished: the
/// frame's parent (the last of `rest`) marks the field that `f` builds.
pub open spec fn parent_marked(rest: Seq<TrackedFrame>, f: TrackedFrame, rest1: Seq<TrackedFrame>) -> bool {
    if rest.len() >= 1 && f.field_index_in_parent is Some {
        let k = f.field_index_in_parent->Some_0;
        &&& rest1.len() == rest.len()
        &&& rest1.take(rest.len() - 1) == rest.take(rest.len() - 1)
        &&& with_flags(rest[rest.len() - 1], rest1[rest.len() - 1], rest[rest.len() - 1].istate.fields@.update(k as int, true))
    } else {
        rest1 == rest
    }
}

/// What closing the innermost frame does. With no frame, nothing. Else
/// the frame is taken off; when its value is complete it is marked so,
/// its parent marks the field it builds, and then, by how it was entered:
/// a finished list element is pushed onto a list parent, completes a unit
/// parent, or is copied into a tuple-like or array parent at the element
/// index (a complete array then being marked so, and its own parent
/// marking the field it builds); a finished map value is inserted with its
/// key, whose frame is taken out; a finished option content makes its
/// parent option complete. Copying an unsized value fails, the frame then
/// being dropped. The closed frame is handed back with the memory work.
pub open spec fn popped_inner(w: TrackedWip, w2: TrackedWip, r: Result<Option<(TrackedFrame, PopWork)>, ReflectError>) -> bool {
    let n = w.frames@.len();
    &&& w2.closed@ == w.closed@
    &&& if n == 0 {
        r == Ok::<Option<(TrackedFrame, PopWork)>, ReflectError>(None) && w2.frames@ == w.frames@
    } else {
        let f = w.frames@[n - 1];
        let rest = w.frames@.take(n - 1);
        exists|f1: TrackedFrame, rest1: Seq<TrackedFrame>| {
            &&& (if complete(f) { marks_popped(f, f1) && parent_marked(rest, f, rest1) } else { f1 == f && rest1 == rest })
            &&& closes(f1, rest1, w2.frames@, r)
        }
    }
}

/// The message for popping with no frame left.
pub open spec fn no_frame_text() -> Seq<char> {
    "No frame to pop \u{2014} it was time to call build()"@
}

/// What popping does: the innermost frame is closed as `popped_inner`
/// says, and kept among the closed frames; with no frame there is an
/// error.
pub open spec fn popped(w: TrackedWip, w3: TrackedWip, r: Result<PopWork, ReflectError>) -> bool {
    exists|w2: TrackedWip, ri: Result<Option<(TrackedFrame, PopWork)>, ReflectError>| {
        &&& #[trigger] popped_inner(w, w2, ri)
        &&& w3.frames@ == w2.frames@
        &&& match ri {
            Err(e) => r == Err::<PopWork, ReflectError>(e) && w3.closed@ == w2.closed@,
            Ok(None) => (r matches Err(ReflectError::InvariantViolation { violated }) && violated@ == no_frame_text())
                && w3.closed@ == w2.closed@,
            Ok(Some((g, work))) => r == Ok::<PopWork, ReflectError>(work) && w3.closed@ == w2.closed@.push(g),
        }
    }
}

/// What happens by the mode of the finished frame `f1`, whose parent is
/// the last of `rest1`.
pub open spec fn closes(f1: TrackedFrame, rest1: Seq<TrackedFrame>, frames2: Seq<TrackedFrame>, r: Result<Option<(TrackedFrame, PopWork)>, ReflectError>) -> bool {
    let m = rest1.len();
    if f1.istate.mode == FrameMode::ListElement && complete(f1) {
        let p = rest1[m - 1];
        match p.shape.def {
            PartDef::List => frames2 == rest1 && (r matches Ok(Some((g, PopWork::PushToList))) && moved_out(f1, g)),
            PartDef::EmptyScalar => {
                &&& frames2.len() == m && frames2.take(m - 1) == rest1.take(m - 1) && marks(p, frames2[m - 1])
                &&& r matches Ok(Some((g, PopWork::Nothing))) && moved_out(f1, g)
            },
            _ => if p.shape.kind matches PartKind::Struct { fields: 0, tuple: true } {
                &&& frames2.len() == m && frames2.take(m - 1) == rest1.take(m - 1) && marks(p, frames2[m - 1])
                &&& r matches Ok(Some((g, PopWork::Nothing))) && moved_out(f1, g)
            } else {
                if tuple_fields(p) is Some {
                    if !f1.shape.sized {
                        frames2 == rest1 && (r matches Err(ReflectError::Unsized { shape }) && shape@ == f1.shape.shape@)
                    } else {
                        let k = element_index(p);
                        &&& frames2.len() == m && frames2.take(m - 1) == rest1.take(m - 1)
                        &&& with_flags(p, frames2[m - 1], p.istate.fields@.update(k, true))
                        &&& r matches Ok(Some((g, PopWork::FillField(i)))) && i == k && moved_out(f1, g)
                    }
                } else if !f1.shape.sized {
                    frames2 == rest1 && (r matches Err(ReflectError::Unsized { shape }) && shape@ == f1.shape.shape@)
                } else {
                    let k = element_index(p);
                    let full = p.shape.def matches PartDef::Array(len) && p.istate.list_index == Some(len);
                    &&& frames2.len() == m
                    &&& r matches Ok(Some((g, PopWork::FillElement(i)))) && i == k && moved_out(f1, g)
                    &&& if !full {
                        frames2 == rest1
                    } else {
                        &&& marks(p, frames2[m - 1])
                        &&& if m >= 2 && p.field_index_in_parent is Some {
                            let q = rest1[m - 2];
                            &&& frames2.take(m - 2) == rest1.take(m - 2)
                            &&& with_flags(q, frames2[m - 2], q.istate.fields@.update(p.field_index_in_parent->Some_0 as int, true))
                        } else {
                            frames2.take(m - 1) == rest1.take(m - 1)
                        }
                    }
                }
            },
        }
    } else if f1.istate.mode is MapValue && complete(f1) {
        frames2 == rest1.remove(f1.istate.mode->index as int) && (r matches Ok(Some((g, PopWork::InsertEntry))) && moved_out(f1, g))
    } else if f1.istate.mode == FrameMode::OptionSome && complete(f1) {
        let p = rest1[m - 1];
        &&& frames2.len() == m && frames2.take(m - 1) == rest1.take(m - 1)
        &&& exists|p1: TrackedFrame| {
            &&& p1.shape == p.shape && p1.field_index_in_parent == p.field_index_in_parent
            &&& p1.istate.fields@ == p.istate.fields@ && p1.istate.list_index == p.istate.list_index
            &&& p1.istate.mode == p.istate.mode && p1.istate.moved == p.istate.moved
            &&& p1.istate.variant == Some(some_variant(p))
            &&& marks(p1, frames2[m - 1])
        }
        &&& r matches Ok(Some((g, PopWork::InitSome))) && moved_out(f1, g)
    } else {
        frames2 == rest1 && (r matches Ok(Some((g, PopWork::Nothing))) && g == f1)
    }
}

/// A set with no flag set.
fn empty_flags() -> (r: ISet)
    ensures
        forall|i: int| 0 <= i < 64 ==> !r@[i],
{
    let mut s = ISet::new(63);
    proof {
        s.lemma_view_len();
    }
    s.unset(63);
    s
}

/// A set with exactly the flags below `n` set.
fn first_flags(n: usize) -> (r: ISet)
    requires
        n <= 64,
    ensures
        exactly_first(r@, n as int),
{
    let mut s = empty_flags();
    proof {
        s.lemma_view_len();
    }
    let mut i: usize = 0;
    while i < n
        invariant
            i <= n <= 64,
            s@.len() == 64,
            forall|j: int| 0 <= j < 64 ==> s@[j] == (j < i),
        decreases n - i,
    {
        s.set(i);
        i += 1;
    }
    s
}

/// Whether the flags below `n` are all set.
fn all_below(s: &ISet, n: usize) -> (r: bool)
    requires
        n <= 64,
    ensures
        r == first_set(s@, n as int),
{
    let mut i: usize = 0;
    while i < n
        invariant
            i <= n <= 64,
            forall|j: int| 0 <= j < i ==> s@[j],
        decreases n - i,
    {
        if !s.get(i) {
            return false;
        }
        i += 1;
    }
    true
}

/// Whether the frame's value is complete.
fn is_complete(f: &TrackedFrame) -> (r: bool)
    requires
        checkable_frame(*f),
    ensures
        r == complete(*f),
{
    match &f.shape.kind {
        PartKind::Struct { fields, .. } => all_below(&f.istate.fields, *fields),
        PartKind::Enum { .. } => match f.istate.variant {
            Some(v) => all_below(&f.istate.fields, v.fields),
            None => false,
        },
        _ => f.istate.fields.get(0),
    }
}

/// The frame marked complete.
fn mark_complete(f: TrackedFrame) -> (g: TrackedFrame)
    requires
        markable(f),
    ensures
        marks(f, g),
{
    let TrackedFrame { shape, field_index_in_parent, istate } = f;
    let IState { fields, variant, list_index, mode, moved } = istate;
    let list_index = match &shape.def {
        PartDef::Array(n) => Some(*n),
        _ => list_index,
    };
    let fields = match &shape.kind {
        PartKind::Struct { fields: n, .. } => first_flags(*n),
        PartKind::Enum { .. } => match variant {
            Some(v) => first_flags(v.fields),
            None => fields,
        },
        _ => {
            let mut x = fields;
            x.set(0);
            x
        },
    };
    TrackedFrame { shape, field_index_in_parent, istate: IState { fields, variant, list_index, mode, moved } }
}

/// The frame with the flag at `k` set.
fn set_flag(f: TrackedFrame, k: usize) -> (g: TrackedFrame)
    requires
        k < 64,
    ensures
        with_flags(f, g, f.istate.fields@.update(k as int, true)),
{
    let TrackedFrame { shape, field_index_in_parent, istate } = f;
    let IState { mut fields, variant, list_index, mode, moved } = istate;
    fields.set(k);
    TrackedFrame { shape, field_index_in_parent, istate: IState { fields, variant, list_index, mode, moved } }
}

/// The frame with its value moved out.
fn mark_moved(f: TrackedFrame) -> (g: TrackedFrame)
    ensures
        moved_out(f, g),
{
    let TrackedFrame { shape, field_index_in_parent, istate } = f;
    let IState { fields, variant, list_index, mode, moved: _ } = istate;
    TrackedFrame { shape, field_index_in_parent, istate: IState { fields, variant, list_index, mode, moved: true } }
}

/// The number of fields of a tuple-like parent that takes elements as
/// fields.
fn tuple_fields_of(p: &TrackedFrame) -> (r: Option<usize>)
    ensures
        match r {
            Some(n) => tuple_fields(*p) == Some(n as int),
            None => tuple_fields(*p) is None,
        },
{
    match &p.shape.kind {
        PartKind::Tuple(n) => Some(*n),
        PartKind::Struct { fields, tuple } => if *tuple && *fields > 0 { Some(*fields) } else { None },
        PartKind::Enum { .. } => match p.istate.variant {
            Some(v) => if v.tuple { Some(v.fields) } else { None },
            None => None,
        },
        PartKind::Other => None,
    }
}

/// The variant an option takes when its content is set.
fn some_variant_of(p: &TrackedFrame) -> (r: VariantForm)
    requires
        p.shape.kind matches PartKind::Enum { variants } ==> variants@.len() >= 2,
    ensures
        r == some_variant(*p),
{
    match &p.shape.kind {
        PartKind::Enum { variants } => variants[1],
        _ => VariantForm { fields: 0, tuple: true },
    }
}

proof fn lemma_can_close(w: TrackedWip, f1: TrackedFrame, rest1: Seq<TrackedFrame>)
    requires
        can_pop_inner(w),
        w.frames@.len() > 0,
        ({
            let n = w.frames@.len();
            let f = w.frames@[n - 1];
            let rest = w.frames@.take(n - 1);
            if complete(f) {
                marks_popped(f, f1) && parent_marked(rest, f, rest1)
            } else {
                f1 == f && rest1 == rest
            }
        }),
    ensures
        can_close(f1, rest1),
{
    let n = w.frames@.len();
    let f = w.frames@[n - 1];
    let rest = w.frames@.take(n - 1);
    let m = rest1.len();
    if complete(f) {
        let f0 = choose|f0: TrackedFrame| #[trigger] marks(f, f0) && (if f.shape.def is Array {
            with_flags(f0, f1, f0.istate.fields@.update(0, true))
        } else {
            f1 == f0
        });
        assert(f1.shape == f.shape && f1.istate.mode == f.istate.mode && f1.istate.variant == f.istate.variant);
        assert(m == n - 1);
        assert forall|i: int| 0 <= i < m implies #[trigger] rest1[i].shape == w.frames@[i].shape
            && rest1[i].istate.variant == w.frames@[i].istate.variant
            && rest1[i].istate.list_index == w.frames@[i].istate.list_index
            && rest1[i].field_index_in_parent == w.frames@[i].field_index_in_parent by {
            if i < m - 1 && rest.len() >= 1 && f.field_index_in_parent is Some {
                assert(rest1[i] == rest1.take(m - 1)[i]);
                assert(rest[i] == rest.take(m - 1)[i]);
            }
        }
        if m >= 1 {
            assert(rest1.take(m - 1) =~= w.frames@.take(n - 2)) by {
                if f.field_index_in_parent is Some {
                    assert(rest.take(m - 1) =~= w.frames@.take(n - 2));
                }
            }
        }
        if let FrameMode::MapValue { index } = f.istate.mode {
            let j = choose|j: int| 0 <= j < 64 && #[trigger] w.frames@[index as int].istate.fields@[j];
            if index as int == m - 1 && f.field_index_in_parent is Some {
                assert(rest[index as int] == w.frames@[index as int]);
                w.frames@[index as int].istate.fields.lemma_view_len();
                assert(rest1[index as int].istate.fields@[j]);
            } else if f.field_index_in_parent is Some {
                assert(rest1[index as int] == rest1.take(m - 1)[index as int]);
                assert(rest1[index as int].istate.fields@[j]);
            } else {
                assert(rest1[index as int].istate.fields@[j]);
            }
            assert(rest1.remove(index as int)[m - 2].shape == w.frames@.remove(index as int)[n - 3].shape);
        }
    }
}

impl TrackedWip {
    /// Closes the innermost frame and hands it back with the memory work
    /// that goes with it; `None` when there is no frame.
    pub fn pop_inner(&mut self) -> (r: Result<Option<(TrackedFrame, PopWork)>, ReflectError>)
        requires
            can_pop_inner(*old(self)),
        ensures
            popped_inner(*old(self), *final(self), r),
    {
        let n = self.frames.len();
        let frame = match self.frames.pop() {
            Some(f) => f,
            None => return Ok(None),
        };
        let ghost f = frame;
        let ghost rest = self.frames@;
        assert(rest == old(self).frames@.take(n - 1));
        let init = is_complete(&frame);
        let frame = if init {
            let f0 = mark_complete(frame);
            let f1 = match &f0.shape.def {
                PartDef::Array(_) => set_flag(f0, 0),
                _ => f0,
            };
            assert(marks_popped(f, f1));
            if self.frames.len() >= 1 {
                match f1.field_index_in_parent {
                    Some(k) => {
                        let p = match self.frames.pop() {
                            Some(p) => p,
                            None => return Err(ReflectError::Unknown),
                        };
                        let p2 = set_flag(p, k);
                        self.frames.push(p2);
                        assert(self.frames@.take(rest.len() - 1) =~= rest.take(rest.len() - 1));
                    },
                    None => {},
                }
            }
            f1
        } else {
            frame
        };
        let ghost f1 = frame;
        let ghost rest1 = self.frames@;
        proof {
            lemma_can_close(*old(self), f1, rest1);
        }
        let r = self.close(frame);
        r
    }
}

impl TrackedWip {
    /// Closes the finished frame `f1`, whose parent is the last open
    /// frame, by how it was entered.
    fn close(&mut self, f1: TrackedFrame) -> (r: Result<Option<(TrackedFrame, PopWork)>, ReflectError>)
        requires
            can_close(f1, old(self).frames@),
        ensures
            final(self).closed@ == old(self).closed@,
            closes(f1, old(self).frames@, final(self).frames@, r),
    {
        let ghost rest1 = self.frames@;
        let m = self.frames.len();
        let done = is_complete(&f1);
        if !done {
            return Ok(Some((f1, PopWork::Nothing)));
        }
        match f1.istate.mode {
            FrameMode::ListElement => {
                let p = match self.frames.pop() {
                    Some(p) => p,
                    None => return Err(ReflectError::Unknown),
                };
                match &p.shape.def {
                    PartDef::List => {
                        self.frames.push(p);
                        assert(self.frames@ =~= rest1);
                        return Ok(Some((mark_moved(f1), PopWork::PushToList)));
                    },
                    PartDef::EmptyScalar => {
                        let p2 = mark_complete(p);
                        self.frames.push(p2);
                        assert(self.frames@.take(m - 1) =~= rest1.take(m - 1));
                        return Ok(Some((mark_moved(f1), PopWork::Nothing)));
                    },
                    _ => {},
                }
                let empty_tuple_struct = match &p.shape.kind {
                    PartKind::Struct { fields, tuple } => *tuple && *fields == 0,
                    _ => false,
                };
                if empty_tuple_struct {
                    let p2 = mark_complete(p);
                    self.frames.push(p2);
                    assert(self.frames@.take(m - 1) =~= rest1.take(m - 1));
                    return Ok(Some((mark_moved(f1), PopWork::Nothing)));
                }
                let k: usize = match p.istate.list_index {
                    Some(i) => i - 1,
                    None => 0,
                };
                match tuple_fields_of(&p) {
                    Some(_) => {
                        if !f1.shape.sized {
                            self.frames.push(p);
                            assert(self.frames@ =~= rest1);
                            return Err(ReflectError::Unsized { shape: copy(&f1.shape.shape) });
                        }
                        let p2 = set_flag(p, k);
                        self.frames.push(p2);
                        assert(self.frames@.take(m - 1) =~= rest1.take(m - 1));
                        Ok(Some((mark_moved(f1), PopWork::FillField(k))))
                    },
                    None => {
                        if !f1.shape.sized {
                            self.frames.push(p);
                            assert(self.frames@ =~= rest1);
                            return Err(ReflectError::Unsized { shape: copy(&f1.shape.shape) });
                        }
                        let full = match &p.shape.def {
                            PartDef::Array(len) => p.istate.list_index == Some(*len),
                            _ => false,
                        };
                        if !full {
                            self.frames.push(p);
                            assert(self.frames@ =~= rest1);
                            return Ok(Some((mark_moved(f1), PopWork::FillElement(k))));
                        }
                        let p2 = mark_complete(p);
                        if m >= 2 {
                            match p2.field_index_in_parent {
                                Some(pfi) => {
                                    let q = match self.frames.pop() {
                                        Some(q) => q,
                                        None => return Err(ReflectError::Unknown),
                                    };
                                    let q2 = set_flag(q, pfi);
                                    self.frames.push(q2);
                                    self.frames.push(p2);
                                    assert(self.frames@.take(m - 2) =~= rest1.take(m - 2));
                                    return Ok(Some((mark_moved(f1), PopWork::FillElement(k))));
                                },
                                None => {},
                            }
                        }
                        self.frames.push(p2);
                        assert(self.frames@.take(m - 1) =~= rest1.take(m - 1));
                        Ok(Some((mark_moved(f1), PopWork::FillElement(k))))
                    },
                }
            },
            FrameMode::MapValue { index } => {
                let _key = self.frames.remove(index);
                Ok(Some((mark_moved(f1), PopWork::InsertEntry)))
            },
            FrameMode::OptionSome => {
                let p = match self.frames.pop() {
                    Some(p) => p,
                    None => return Err(ReflectError::Unknown),
                };
                let v = some_variant_of(&p);
                let ghost gp = p;
                let TrackedFrame { shape, field_index_in_parent, istate } = p;
                let IState { fields, variant: _, list_index, mode, moved } = istate;
                let p1 = TrackedFrame {
                    shape,
                    field_index_in_parent,
                    istate: IState { fields, variant: Some(v), list_index, mode, moved },
                };
                let ghost gp1 = p1;
                let p2 = mark_complete(p1);
                self.frames.push(p2);
                assert(self.frames@.take(m - 1) =~= rest1.take(m - 1));
                assert(marks(gp1, self.frames@[m - 1]));
                assert(gp1.shape == gp.shape && gp1.field_index_in_parent == gp.field_index_in_parent);
                assert(gp1.istate.fields@ == gp.istate.fields@ && gp1.istate.list_index == gp.istate.list_index);
                assert(gp1.istate.mode == gp.istate.mode && gp1.istate.moved == gp.istate.moved);
                assert(gp1.istate.variant == Some(some_variant(gp)));
                Ok(Some((mark_moved(f1), PopWork::InitSome)))
            },
            _ => Ok(Some((f1, PopWork::Nothing))),
        }
    }
}

impl TrackedWip {
    /// Pops the innermost frame: closes it, and keeps it among the closed
    /// frames; `Ok` names the memory work that goes with it.
    pub fn pop(&mut self) -> (r: Result<PopWork, ReflectError>)
        requires
            can_pop_inner(*old(self)),
        ensures
            popped(*old(self), *final(self), r),
    {
        let ri = self.pop_inner();
        let ghost w2 = *self;
        let ghost gri = ri;
        match ri {
            Err(e) => {
                assert(popped_inner(*old(self), w2, gri));
                Err(e)
            },
            Ok(None) => {
                assert(popped_inner(*old(self), w2, gri));
                Err(ReflectError::InvariantViolation {
                    violated: String::from_str("No frame to pop \u{2014} it was time to call build()"),
                })
            },
            Ok(Some((frame, work))) => {
                self.closed.push(frame);
                assert(popped_inner(*old(self), w2, gri));
                Ok(work)
            },
        }
    }
}

/// A frame whose value is not complete is closed as it is: popping hands
/// it back unchanged, with no memory work, and leaves the frames below it
/// as they were.
pub proof fn law_unfinished_frame_is_closed_as_it_is(
    w: TrackedWip,
    w2: TrackedWip,
    r: Result<Option<(TrackedFrame, PopWork)>, ReflectError>,
)
    requires
        w.frames@.len() > 0,
        !complete(w.frames@[w.frames@.len() - 1]),
        popped_inner(w, w2, r),
    ensures
        w2.frames@ == w.frames@.take(w.frames@.len() - 1),
        r == Ok::<Option<(TrackedFrame, PopWork)>, ReflectError>(Some((w.frames@[w.frames@.len() - 1], PopWork::Nothing))),
{
    let n = w.frames@.len();
    let f = w.frames@[n - 1];
    let rest = w.frames@.take(n - 1);
    let (f1, rest1) = choose|f1: TrackedFrame, rest1: Seq<TrackedFrame>| {
        &&& (if complete(f) { marks_popped(f, f1) && parent_marked(rest, f, rest1) } else { f1 == f && rest1 == rest })
        &&& closes(f1, rest1, w2.frames@, r)
    };
    assert(f1 == f && rest1 == rest);
}

/// A finished field is marked in its parent: popping a complete frame
/// that was entered as a field leaves its parent, now innermost, with the
/// field's flag set, and needs no memory work.
pub proof fn law_finished_field_is_marked(
    w: TrackedWip,
    w2: TrackedWip,
    r: Result<Option<(TrackedFrame, PopWork)>, ReflectError>,
)
    requires
        w.frames@.len() >= 2,
        complete(w.frames@[w.frames@.len() - 1]),
        w.frames@[w.frames@.len() - 1].istate.mode == FrameMode::Field,
        w.frames@[w.frames@.len() - 1].field_index_in_parent matches Some(k) && k < 64,
        popped_inner(w, w2, r),
    ensures
        w2.frames@.len() == w.frames@.len() - 1,
        w2.frames@[w.frames@.len() - 2].istate.fields@[w.frames@[w.frames@.len() - 1].field_index_in_parent->Some_0 as int],
        r matches Ok(Some((_, PopWork::Nothing))),
{
    let n = w.frames@.len();
    let f = w.frames@[n - 1];
    let rest = w.frames@.take(n - 1);
    let (f1, rest1) = choose|f1: TrackedFrame, rest1: Seq<TrackedFrame>| {
        &&& (if complete(f) { marks_popped(f, f1) && parent_marked(rest, f, rest1) } else { f1 == f && rest1 == rest })
        &&& closes(f1, rest1, w2.frames@, r)
    };
    let f0 = choose|f0: TrackedFrame| #[trigger] marks(f, f0) && (if f.shape.def is Array {
        with_flags(f0, f1, f0.istate.fields@.update(0, true))
    } else {
        f1 == f0
    });
    assert(f1.istate.mode == FrameMode::Field);
    let k = f.field_index_in_parent->Some_0;
    rest[n - 2].istate.fields.lemma_view_len();
    assert(rest1[n - 2].istate.fields@ == rest[n - 2].istate.fields@.update(k as int, true));
}

} // verus!
