//! The bookkeeping of a builder that makes a value part by part: a stack
//! of frames, one for each part under construction, the innermost last,
//! and whether the builder can still be used. The work on memory that goes
//! with a step (moving a finished part into its parent) is named by the
//! step's result; the caller that holds the memory does it.
use vstd::prelude::*;
use crate::build_state::{
    FrameInfo, FrameOwnership, Tracker, DefInfo, MapInsertState, ReflectError, TypeInfo, VariantDesc, VariantInfo,
    EnumRepr, ISet, ShapeInfo, Incomplete, checkable, initialization, reports, copy,
    require_full_initialization, names_of, first_set, first_unset, path_text,
};

verus! {

/// Whether a builder can still be used.
#[derive(PartialEq, Eq, Structural, Clone, Copy)]
pub enum PartialState {
    /// It is being used
    Active,
    /// Its value was built and handed out
    Built,
    /// Building failed; only cleaning up is left
    BuildFailed,
}

/// A value being built part by part.
pub struct Partial {
    /// The frames, the root first and the part being built last
    pub frames: Vec<FrameInfo>,
    /// Whether the builder can still be used
    pub state: PartialState,
}

/// What must be done with the memory of a finished part once its frame is
/// closed.
#[derive(PartialEq, Eq, Structural, Clone, Copy)]
pub enum EndAction {
    /// Nothing: the part was built in place
    Keep,
    /// Make the parent smart pointer from the part, its pointee
    WrapPointee,
    /// Push the part onto the parent list
    PushElement,
    /// Insert the key built before and the part, its value, into the
    /// parent map
    InsertEntry,
}

/// Whether the builder's state agrees with its frames: an active builder
/// has a frame to work on.
pub open spec fn well_formed(p: Partial) -> bool {
    p.state == PartialState::Active ==> p.frames@.len() > 0
}

/// Whether `q` is `p` unchanged.
pub open spec fn unchanged(p: Partial, q: Partial) -> bool {
    q.frames@ == p.frames@ && q.state == p.state
}

/// Whether `q` is `p` with only the tracker of the innermost frame
/// replaced, by one that `ok` accepts.
pub open spec fn top_tracker_becomes(p: Partial, q: Partial, ok: spec_fn(Tracker) -> bool) -> bool {
    let n = p.frames@.len();
    &&& q.state == p.state
    &&& q.frames@.len() == n
    &&& q.frames@.take(n - 1) == p.frames@.take(n - 1)
    &&& q.frames@[n - 1].shape == p.frames@[n - 1].shape
    &&& q.frames@[n - 1].ty == p.frames@[n - 1].ty
    &&& q.frames@[n - 1].def == p.frames@[n - 1].def
    &&& q.frames@[n - 1].ownership == p.frames@[n - 1].ownership
    &&& ok(q.frames@[n - 1].tracker)
}

/// Whether the error is `OperationFailed` on the shape with the message.
pub open spec fn failed_with<T>(r: Result<T, ReflectError>, shape: String, op: Seq<char>) -> bool {
    r matches Err(ReflectError::OperationFailed { shape: s, operation }) && s@ == shape@ && operation@ == op
}

/// Whether the error says that the builder is no longer active.
pub open spec fn refused_inactive<T>(r: Result<T, ReflectError>) -> bool {
    r matches Err(ReflectError::InvariantViolation { violated }) && violated@ == inactive_text()
}

/// The message of the error for a builder that is no longer active.
pub open spec fn inactive_text() -> Seq<char> {
    "Cannot use Partial after it has been built or poisoned"@
}

/// The message of the error for closing the root frame.
pub open spec fn root_end_text() -> Seq<char> {
    "Wip::end() called with only one frame on the stack"@
}

/// The flags once the part at the current child (if any) is finished.
pub open spec fn with_child_done(current_child: Option<usize>, s: Seq<bool>) -> Seq<bool> {
    match current_child {
        Some(k) => s.update(k as int, true),
        None => s,
    }
}

/// Whether the current child of the tracker, if it has one by index, is
/// one of the 64 that a set of flags tracks.
pub open spec fn child_in_range(t: Tracker) -> bool {
    match t {
        Tracker::Array { current_child, .. } => current_child matches Some(k) ==> k < 64,
        Tracker::Struct { current_child, .. } => current_child matches Some(k) ==> k < 64,
        Tracker::Enum { current_child, .. } => current_child matches Some(k) ==> k < 64,
        _ => true,
    }
}

/// The operation that the parent cannot perform to take its finished
/// child, if one is missing: a smart pointer that cannot be made from its
/// pointee, or a list that cannot take an element.
pub open spec fn missing_operation(t: Tracker, d: DefInfo) -> Option<Seq<char>> {
    match t {
        Tracker::SmartPointer { .. } => match d {
            DefInfo::SmartPointer { can_wrap: false, .. } => Some("SmartPointer missing new_into_fn"@),
            _ => None,
        },
        Tracker::List { is_initialized: true, current_child: true } => match d {
            DefInfo::List { can_push: false, .. } => Some("List missing push function"@),
            _ => None,
        },
        _ => None,
    }
}

/// How the parent's tracker `t` becomes `t2`, and what is done with the
/// memory (`a`), when its child is finished: a struct, array or enum marks
/// the child's field as initialized and has no current child any more; a
/// smart pointer is made from its pointee; a list takes the element it was
/// building; a map that built a key goes on to the value, and one that
/// built a value inserts the entry. Anything else is left as it was.
pub open spec fn takes_child(t: Tracker, d: DefInfo, t2: Tracker, a: EndAction) -> bool {
    match t {
        Tracker::Struct { iset, current_child } => {
            &&& a == EndAction::Keep
            &&& t2 matches Tracker::Struct { iset: i2, current_child: None } && i2@ == with_child_done(
                current_child,
                iset@,
            )
        },
        Tracker::Array { iset, current_child } => {
            &&& a == EndAction::Keep
            &&& t2 matches Tracker::Array { iset: i2, current_child: None } && i2@ == with_child_done(
                current_child,
                iset@,
            )
        },
        Tracker::Enum { variant, data, current_child } => {
            &&& a == EndAction::Keep
            &&& t2 matches Tracker::Enum { variant: v2, data: d2, current_child: None } && v2 == variant
                && d2@ == with_child_done(current_child, data@)
        },
        Tracker::SmartPointer { .. } => if d is SmartPointer {
            a == EndAction::WrapPointee && t2 == Tracker::SmartPointer { is_initialized: true }
        } else {
            a == EndAction::Keep && t2 == t
        },
        Tracker::List { is_initialized: true, current_child: true } => if d is List {
            a == EndAction::PushElement && t2 == Tracker::List { is_initialized: true, current_child: false }
        } else {
            a == EndAction::Keep && t2 == t
        },
        Tracker::MapOf { is_initialized: true, insert_state: MapInsertState::PushingKey { key_allocated: true } } => {
            a == EndAction::Keep && t2 == Tracker::MapOf {
                is_initialized: true,
                insert_state: MapInsertState::PushingValue { value_allocated: false },
            }
        },
        Tracker::MapOf {
            is_initialized: true,
            insert_state: MapInsertState::PushingValue { value_allocated: true },
        } => if d is MapDef {
            a == EndAction::InsertEntry && t2 == Tracker::MapOf { is_initialized: true, insert_state: MapInsertState::Idle }
        } else {
            a == EndAction::Keep && t2 == t
        },
        _ => a == EndAction::Keep && t2 == t,
    }
}

/// Whether closing the innermost frame of `p` stays within what the
/// flags of its parent can track: it holds unless the builder is active,
/// has a parent frame, and the innermost frame is complete.
pub open spec fn can_end(p: Partial) -> bool {
    let n = p.frames@.len();
    p.state == PartialState::Active && n > 1 ==> {
        &&& checkable(p.frames@[n - 1])
        &&& initialization(p.frames@[n - 1]) is None ==> child_in_range(p.frames@[n - 2].tracker)
    }
}

/// What closing the innermost frame does: an inactive builder and one
/// with the root frame alone refuse, and so does one whose innermost part
/// is not complete (with the error that the check reports); otherwise the
/// frame is closed and its parent takes the finished part, or refuses when
/// it lacks the operation, after the frame is closed.
pub open spec fn ended(p: Partial, q: Partial, r: Result<EndAction, ReflectError>) -> bool {
    let n = p.frames@.len();
    if p.state != PartialState::Active {
        &&& r matches Err(ReflectError::InvariantViolation { violated }) && violated@ == inactive_text()
        &&& q.frames@ == p.frames@ && q.state == p.state
    } else if n <= 1 {
        &&& r matches Err(ReflectError::InvariantViolation { violated }) && violated@ == root_end_text()
        &&& q.frames@ == p.frames@ && q.state == p.state
    } else if let Some(what) = initialization(p.frames@[n - 1]) {
        &&& r matches Err(e) && reports(e, p.frames@[n - 1], what)
        &&& q.frames@ == p.frames@ && q.state == p.state
    } else {
        let parent = p.frames@[n - 2];
        let p2 = q.frames@[n - 2];
        &&& q.state == p.state
        &&& q.frames@.len() == n - 1
        &&& q.frames@.take(n - 2) == p.frames@.take(n - 2)
        &&& p2.shape == parent.shape && p2.ty == parent.ty && p2.def == parent.def
        &&& p2.ownership == parent.ownership
        &&& match missing_operation(parent.tracker, parent.def) {
            Some(op) => {
                &&& r matches Err(ReflectError::OperationFailed { shape, operation })
                &&& shape@ == parent.shape@ && operation@ == op
                &&& p2.tracker == parent.tracker
            },
            None => r matches Ok(a) && takes_child(parent.tracker, parent.def, p2.tracker, a),
        }
    }
}

/// The parent's tracker once its child is finished, or the error when the
/// parent lacks the operation (the tracker is then unchanged).
pub(crate) fn take_child(t: Tracker, d: &DefInfo, shape: &String) -> (r: (Tracker, Result<EndAction, ReflectError>))
    requires
        child_in_range(t),
    ensures
        match missing_operation(t, *d) {
            Some(op) => {
                &&& r.1 matches Err(ReflectError::OperationFailed { shape: s, operation })
                &&& s@ == shape@ && operation@ == op
                &&& r.0 == t
            },
            None => r.1 matches Ok(a) && takes_child(t, *d, r.0, a),
        },
{
    match t {
        Tracker::Struct { mut iset, current_child } => {
            let ghost before = iset@;
            if let Some(k) = current_child {
                iset.set(k);
            }
            assert(iset@ == with_child_done(current_child, before));
            (Tracker::Struct { iset, current_child: None }, Ok(EndAction::Keep))
        },
        Tracker::Array { mut iset, current_child } => {
            let ghost before = iset@;
            if let Some(k) = current_child {
                iset.set(k);
            }
            assert(iset@ == with_child_done(current_child, before));
            (Tracker::Array { iset, current_child: None }, Ok(EndAction::Keep))
        },
        Tracker::Enum { variant, mut data, current_child } => {
            let ghost before = data@;
            if let Some(k) = current_child {
                data.set(k);
            }
            assert(data@ == with_child_done(current_child, before));
            (Tracker::Enum { variant, data, current_child: None }, Ok(EndAction::Keep))
        },
        Tracker::SmartPointer { is_initialized } => match d {
            DefInfo::SmartPointer { can_wrap, .. } => {
                if *can_wrap {
                    (Tracker::SmartPointer { is_initialized: true }, Ok(EndAction::WrapPointee))
                } else {
                    (
                        Tracker::SmartPointer { is_initialized },
                        Err(ReflectError::OperationFailed {
                            shape: copy(shape),
                            operation: String::from_str("SmartPointer missing new_into_fn"),
                        }),
                    )
                }
            },
            _ => (Tracker::SmartPointer { is_initialized }, Ok(EndAction::Keep)),
        },
        Tracker::List { is_initialized, current_child } => {
            if is_initialized && current_child {
                match d {
                    DefInfo::List { can_push, .. } => {
                        if *can_push {
                            (Tracker::List { is_initialized: true, current_child: false }, Ok(EndAction::PushElement))
                        } else {
                            (
                                Tracker::List { is_initialized, current_child },
                                Err(ReflectError::OperationFailed {
                                    shape: copy(shape),
                                    operation: String::from_str("List missing push function"),
                                }),
                            )
                        }
                    },
                    _ => (Tracker::List { is_initialized, current_child }, Ok(EndAction::Keep)),
                }
            } else {
                (Tracker::List { is_initialized, current_child }, Ok(EndAction::Keep))
            }
        },
        Tracker::MapOf { is_initialized, insert_state } => {
            if !is_initialized {
                return (Tracker::MapOf { is_initialized, insert_state }, Ok(EndAction::Keep));
            }
            match insert_state {
                MapInsertState::PushingKey { key_allocated } => {
                    if key_allocated {
                        (
                            Tracker::MapOf {
                                is_initialized: true,
                                insert_state: MapInsertState::PushingValue { value_allocated: false },
                            },
                            Ok(EndAction::Keep),
                        )
                    } else {
                        (Tracker::MapOf { is_initialized, insert_state }, Ok(EndAction::Keep))
                    }
                },
                MapInsertState::PushingValue { value_allocated } => {
                    let is_map = match d {
                        DefInfo::MapDef => true,
                        _ => false,
                    };
                    if value_allocated && is_map {
                        (
                            Tracker::MapOf { is_initialized: true, insert_state: MapInsertState::Idle },
                            Ok(EndAction::InsertEntry),
                        )
                    } else {
                        (Tracker::MapOf { is_initialized, insert_state }, Ok(EndAction::Keep))
                    }
                },
                MapInsertState::Idle => (Tracker::MapOf { is_initialized, insert_state }, Ok(EndAction::Keep)),
            }
        },
        other => (other, Ok(EndAction::Keep)),
    }
}

impl Partial {
    /// An error unless the builder can still be used.
    fn require_active(&self) -> (r: Result<(), ReflectError>)
        ensures
            r is Ok <==> self.state == PartialState::Active,
            r matches Err(ReflectError::InvariantViolation { violated }) ==> violated@ == inactive_text(),
            r is Err ==> r matches Err(ReflectError::InvariantViolation { .. }),
    {
        if self.state == PartialState::Active {
            Ok(())
        } else {
            Err(ReflectError::InvariantViolation {
                violated: String::from_str("Cannot use Partial after it has been built or poisoned"),
            })
        }
    }

    /// Closes the innermost frame, once its part is complete, and lets the
    /// parent take the part: `Ok` names what must be done with the part's
    /// memory. The root frame is never closed.
    pub fn end(&mut self) -> (r: Result<EndAction, ReflectError>)
        requires
            well_formed(*old(self)),
            can_end(*old(self)),
        ensures
            well_formed(*final(self)),
            ended(*old(self), *final(self), r),
    {
        match self.require_active() {
            Err(e) => return Err(e),
            Ok(()) => {},
        }
        let n = self.frames.len();
        if n <= 1 {
            return Err(ReflectError::InvariantViolation {
                violated: String::from_str("Wip::end() called with only one frame on the stack"),
            });
        }
        match require_full_initialization(&self.frames[n - 1]) {
            Err(e) => return Err(e),
            Ok(()) => {},
        }
        let ghost before = self.frames@;
        let _child = self.frames.pop();
        let parent = self.frames.pop();
        match parent {
            Some(parent) => {
                let FrameInfo { shape, ty, def, tracker, ownership } = parent;
                let (tracker, result) = take_child(tracker, &def, &shape);
                self.frames.push(FrameInfo { shape, ty, def, tracker, ownership });
                assert(self.frames@.take(n - 2) =~= before.take(n - 2));
                result
            },
            None => Err(ReflectError::Unknown),
        }
    }
}

/// The index of the first variant at or after `i` whose discriminant is
/// `d`.
pub open spec fn variant_with_discriminant(vs: Seq<VariantDesc>, d: i64, i: int) -> Option<int>
    decreases vs.len() - i,
{
    if i < 0 || i >= vs.len() {
        None
    } else if vs[i].discriminant == Some(d) {
        Some(i)
    } else {
        variant_with_discriminant(vs, d, i + 1)
    }
}

/// The index of the first variant at or after `i` named `name`.
pub open spec fn variant_named(vs: Seq<VariantDesc>, name: Seq<char>, i: int) -> Option<int>
    decreases vs.len() - i,
{
    if i < 0 || i >= vs.len() {
        None
    } else if vs[i].name@ == name {
        Some(i)
    } else {
        variant_named(vs, name, i + 1)
    }
}

/// The tracker of an enum whose variant `v` was just selected: none of its
/// fields is initialized and none is being built.
pub open spec fn starts_variant(t: Tracker, v: VariantDesc) -> bool {
    &&& t matches Tracker::Enum { variant, data, current_child: None }
    &&& t->Enum_variant.name@ == v.name@
    &&& names_of(t->Enum_variant.fields@) == names_of(v.fields@)
    &&& forall|i: int| 0 <= i < 64 ==> t->Enum_data@[i] == (i >= v.fields@.len())
}

/// Whether selecting the variant with discriminant `d` stays within the
/// 64 fields that a set of flags tracks.
pub open spec fn can_select(p: Partial, d: i64) -> bool {
    let n = p.frames@.len();
    p.state == PartialState::Active && n > 0 ==> match p.frames@[n - 1].ty {
        TypeInfo::Enum { variants, .. } => match variant_with_discriminant(variants@, d, 0) {
            Some(k) => variants@[k].fields@.len() < 64,
            None => true,
        },
        _ => true,
    }
}

/// What selecting the variant with discriminant `d` does: the innermost
/// frame must be an enum with such a variant, stored with a discriminant
/// of its own; the frame then tracks the variant (its first variant with
/// that discriminant) and none of its fields. The caller writes the
/// discriminant into the value as the representation says.
pub open spec fn selected(p: Partial, d: i64, q: Partial, r: Result<(), ReflectError>) -> bool {
    let n = p.frames@.len();
    let top = p.frames@[n - 1];
    if p.state != PartialState::Active {
        refused_inactive(r) && unchanged(p, q)
    } else {
        match top.ty {
            TypeInfo::Enum { variants, repr } => match variant_with_discriminant(variants@, d, 0) {
                None => failed_with(r, top.shape, "No variant found with the given discriminant"@) && unchanged(p, q),
                Some(k) => if repr == EnumRepr::RustNPO {
                    failed_with(r, top.shape, "RustNPO enums are not supported for incremental building"@)
                        && unchanged(p, q)
                } else {
                    r is Ok && top_tracker_becomes(p, q, |t: Tracker| starts_variant(t, variants@[k]))
                },
            },
            _ => {
                &&& r matches Err(ReflectError::WrongShape { expected, actual })
                &&& expected@ == top.shape@ && actual@ == top.shape@
                &&& unchanged(p, q)
            },
        }
    }
}

/// Whether selecting the variant named `name` stays within the 64 fields
/// that a set of flags tracks.
pub open spec fn can_select_named(p: Partial, name: Seq<char>) -> bool {
    let n = p.frames@.len();
    p.state == PartialState::Active && n > 0 ==> match p.frames@[n - 1].ty {
        TypeInfo::Enum { variants, .. } => match variant_named(variants@, name, 0) {
            Some(k) => match variants@[k].discriminant {
                Some(d) => can_select(p, d),
                None => true,
            },
            None => true,
        },
        _ => true,
    }
}

/// What selecting the variant named `name` does: the innermost frame must
/// be an enum with a variant of that name (the first one) that has a
/// discriminant; then the variant with that discriminant is selected.
pub open spec fn selected_named(p: Partial, name: Seq<char>, q: Partial, r: Result<(), ReflectError>) -> bool {
    let n = p.frames@.len();
    let top = p.frames@[n - 1];
    if p.state != PartialState::Active {
        refused_inactive(r) && unchanged(p, q)
    } else {
        match top.ty {
            TypeInfo::Enum { variants, .. } => match variant_named(variants@, name, 0) {
                None => failed_with(r, top.shape, "No variant found with the given name"@) && unchanged(p, q),
                Some(k) => match variants@[k].discriminant {
                    None => failed_with(r, top.shape, "Variant has no discriminant value"@) && unchanged(p, q),
                    Some(d) => selected(p, d, q, r),
                },
            },
            _ => failed_with(r, top.shape, "push_variant_named requires an enum type"@) && unchanged(p, q),
        }
    }
}

/// Whether selecting the variant at `index` stays within the 64 fields
/// that a set of flags tracks.
pub open spec fn can_select_nth(p: Partial, index: int) -> bool {
    let n = p.frames@.len();
    p.state == PartialState::Active && n > 0 ==> match p.frames@[n - 1].ty {
        TypeInfo::Enum { variants, .. } => 0 <= index < variants@.len() ==> match variants@[index].discriminant {
            Some(d) => can_select(p, d),
            None => true,
        },
        _ => true,
    }
}

/// What selecting the variant at `index` (from 0, in declaration order)
/// does: the innermost frame must be an enum with that many variants, and
/// the variant must have a discriminant; then the variant with that
/// discriminant is selected.
pub open spec fn selected_nth(p: Partial, index: int, q: Partial, r: Result<(), ReflectError>) -> bool {
    let n = p.frames@.len();
    let top = p.frames@[n - 1];
    if p.state != PartialState::Active {
        refused_inactive(r) && unchanged(p, q)
    } else {
        match top.ty {
            TypeInfo::Enum { variants, .. } => if index >= variants@.len() {
                failed_with(r, top.shape, "variant index out of bounds"@) && unchanged(p, q)
            } else {
                match variants@[index].discriminant {
                    None => failed_with(r, top.shape, "Variant has no discriminant value"@) && unchanged(p, q),
                    Some(d) => selected(p, d, q, r),
                }
            },
            _ => failed_with(r, top.shape, "begin_nth_variant requires an enum type"@) && unchanged(p, q),
        }
    }
}

/// How the memory of a part stands when its frame is opened.
#[derive(PartialEq, Eq, Structural, Clone, Copy)]
pub enum PartStart {
    /// It holds no value yet
    Fresh,
    /// It holds a value, which the caller drops first
    DropOld,
}

/// Whether `q` is `p` with the innermost frame's tracker replaced by one
/// that `ok` accepts, and a new, uninitialized frame opened for `part`,
/// whose memory is as `own` says.
pub open spec fn opens_part(
    p: Partial,
    q: Partial,
    ok: spec_fn(Tracker) -> bool,
    part: ShapeInfo,
    own: FrameOwnership,
) -> bool {
    let n = p.frames@.len();
    let top = q.frames@[n - 1];
    let child = q.frames@[n as int];
    &&& q.state == p.state
    &&& q.frames@.len() == n + 1
    &&& q.frames@.take(n - 1) == p.frames@.take(n - 1)
    &&& top.shape == p.frames@[n - 1].shape && top.ty == p.frames@[n - 1].ty && top.def == p.frames@[n - 1].def
    &&& top.ownership == p.frames@[n - 1].ownership
    &&& ok(top.tracker)
    &&& child.shape == part.shape && child.ty == part.ty && child.def == part.def
    &&& child.tracker is Uninit
    &&& child.ownership == own
}

/// Whether opening field `idx` of a struct stays within what the flags
/// track and within the kinds of type that can be opened by index.
pub open spec fn can_begin_nth_field(p: Partial, idx: int) -> bool {
    let n = p.frames@.len();
    p.state == PartialState::Active && n > 0 ==> match p.frames@[n - 1].ty {
        TypeInfo::Struct(fields) => idx < fields@.len() ==> match p.frames@[n - 1].tracker {
            Tracker::Uninit => fields@.len() < 64,
            Tracker::Struct { .. } => idx < 64,
            _ => false,
        },
        TypeInfo::Enum { .. } => false,
        _ => true,
    }
}

/// What opening field `idx` of the struct being built does: the field must
/// exist; the struct then tracks its fields (none initialized, if it was
/// not tracking them yet), field `idx` is not initialized any more and is
/// the one being built, and a frame is opened for it, of the field's type
/// `part`. The result says whether the field held a value to drop.
pub open spec fn began_nth_field(p: Partial, idx: int, part: ShapeInfo, q: Partial, r: Result<PartStart, ReflectError>) -> bool {
    let n = p.frames@.len();
    let top = p.frames@[n - 1];
    if p.state != PartialState::Active {
        refused_inactive(r) && unchanged(p, q)
    } else {
        match top.ty {
            TypeInfo::Struct(fields) => if idx >= fields@.len() {
                failed_with(r, top.shape, "field index out of bounds"@) && unchanged(p, q)
            } else {
                match top.tracker {
                    Tracker::Struct { iset, .. } => {
                        &&& r == Ok::<PartStart, ReflectError>(
                            if iset@[idx] { PartStart::DropOld } else { PartStart::Fresh },
                        )
                        &&& opens_part(
                            p,
                            q,
                            |t: Tracker| {
                                &&& t matches Tracker::Struct { iset: i2, current_child: Some(c) }
                                &&& t->Struct_current_child == Some(idx as usize)
                                &&& t->Struct_iset@ == iset@.update(idx, false)
                            },
                            part,
                            FrameOwnership::Field,
                        )
                    },
                    _ => {
                        &&& r == Ok::<PartStart, ReflectError>(PartStart::Fresh)
                        &&& opens_part(
                            p,
                            q,
                            |t: Tracker| {
                                &&& t matches Tracker::Struct { iset: i2, current_child: Some(c) }
                                &&& t->Struct_current_child == Some(idx as usize)
                                &&& forall|i: int| 0 <= i < 64 ==> t->Struct_iset@[i] == (i >= fields@.len())
                            },
                            part,
                            FrameOwnership::Field,
                        )
                    },
                }
            },
            TypeInfo::Union => failed_with(r, top.shape, "unions are not supported"@) && unchanged(p, q),
            TypeInfo::Opaque => failed_with(r, top.shape, "opaque types cannot be reflected upon"@) && unchanged(p, q),
            _ => failed_with(r, top.shape, "cannot select a field from this type"@) && unchanged(p, q),
        }
    }
}

/// Whether opening field `idx` of the selected variant stays within the
/// flags.
pub open spec fn can_begin_nth_enum_field(p: Partial, idx: int) -> bool {
    let n = p.frames@.len();
    p.state == PartialState::Active && n > 0 ==> match p.frames@[n - 1].tracker {
        Tracker::Enum { variant, .. } => idx < variant.fields@.len() ==> idx < 64,
        _ => true,
    }
}

/// What opening field `idx` of the selected variant does: the enum must
/// have a variant selected, with that field; a field that holds a value
/// cannot be built again where the enum keeps its discriminant in a
/// pointer's zeros. Then field `idx` is not initialized any more and is
/// the one being built, and a frame is opened for it, of the field's type
/// `part`.
pub open spec fn began_nth_enum_field(p: Partial, idx: int, part: ShapeInfo, q: Partial, r: Result<PartStart, ReflectError>) -> bool {
    let n = p.frames@.len();
    let top = p.frames@[n - 1];
    let no_variant = "push_nth_enum_field requires an enum with a variant selected"@;
    if p.state != PartialState::Active {
        refused_inactive(r) && unchanged(p, q)
    } else {
        match top.tracker {
            Tracker::Enum { variant, data, .. } => match top.ty {
                TypeInfo::Enum { repr, .. } => if idx >= variant.fields@.len() {
                    failed_with(r, top.shape, "enum field index out of bounds"@) && unchanged(p, q)
                } else if data@[idx] && repr == EnumRepr::RustNPO {
                    failed_with(r, top.shape, "RustNPO enums are not supported"@) && unchanged(p, q)
                } else {
                    &&& r == Ok::<PartStart, ReflectError>(
                        if data@[idx] { PartStart::DropOld } else { PartStart::Fresh },
                    )
                    &&& opens_part(
                        p,
                        q,
                        |t: Tracker| {
                            &&& t matches Tracker::Enum { variant: v2, data: d2, current_child: Some(c) }
                            &&& t->Enum_variant == variant
                            &&& t->Enum_current_child == Some(idx as usize)
                            &&& t->Enum_data@ == data@.update(idx, false)
                        },
                        part,
                        FrameOwnership::Field,
                    )
                },
                _ => failed_with(r, top.shape, no_variant) && unchanged(p, q),
            },
            _ => failed_with(r, top.shape, no_variant) && unchanged(p, q),
        }
    }
}

/// The index of the first name at or after `i` equal to `name`.
pub open spec fn position_of(names: Seq<String>, name: Seq<char>, i: int) -> Option<int>
    decreases names.len() - i,
{
    if i < 0 || i >= names.len() {
        None
    } else if names[i]@ == name {
        Some(i)
    } else {
        position_of(names, name, i + 1)
    }
}

/// Whether opening the field named `name` keeps to what opening it by
/// its index needs.
pub open spec fn can_begin_field(p: Partial, name: Seq<char>) -> bool {
    let n = p.frames@.len();
    p.state == PartialState::Active && n > 0 ==> match p.frames@[n - 1].ty {
        TypeInfo::Struct(fields) => match position_of(fields@, name, 0) {
            Some(i) => can_begin_nth_field(p, i),
            None => true,
        },
        TypeInfo::Enum { .. } => match p.frames@[n - 1].tracker {
            Tracker::Enum { variant, .. } => match position_of(variant.fields@, name, 0) {
                Some(i) => can_begin_nth_enum_field(p, i),
                None => true,
            },
            _ => true,
        },
        _ => true,
    }
}

/// What opening the field named `name` does: a struct opens its first
/// field of that name, an enum with a variant selected the first field of
/// that name of the variant; anything else refuses.
pub open spec fn began_field(p: Partial, name: Seq<char>, part: ShapeInfo, q: Partial, r: Result<PartStart, ReflectError>) -> bool {
    let n = p.frames@.len();
    let top = p.frames@[n - 1];
    if p.state != PartialState::Active {
        refused_inactive(r) && unchanged(p, q)
    } else {
        match top.ty {
            TypeInfo::Primitive => failed_with(r, top.shape, "cannot select a field from a primitive type"@) && unchanged(p, q),
            TypeInfo::Array(_) => failed_with(r, top.shape, "cannot select a field from a sequence type"@) && unchanged(p, q),
            TypeInfo::OtherSequence => failed_with(r, top.shape, "cannot select a field from a sequence type"@) && unchanged(p, q),
            TypeInfo::Struct(fields) => match position_of(fields@, name, 0) {
                None => failed_with(r, top.shape, "field not found"@) && unchanged(p, q),
                Some(i) => began_nth_field(p, i, part, q, r),
            },
            TypeInfo::Enum { .. } => match top.tracker {
                Tracker::Enum { variant, .. } => match position_of(variant.fields@, name, 0) {
                    None => failed_with(r, top.shape, "field not found in current enum variant"@) && unchanged(p, q),
                    Some(i) => began_nth_enum_field(p, i, part, q, r),
                },
                _ => failed_with(r, top.shape, "must call push_variant before selecting enum fields"@) && unchanged(p, q),
            },
            TypeInfo::Union => failed_with(r, top.shape, "unions are not supported"@) && unchanged(p, q),
            TypeInfo::Opaque => failed_with(r, top.shape, "opaque types cannot be reflected upon"@) && unchanged(p, q),
            TypeInfo::Pointer => failed_with(r, top.shape, "cannot select a field from a pointer type"@) && unchanged(p, q),
        }
    }
}

/// What opening element `idx` of the array being built does: the index
/// must be within the array, and the array at most 63 long; the array then
/// tracks its elements (none initialized, if it was not tracking them yet;
/// this stays even when the element type is unsized and the step fails),
/// element `idx` is not initialized any more and is the one being built,
/// and a frame is opened for it, of the element type `part`.
pub open spec fn began_nth_element(p: Partial, idx: int, part: ShapeInfo, q: Partial, r: Result<PartStart, ReflectError>) -> bool {
    let n = p.frames@.len();
    let top = p.frames@[n - 1];
    if p.state != PartialState::Active {
        refused_inactive(r) && unchanged(p, q)
    } else {
        match top.ty {
            TypeInfo::Array(len) => if idx >= len {
                failed_with(r, top.shape, "array index out of bounds"@) && unchanged(p, q)
            } else if len > 63 {
                failed_with(r, top.shape, "arrays larger than 63 elements are not yet supported"@) && unchanged(p, q)
            } else {
                match top.tracker {
                    Tracker::Uninit => if !part.sized {
                        &&& r matches Err(ReflectError::Unsized { shape }) && shape == part.shape
                        &&& top_tracker_becomes(
                            p,
                            q,
                            |t: Tracker| {
                                &&& t matches Tracker::Array { iset, current_child: None }
                                &&& forall|i: int| 0 <= i < 64 ==> !t->Array_iset@[i]
                            },
                        )
                    } else {
                        &&& r == Ok::<PartStart, ReflectError>(PartStart::Fresh)
                        &&& opens_part(
                            p,
                            q,
                            |t: Tracker| {
                                &&& t matches Tracker::Array { iset, current_child: Some(c) }
                                &&& t->Array_current_child == Some(idx as usize)
                                &&& forall|i: int| 0 <= i < 64 ==> !t->Array_iset@[i]
                            },
                            part,
                            FrameOwnership::Field,
                        )
                    },
                    Tracker::Array { iset, .. } => if !part.sized {
                        (r matches Err(ReflectError::Unsized { shape }) && shape == part.shape) && unchanged(p, q)
                    } else {
                        &&& r == Ok::<PartStart, ReflectError>(
                            if iset@[idx] { PartStart::DropOld } else { PartStart::Fresh },
                        )
                        &&& opens_part(
                            p,
                            q,
                            |t: Tracker| {
                                &&& t matches Tracker::Array { iset: i2, current_child: Some(c) }
                                &&& t->Array_current_child == Some(idx as usize)
                                &&& t->Array_iset@ == iset@.update(idx, false)
                            },
                            part,
                            FrameOwnership::Field,
                        )
                    },
                    _ => failed_with(r, top.shape, "expected array tracker state"@) && unchanged(p, q),
                }
            },
            TypeInfo::OtherSequence => failed_with(r, top.shape, "can only select elements from arrays"@) && unchanged(p, q),
            _ => failed_with(r, top.shape, "cannot select an element from this type"@) && unchanged(p, q),
        }
    }
}

/// What making the list empty in place does: the innermost frame must be
/// a list that can be so made; it is then an initialized list with no
/// element being built. The caller initializes the memory.
pub open spec fn began_list(p: Partial, q: Partial, r: Result<(), ReflectError>) -> bool {
    let n = p.frames@.len();
    let top = p.frames@[n - 1];
    if p.state != PartialState::Active {
        refused_inactive(r) && unchanged(p, q)
    } else {
        match top.def {
            DefInfo::List { can_init, .. } => if !can_init {
                failed_with(r, top.shape, "list type does not support initialization with capacity"@) && unchanged(p, q)
            } else {
                r is Ok && top_tracker_becomes(
                    p,
                    q,
                    |t: Tracker| t == Tracker::List { is_initialized: true, current_child: false },
                )
            },
            _ => failed_with(r, top.shape, "begin_pushback can only be called on List types"@) && unchanged(p, q),
        }
    }
}

/// What making the map empty in place does: the innermost frame must be a
/// map; it is then an initialized map with no entry being inserted. The
/// caller initializes the memory.
pub open spec fn began_map(p: Partial, q: Partial, r: Result<(), ReflectError>) -> bool {
    let n = p.frames@.len();
    let top = p.frames@[n - 1];
    if p.state != PartialState::Active {
        refused_inactive(r) && unchanged(p, q)
    } else {
        match top.def {
            DefInfo::MapDef => r is Ok && top_tracker_becomes(
                p,
                q,
                |t: Tracker| t == Tracker::MapOf { is_initialized: true, insert_state: MapInsertState::Idle },
            ),
            _ => failed_with(r, top.shape, "begin_map can only be called on Map types"@) && unchanged(p, q),
        }
    }
}

/// What starting the insertion of an entry does: the innermost frame must
/// be an initialized map with no insertion under way; its key is then to
/// be built.
pub open spec fn began_insert(p: Partial, q: Partial, r: Result<(), ReflectError>) -> bool {
    let n = p.frames@.len();
    let top = p.frames@[n - 1];
    if p.state != PartialState::Active {
        refused_inactive(r) && unchanged(p, q)
    } else {
        match top.tracker {
            Tracker::MapOf { is_initialized: true, insert_state } => if insert_state != MapInsertState::Idle {
                failed_with(r, top.shape, "already in the middle of an insert operation"@) && unchanged(p, q)
            } else {
                r is Ok && top_tracker_becomes(
                    p,
                    q,
                    |t: Tracker|
                        t == Tracker::MapOf {
                            is_initialized: true,
                            insert_state: MapInsertState::PushingKey { key_allocated: false },
                        },
                )
            },
            _ => failed_with(r, top.shape, "must call begin_map() before begin_insert()"@) && unchanged(p, q),
        }
    }
}

/// What opening a new element of the list does, where `allocated` says
/// whether memory for it could be had: the innermost frame must be an
/// initialized list building no element; it then builds one (and stays so
/// when the element type is unsized or memory is lacking, and the step
/// fails), and a frame is opened for it, of the element type `part`.
pub open spec fn began_list_item(p: Partial, part: ShapeInfo, allocated: bool, q: Partial, r: Result<(), ReflectError>) -> bool {
    let n = p.frames@.len();
    let top = p.frames@[n - 1];
    let building = |t: Tracker| t == Tracker::List { is_initialized: true, current_child: true };
    if p.state != PartialState::Active {
        refused_inactive(r) && unchanged(p, q)
    } else {
        match top.def {
            DefInfo::List { .. } => match top.tracker {
                Tracker::List { is_initialized: true, current_child } => if current_child {
                    failed_with(r, top.shape, "already pushing an element, call pop() first"@) && unchanged(p, q)
                } else if !part.sized {
                    (r matches Err(ReflectError::Unsized { shape }) && shape == part.shape) && top_tracker_becomes(
                        p,
                        q,
                        building,
                    )
                } else if !allocated {
                    failed_with(r, top.shape, "failed to allocate memory for list element"@) && top_tracker_becomes(
                        p,
                        q,
                        building,
                    )
                } else {
                    r is Ok && opens_part(p, q, building, part, FrameOwnership::Owned)
                },
                _ => failed_with(r, top.shape, "must call begin_pushback() before push()"@) && unchanged(p, q),
            },
            _ => failed_with(r, top.shape, "push can only be called on List types"@) && unchanged(p, q),
        }
    }
}

/// What opening the key of the entry being inserted does, where
/// `allocated` says whether memory for it could be had: the innermost
/// frame must be a map whose key is to be built and has no memory yet;
/// the key then has its memory, and a frame is opened for it, of the key
/// type `part`.
pub open spec fn began_key(p: Partial, part: ShapeInfo, allocated: bool, q: Partial, r: Result<(), ReflectError>) -> bool {
    let n = p.frames@.len();
    let top = p.frames@[n - 1];
    let not_ready = "must call begin_insert() before push_key()"@;
    if p.state != PartialState::Active {
        refused_inactive(r) && unchanged(p, q)
    } else {
        match top.def {
            DefInfo::MapDef => match top.tracker {
                Tracker::MapOf { is_initialized, insert_state: MapInsertState::PushingKey { key_allocated } } => if key_allocated {
                    failed_with(r, top.shape, "already pushing a key, call pop() first"@) && unchanged(p, q)
                } else if !part.sized {
                    (r matches Err(ReflectError::Unsized { shape }) && shape == part.shape) && unchanged(p, q)
                } else if !allocated {
                    failed_with(r, top.shape, "failed to allocate memory for map key"@) && unchanged(p, q)
                } else {
                    r is Ok && opens_part(
                        p,
                        q,
                        |t: Tracker|
                            t == Tracker::MapOf {
                                is_initialized,
                                insert_state: MapInsertState::PushingKey { key_allocated: true },
                            },
                        part,
                        FrameOwnership::ManagedElsewhere,
                    )
                },
                _ => failed_with(r, top.shape, not_ready) && unchanged(p, q),
            },
            _ => failed_with(r, top.shape, not_ready) && unchanged(p, q),
        }
    }
}

/// What opening the value of the entry being inserted does, where
/// `allocated` says whether memory for it could be had: the innermost
/// frame must be a map whose key is built and whose value has no memory
/// yet; the value then has its memory, and a frame is opened for it, of
/// the value type `part`.
pub open spec fn began_value(p: Partial, part: ShapeInfo, allocated: bool, q: Partial, r: Result<(), ReflectError>) -> bool {
    let n = p.frames@.len();
    let top = p.frames@[n - 1];
    let not_ready = "must complete key before push_value()"@;
    if p.state != PartialState::Active {
        refused_inactive(r) && unchanged(p, q)
    } else {
        match top.def {
            DefInfo::MapDef => match top.tracker {
                Tracker::MapOf { is_initialized, insert_state: MapInsertState::PushingValue { value_allocated } } => if value_allocated {
                    failed_with(r, top.shape, "already pushing a value, call pop() first"@) && unchanged(p, q)
                } else if !part.sized {
                    (r matches Err(ReflectError::Unsized { shape }) && shape == part.shape) && unchanged(p, q)
                } else if !allocated {
                    failed_with(r, top.shape, "failed to allocate memory for map value"@) && unchanged(p, q)
                } else {
                    r is Ok && opens_part(
                        p,
                        q,
                        |t: Tracker|
                            t == Tracker::MapOf {
                                is_initialized,
                                insert_state: MapInsertState::PushingValue { value_allocated: true },
                            },
                        part,
                        FrameOwnership::ManagedElsewhere,
                    )
                },
                _ => failed_with(r, top.shape, not_ready) && unchanged(p, q),
            },
            _ => failed_with(r, top.shape, not_ready) && unchanged(p, q),
        }
    }
}

/// What opening the pointee of the smart pointer being built does, where
/// `pointee` is the pointee's type if the pointer has one and `allocated`
/// says whether memory for it could be had: the innermost frame must be a
/// `Box` or an `Arc` with a pointee type; it then tracks its pointee (not
/// initialized, if it was not tracking it yet; this stays when the step
/// fails later), and a frame is opened for the pointee.
pub open spec fn began_smart_ptr(p: Partial, pointee: Option<ShapeInfo>, allocated: bool, q: Partial, r: Result<(), ReflectError>) -> bool {
    let n = p.frames@.len();
    let top = p.frames@[n - 1];
    let tracking = |t: Tracker|
        if top.tracker is Uninit {
            t == Tracker::SmartPointer { is_initialized: false }
        } else {
            t == top.tracker
        };
    if p.state != PartialState::Active {
        refused_inactive(r) && unchanged(p, q)
    } else {
        match top.def {
            DefInfo::SmartPointer { box_or_arc, .. } => if !box_or_arc {
                failed_with(r, top.shape, "only Box and Arc smart pointers are currently supported"@) && unchanged(p, q)
            } else {
                match pointee {
                    None => failed_with(r, top.shape, "Box must have a pointee shape"@) && unchanged(p, q),
                    Some(part) => if !part.sized {
                        (r matches Err(ReflectError::Unsized { shape }) && shape == part.shape) && top_tracker_becomes(
                            p,
                            q,
                            tracking,
                        )
                    } else if !allocated {
                        failed_with(r, top.shape, "failed to allocate memory for Box inner value"@)
                            && top_tracker_becomes(p, q, tracking)
                    } else {
                        r is Ok && opens_part(p, q, tracking, part, FrameOwnership::Owned)
                    },
                }
            },
            _ => failed_with(r, top.shape, "push_smart_ptr can only be called on compatible types"@) && unchanged(p, q),
        }
    }
}

/// A builder with one frame, for a value of type `shape`, nothing of it
/// initialized.
pub open spec fn fresh(p: Partial, shape: ShapeInfo, own: FrameOwnership) -> bool {
    &&& p.state == PartialState::Active
    &&& p.frames@.len() == 1
    &&& p.frames@[0].shape == shape.shape && p.frames@[0].ty == shape.ty && p.frames@[0].def == shape.def
    &&& p.frames@[0].tracker is Uninit
    &&& p.frames@[0].ownership == own
}

/// The message for building with other than one frame left.
pub open spec fn build_frames_text() -> Seq<char> {
    "Wip::build() expects a single frame \u{2014} pop until that's the case"@
}

/// What building the value does, where `invariants_hold` is what the
/// type's invariant check says of the finished value (true for a type
/// without one) and `sized` whether the type is sized: the builder must be
/// active with the root frame alone, and the value complete and valid;
/// the root frame is then handed out and the builder is done. On the way,
/// a builder with other than one frame, or a value that is incomplete,
/// invalid or unsized, makes the builder fail, its frames kept.
pub open spec fn built(p: Partial, invariants_hold: bool, sized: bool, q: Partial, r: Result<FrameInfo, ReflectError>) -> bool {
    let n = p.frames@.len();
    if p.state != PartialState::Active {
        refused_inactive(r) && unchanged(p, q)
    } else if n != 1 {
        &&& r matches Err(ReflectError::InvariantViolation { violated }) && violated@ == build_frames_text()
        &&& q.frames@ == p.frames@ && q.state == PartialState::BuildFailed
    } else if let Some(what) = initialization(p.frames@[0]) {
        &&& r matches Err(e) && reports(e, p.frames@[0], what)
        &&& q.frames@ == p.frames@ && q.state == PartialState::BuildFailed
    } else if !invariants_hold {
        &&& r matches Err(ReflectError::InvariantViolation { violated }) && violated@ == "Type invariants check failed"@
        &&& q.frames@ == p.frames@ && q.state == PartialState::BuildFailed
    } else if !sized {
        &&& r matches Err(ReflectError::Unsized { shape }) && shape@ == p.frames@[0].shape@
        &&& q.frames@ == p.frames@ && q.state == PartialState::BuildFailed
    } else {
        &&& r == Ok::<FrameInfo, ReflectError>(p.frames@[0])
        &&& q.frames@.len() == 0 && q.state == PartialState::Built
    }
}

/// What must be cleaned up in one frame when the builder is dropped
/// before its value is built; afterwards the frame's own memory is freed
/// if the frame owns it.
pub struct Cleanup {
    /// Drop the frame's whole value
    pub drop_value: bool,
    /// Drop these fields or elements, by index, in order
    pub drop_parts: Vec<usize>,
    /// Drop the key built for the map entry being inserted
    pub drop_key: bool,
    /// Free the memory of that key
    pub free_key: bool,
    /// Free the memory of the value being built for that entry
    pub free_value: bool,
    /// Free the frame's own memory (the frame owns it; a zero-sized type
    /// has none to free)
    pub free_memory: bool,
}

/// The indices below `n` whose flag is set, in increasing order.
pub open spec fn set_indices(s: Seq<bool>, n: int) -> Seq<usize>
    decreases n,
{
    if n <= 0 {
        seq![]
    } else {
        set_indices(s, n - 1) + if s[n - 1] { seq![(n - 1) as usize] } else { seq![] }
    }
}

/// Whether the value of the frame as a whole is to be dropped: it is
/// initialized as a whole, or it is a smart pointer, list or map that was
/// made.
pub open spec fn drops_value(f: FrameInfo) -> bool {
    match f.tracker {
        Tracker::Init => true,
        Tracker::SmartPointer { is_initialized } => is_initialized,
        Tracker::List { is_initialized, .. } => is_initialized,
        Tracker::MapOf { is_initialized, .. } => is_initialized,
        _ => false,
    }
}

/// The fields or elements of the frame that are initialized, by index: an
/// array's below its length, a struct's below its field count, the
/// selected variant's below its field count.
pub open spec fn dropped_parts(f: FrameInfo) -> Seq<usize> {
    match f.tracker {
        Tracker::Array { iset, .. } => match f.ty {
            TypeInfo::Array(n) => set_indices(iset@, n as int),
            _ => seq![],
        },
        Tracker::Struct { iset, .. } => match f.ty {
            TypeInfo::Struct(fields) => set_indices(iset@, fields@.len() as int),
            _ => seq![],
        },
        Tracker::Enum { variant, data, .. } => set_indices(data@, variant.fields@.len() as int),
        _ => seq![],
    }
}

/// Whether a map frame holds the key of the entry being inserted, built.
pub open spec fn holds_built_key(f: FrameInfo) -> bool {
    &&& f.def is MapDef
    &&& f.tracker matches Tracker::MapOf { insert_state: MapInsertState::PushingValue { .. }, .. }
}

/// Whether a map frame holds memory for the key of the entry being
/// inserted.
pub open spec fn holds_key_memory(f: FrameInfo) -> bool {
    &&& f.def is MapDef
    &&& (f.tracker matches Tracker::MapOf { insert_state: MapInsertState::PushingKey { key_allocated: true }, .. }
        || f.tracker matches Tracker::MapOf { insert_state: MapInsertState::PushingValue { .. }, .. })
}

/// Whether a map frame holds memory for the value of the entry being
/// inserted.
pub open spec fn holds_value_memory(f: FrameInfo) -> bool {
    &&& f.def is MapDef
    &&& f.tracker matches Tracker::MapOf {
        insert_state: MapInsertState::PushingValue { value_allocated: true },
        ..
    }
}

/// Whether `c` is the cleanup of frame `f`.
pub open spec fn cleans(c: Cleanup, f: FrameInfo) -> bool {
    &&& c.drop_value == drops_value(f)
    &&& c.drop_parts@ == dropped_parts(f)
    &&& c.drop_key == holds_built_key(f)
    &&& c.free_key == holds_key_memory(f)
    &&& c.free_value == holds_value_memory(f)
    &&& c.free_memory == (f.ownership == FrameOwnership::Owned)
}

/// Whether reading the flags of the frame stays within the 64 that a set
/// holds.
pub open spec fn cleanable(f: FrameInfo) -> bool {
    match f.tracker {
        Tracker::Array { .. } => match f.ty {
            TypeInfo::Array(n) => n <= 64,
            _ => true,
        },
        Tracker::Struct { .. } => match f.ty {
            TypeInfo::Struct(fields) => fields@.len() <= 64,
            _ => true,
        },
        Tracker::Enum { variant, .. } => variant.fields@.len() <= 64,
        _ => true,
    }
}

/// What writing the value of the part being built with `f` does: `f` is
/// told whether the part holds a value to drop first; when it succeeds,
/// the part is complete. When it fails, its error is returned; a part that
/// held a value is then no longer initialized (`f` was to drop that value,
/// so nothing drops it again), and anything else is unchanged.
pub open spec fn set_by<F: FnOnce(PartStart) -> Result<(), ReflectError>>(p: Partial, f: F, q: Partial, r: Result<(), ReflectError>) -> bool {
    let top = p.frames@[p.frames@.len() - 1];
    if p.state != PartialState::Active {
        refused_inactive(r) && unchanged(p, q)
    } else {
        &&& f.ensures((if top.tracker is Init { PartStart::DropOld } else { PartStart::Fresh },), r)
        &&& r is Ok ==> top_tracker_becomes(p, q, |t: Tracker| t == Tracker::Init)
        &&& r is Err ==> if top.tracker is Init {
            top_tracker_becomes(p, q, |t: Tracker| t == Tracker::Uninit)
        } else {
            unchanged(p, q)
        }
    }
}

/// What marking the part as written by a copied value of type `src_shape`
/// does: the value must be of the part's own type and that type sized;
/// the part is then complete.
pub open spec fn set_shaped(p: Partial, src_shape: Seq<char>, same_type: bool, sized: bool, q: Partial, r: Result<(), ReflectError>) -> bool {
    let top = p.frames@[p.frames@.len() - 1];
    if p.state != PartialState::Active {
        refused_inactive(r) && unchanged(p, q)
    } else if !same_type {
        &&& r matches Err(ReflectError::WrongShape { expected, actual })
        &&& expected@ == src_shape && actual@ == top.shape@
        &&& unchanged(p, q)
    } else if !sized {
        (r matches Err(ReflectError::Unsized { shape }) && shape@ == top.shape@) && unchanged(p, q)
    } else {
        r is Ok && top_tracker_becomes(p, q, |t: Tracker| t == Tracker::Init)
    }
}

/// What writing the type's default value does: with the type's function
/// for it, what writing with that function does; without one, a refusal.
pub open spec fn defaulted<F: FnOnce(PartStart) -> Result<(), ReflectError>>(p: Partial, default_in_place: Option<F>, q: Partial, r: Result<(), ReflectError>) -> bool {
    if p.state != PartialState::Active {
        refused_inactive(r) && unchanged(p, q)
    } else {
        match default_in_place {
            Some(f) => set_by(p, f, q, r),
            None => failed_with(r, p.frames@[p.frames@.len() - 1].shape, "type does not implement Default"@)
                && unchanged(p, q),
        }
    }
}

pub(crate) fn frame_of(part: ShapeInfo, ownership: FrameOwnership) -> (r: FrameInfo)
    ensures
        r.shape == part.shape && r.ty == part.ty && r.def == part.def && r.tracker is Uninit,
        r.ownership == ownership,
{
    let ShapeInfo { shape, ty, def, sized: _ } = part;
    FrameInfo { shape, ty, def, tracker: Tracker::Uninit, ownership }
}

fn find_position(names: &Vec<String>, name: &String) -> (r: Option<usize>)
    ensures
        r matches Some(k) ==> position_of(names@, name@, 0) == Some(k as int) && k < names@.len(),
        r is None ==> position_of(names@, name@, 0) is None,
{
    let mut i: usize = 0;
    while i < names.len()
        invariant
            i <= names@.len(),
            position_of(names@, name@, 0) == position_of(names@, name@, i as int),
        decreases names@.len() - i,
    {
        if names[i] == *name {
            return Some(i);
        }
        i += 1;
    }
    None
}

fn set_index_list(set: &ISet, n: usize) -> (r: Vec<usize>)
    requires
        n <= 64,
    ensures
        r@ == set_indices(set@, n as int),
{
    let mut out: Vec<usize> = Vec::new();
    let mut i: usize = 0;
    while i < n
        invariant
            i <= n <= 64,
            out@ == set_indices(set@, i as int),
        decreases n - i,
    {
        if set.get(i) {
            out.push(i);
        }
        i += 1;
    }
    out
}

pub(crate) fn cleanup_of(f: &FrameInfo) -> (r: Cleanup)
    requires
        cleanable(*f),
    ensures
        cleans(r, *f),
{
    let drop_value = match &f.tracker {
        Tracker::Init => true,
        Tracker::SmartPointer { is_initialized } => *is_initialized,
        Tracker::List { is_initialized, .. } => *is_initialized,
        Tracker::MapOf { is_initialized, .. } => *is_initialized,
        _ => false,
    };
    let drop_parts = match &f.tracker {
        Tracker::Array { iset, .. } => match &f.ty {
            TypeInfo::Array(n) => set_index_list(iset, *n),
            _ => Vec::new(),
        },
        Tracker::Struct { iset, .. } => match &f.ty {
            TypeInfo::Struct(fields) => set_index_list(iset, fields.len()),
            _ => Vec::new(),
        },
        Tracker::Enum { variant, data, .. } => set_index_list(data, variant.fields.len()),
        _ => Vec::new(),
    };
    let is_map = match &f.def {
        DefInfo::MapDef => true,
        _ => false,
    };
    let (drop_key, free_key, free_value) = match &f.tracker {
        Tracker::MapOf { insert_state, .. } => match insert_state {
            MapInsertState::PushingKey { key_allocated } => (false, is_map && *key_allocated, false),
            MapInsertState::PushingValue { value_allocated } => (is_map, is_map, is_map && *value_allocated),
            MapInsertState::Idle => (false, false, false),
        },
        _ => (false, false, false),
    };
    let free_memory = f.ownership == FrameOwnership::Owned;
    Cleanup { drop_value, drop_parts, drop_key, free_key, free_value, free_memory }
}

fn copy_names(v: &Vec<String>) -> (r: Vec<String>)
    ensures
        names_of(r@) == names_of(v@),
{
    let mut out: Vec<String> = Vec::new();
    let mut i: usize = 0;
    while i < v.len()
        invariant
            i <= v@.len(),
            out@.len() == i,
            forall|k: int| 0 <= k < i ==> #[trigger] out@[k]@ == v@[k]@,
        decreases v@.len() - i,
    {
        out.push(copy(&v[i]));
        i += 1;
    }
    assert(names_of(out@) =~= names_of(v@));
    out
}

fn find_discriminant(vs: &Vec<VariantDesc>, d: i64) -> (r: Option<usize>)
    ensures
        r matches Some(k) ==> variant_with_discriminant(vs@, d, 0) == Some(k as int) && k < vs@.len(),
        r is None ==> variant_with_discriminant(vs@, d, 0) is None,
{
    let mut i: usize = 0;
    while i < vs.len()
        invariant
            i <= vs@.len(),
            variant_with_discriminant(vs@, d, 0) == variant_with_discriminant(vs@, d, i as int),
        decreases vs@.len() - i,
    {
        let same = match vs[i].discriminant {
            Some(x) => x == d,
            None => false,
        };
        if same {
            return Some(i);
        }
        i += 1;
    }
    None
}

fn find_name(vs: &Vec<VariantDesc>, name: &String) -> (r: Option<usize>)
    ensures
        r matches Some(k) ==> variant_named(vs@, name@, 0) == Some(k as int) && k < vs@.len(),
        r is None ==> variant_named(vs@, name@, 0) is None,
{
    let mut i: usize = 0;
    while i < vs.len()
        invariant
            i <= vs@.len(),
            variant_named(vs@, name@, 0) == variant_named(vs@, name@, i as int),
        decreases vs@.len() - i,
    {
        if vs[i].name == *name {
            return Some(i);
        }
        i += 1;
    }
    None
}

impl Partial {
    /// Replaces the tracker of the innermost frame.
    fn set_top_tracker(&mut self, t: Tracker)
        requires
            old(self).frames@.len() > 0,
        ensures
            top_tracker_becomes(*old(self), *final(self), |u: Tracker| u == t),
    {
        let ghost before = self.frames@;
        let n = self.frames.len();
        match self.frames.pop() {
            Some(top) => {
                let FrameInfo { shape, ty, def, tracker: _, ownership } = top;
                self.frames.push(FrameInfo { shape, ty, def, tracker: t, ownership });
                assert(self.frames@.take(n - 1) =~= before.take(n - 1));
            },
            None => {},
        }
    }

    /// An `OperationFailed` error on the innermost frame's shape.
    fn fail(&self, op: &str) -> (r: ReflectError)
        requires
            self.frames@.len() > 0,
        ensures
            r matches ReflectError::OperationFailed { shape, operation } && shape@ == self.frames@.last().shape@
                && operation@ == op@,
    {
        let n = self.frames.len();
        ReflectError::OperationFailed { shape: copy(&self.frames[n - 1].shape), operation: String::from_str(op) }
    }

    /// Selects the variant of the enum being built by its discriminant:
    /// the first variant that has it. The caller writes the discriminant.
    pub fn select_variant(&mut self, discriminant: i64) -> (r: Result<(), ReflectError>)
        requires
            well_formed(*old(self)),
            can_select(*old(self), discriminant),
        ensures
            well_formed(*final(self)),
            selected(*old(self), discriminant, *final(self), r),
    {
        match self.require_active() {
            Err(e) => return Err(e),
            Ok(()) => {},
        }
        let n = self.frames.len();
        let top = &self.frames[n - 1];
        let new_tracker = match &top.ty {
            TypeInfo::Enum { variants, repr } => {
                let k = match find_discriminant(variants, discriminant) {
                    Some(k) => k,
                    None => {
                        return Err(self.fail("No variant found with the given discriminant"));
                    },
                };
                if *repr == EnumRepr::RustNPO {
                    return Err(self.fail("RustNPO enums are not supported for incremental building"));
                }
                let v = &variants[k];
                let t = Tracker::Enum {
                    variant: VariantInfo { name: copy(&v.name), fields: copy_names(&v.fields) },
                    data: ISet::new(v.fields.len()),
                    current_child: None,
                };
                assert(starts_variant(t, variants@[k as int]));
                t
            },
            _ => {
                return Err(ReflectError::WrongShape { expected: copy(&top.shape), actual: copy(&top.shape) });
            },
        };
        self.set_top_tracker(new_tracker);
        Ok(())
    }
    /// Selects the variant of the enum being built by its name; the
    /// variant's discriminant decides which variant is selected.
    pub fn select_variant_named(&mut self, variant_name: &str) -> (r: Result<(), ReflectError>)
        requires
            well_formed(*old(self)),
            can_select_named(*old(self), variant_name@),
        ensures
            well_formed(*final(self)),
            selected_named(*old(self), variant_name@, *final(self), r),
    {
        match self.require_active() {
            Err(e) => return Err(e),
            Ok(()) => {},
        }
        let n = self.frames.len();
        let name = String::from_str(variant_name);
        let d = match &self.frames[n - 1].ty {
            TypeInfo::Enum { variants, .. } => match find_name(variants, &name) {
                None => {
                    return Err(self.fail("No variant found with the given name"));
                },
                Some(k) => match variants[k].discriminant {
                    None => {
                        return Err(self.fail("Variant has no discriminant value"));
                    },
                    Some(d) => d,
                },
            },
            _ => {
                return Err(self.fail("push_variant_named requires an enum type"));
            },
        };
        self.select_variant(d)
    }

    /// Selects the variant of the enum being built by its index among the
    /// variants; the variant's discriminant decides which variant is
    /// selected.
    pub fn begin_nth_variant(&mut self, index: usize) -> (r: Result<(), ReflectError>)
        requires
            well_formed(*old(self)),
            can_select_nth(*old(self), index as int),
        ensures
            well_formed(*final(self)),
            selected_nth(*old(self), index as int, *final(self), r),
    {
        match self.require_active() {
            Err(e) => return Err(e),
            Ok(()) => {},
        }
        let n = self.frames.len();
        let d = match &self.frames[n - 1].ty {
            TypeInfo::Enum { variants, .. } => {
                if index >= variants.len() {
                    return Err(self.fail("variant index out of bounds"));
                }
                match variants[index].discriminant {
                    None => {
                        return Err(self.fail("Variant has no discriminant value"));
                    },
                    Some(d) => d,
                }
            },
            _ => {
                return Err(self.fail("begin_nth_variant requires an enum type"));
            },
        };
        self.select_variant(d)
    }
    /// Opens the frame of field `idx` of the struct being built; `part`
    /// is the field's type. The result says whether the field held a value
    /// that the caller drops before building it again.
    pub fn begin_nth_field(&mut self, idx: usize, part: ShapeInfo) -> (r: Result<PartStart, ReflectError>)
        requires
            well_formed(*old(self)),
            can_begin_nth_field(*old(self), idx as int),
        ensures
            well_formed(*final(self)),
            began_nth_field(*old(self), idx as int, part, *final(self), r),
    {
        match self.require_active() {
            Err(e) => return Err(e),
            Ok(()) => {},
        }
        let n = self.frames.len();
        let (tracker, start) = match &self.frames[n - 1].ty {
            TypeInfo::Struct(fields) => {
                if idx >= fields.len() {
                    return Err(self.fail("field index out of bounds"));
                }
                match &self.frames[n - 1].tracker {
                    Tracker::Struct { iset, .. } => {
                        let mut s2 = *iset;
                        proof {
                            iset.lemma_view_len();
                        }
                        let start = if s2.get(idx) {
                            s2.unset(idx);
                            PartStart::DropOld
                        } else {
                            assert(s2@ =~= iset@.update(idx as int, false));
                            PartStart::Fresh
                        };
                        (Tracker::Struct { iset: s2, current_child: Some(idx) }, start)
                    },
                    _ => (Tracker::Struct { iset: ISet::new(fields.len()), current_child: Some(idx) }, PartStart::Fresh),
                }
            },
            TypeInfo::Union => {
                return Err(self.fail("unions are not supported"));
            },
            TypeInfo::Opaque => {
                return Err(self.fail("opaque types cannot be reflected upon"));
            },
            _ => {
                return Err(self.fail("cannot select a field from this type"));
            },
        };
        self.set_top_tracker(tracker);
        let ghost mid = self.frames@;
        self.frames.push(frame_of(part, FrameOwnership::Field));
        assert(self.frames@.take(n - 1) =~= mid.take(n - 1));
        assert(self.frames@[n - 1] == mid[n - 1]);
        Ok(start)
    }

    /// Opens the frame of field `idx` of the selected variant of the enum
    /// being built; `part` is the field's type. The result says whether
    /// the field held a value that the caller drops before building it
    /// again.
    pub fn begin_nth_enum_field(&mut self, idx: usize, part: ShapeInfo) -> (r: Result<PartStart, ReflectError>)
        requires
            well_formed(*old(self)),
            can_begin_nth_enum_field(*old(self), idx as int),
        ensures
            well_formed(*final(self)),
            began_nth_enum_field(*old(self), idx as int, part, *final(self), r),
    {
        match self.require_active() {
            Err(e) => return Err(e),
            Ok(()) => {},
        }
        let n = self.frames.len();
        let ghost before = self.frames@;
        let (count, held, npo) = match (&self.frames[n - 1].tracker, &self.frames[n - 1].ty) {
            (Tracker::Enum { variant, data, .. }, TypeInfo::Enum { repr, .. }) => {
                let count = variant.fields.len();
                let held = if idx < count {
                    data.get(idx)
                } else {
                    false
                };
                (count, held, *repr == EnumRepr::RustNPO)
            },
            _ => {
                return Err(self.fail("push_nth_enum_field requires an enum with a variant selected"));
            },
        };
        if idx >= count {
            return Err(self.fail("enum field index out of bounds"));
        }
        if held && npo {
            return Err(self.fail("RustNPO enums are not supported"));
        }
        match self.frames.pop() {
            Some(top) => {
                let FrameInfo { shape, ty, def, tracker, ownership } = top;
                let tracker = match tracker {
                    Tracker::Enum { variant, mut data, current_child: _ } => {
                        proof {
                            data.lemma_view_len();
                        }
                        let ghost d0 = data@;
                        if held {
                            data.unset(idx);
                        } else {
                            assert(data@ =~= d0.update(idx as int, false));
                        }
                        Tracker::Enum { variant, data, current_child: Some(idx) }
                    },
                    other => other,
                };
                self.frames.push(FrameInfo { shape, ty, def, tracker, ownership });
                assert(self.frames@.take(n - 1) =~= before.take(n - 1));
            },
            None => {},
        }
        let ghost mid = self.frames@;
        self.frames.push(frame_of(part, FrameOwnership::Field));
        assert(self.frames@.take(n - 1) =~= mid.take(n - 1));
        assert(self.frames@[n - 1] == mid[n - 1]);
        Ok(if held { PartStart::DropOld } else { PartStart::Fresh })
    }
    /// Opens the frame of the field named `field_name`, of a struct or of
    /// the selected variant of an enum; `part` is the field's type.
    pub fn begin_field(&mut self, field_name: &str, part: ShapeInfo) -> (r: Result<PartStart, ReflectError>)
        requires
            well_formed(*old(self)),
            can_begin_field(*old(self), field_name@),
        ensures
            well_formed(*final(self)),
            began_field(*old(self), field_name@, part, *final(self), r),
    {
        match self.require_active() {
            Err(e) => return Err(e),
            Ok(()) => {},
        }
        let n = self.frames.len();
        let name = String::from_str(field_name);
        match &self.frames[n - 1].ty {
            TypeInfo::Primitive => Err(self.fail("cannot select a field from a primitive type")),
            TypeInfo::Array(_) => Err(self.fail("cannot select a field from a sequence type")),
            TypeInfo::OtherSequence => Err(self.fail("cannot select a field from a sequence type")),
            TypeInfo::Struct(fields) => match find_position(fields, &name) {
                None => Err(self.fail("field not found")),
                Some(i) => self.begin_nth_field(i, part),
            },
            TypeInfo::Enum { .. } => match &self.frames[n - 1].tracker {
                Tracker::Enum { variant, .. } => match find_position(&variant.fields, &name) {
                    None => Err(self.fail("field not found in current enum variant")),
                    Some(i) => self.begin_nth_enum_field(i, part),
                },
                _ => Err(self.fail("must call push_variant before selecting enum fields")),
            },
            TypeInfo::Union => Err(self.fail("unions are not supported")),
            TypeInfo::Opaque => Err(self.fail("opaque types cannot be reflected upon")),
            TypeInfo::Pointer => Err(self.fail("cannot select a field from a pointer type")),
        }
    }

    /// Opens the frame of element `idx` of the array being built; `part`
    /// is the element type. The result says whether the element held a
    /// value that the caller drops before building it again.
    pub fn begin_nth_element(&mut self, idx: usize, part: ShapeInfo) -> (r: Result<PartStart, ReflectError>)
        requires
            well_formed(*old(self)),
        ensures
            well_formed(*final(self)),
            began_nth_element(*old(self), idx as int, part, *final(self), r),
    {
        match self.require_active() {
            Err(e) => return Err(e),
            Ok(()) => {},
        }
        let n = self.frames.len();
        match &self.frames[n - 1].ty {
            TypeInfo::Array(len) => {
                if idx >= *len {
                    return Err(self.fail("array index out of bounds"));
                }
                if *len > 63 {
                    return Err(self.fail("arrays larger than 63 elements are not yet supported"));
                }
            },
            TypeInfo::OtherSequence => {
                return Err(self.fail("can only select elements from arrays"));
            },
            _ => {
                return Err(self.fail("cannot select an element from this type"));
            },
        }
        let was_uninit = match &self.frames[n - 1].tracker {
            Tracker::Uninit => true,
            _ => false,
        };
        if was_uninit {
            let t = Tracker::Array { iset: ISet::default(), current_child: None };
            self.set_top_tracker(t);
        }
        let iset = match &self.frames[n - 1].tracker {
            Tracker::Array { iset, .. } => *iset,
            _ => {
                return Err(self.fail("expected array tracker state"));
            },
        };
        if !part.sized {
            return Err(ReflectError::Unsized { shape: part.shape });
        }
        proof {
            iset.lemma_view_len();
        }
        let mut s2 = iset;
        let start = if s2.get(idx) {
            s2.unset(idx);
            PartStart::DropOld
        } else {
            assert(s2@ =~= iset@.update(idx as int, false));
            PartStart::Fresh
        };
        self.set_top_tracker(Tracker::Array { iset: s2, current_child: Some(idx) });
        let ghost mid = self.frames@;
        self.frames.push(frame_of(part, FrameOwnership::Field));
        assert(self.frames@.take(n - 1) =~= mid.take(n - 1));
        assert(self.frames@[n - 1] == mid[n - 1]);
        Ok(start)
    }
    /// Makes the list being built empty in place, ready for elements; the
    /// caller initializes its memory.
    pub fn begin_list(&mut self) -> (r: Result<(), ReflectError>)
        requires
            well_formed(*old(self)),
        ensures
            well_formed(*final(self)),
            began_list(*old(self), *final(self), r),
    {
        match self.require_active() {
            Err(e) => return Err(e),
            Ok(()) => {},
        }
        let n = self.frames.len();
        match &self.frames[n - 1].def {
            DefInfo::List { can_init, .. } => {
                if !*can_init {
                    return Err(self.fail("list type does not support initialization with capacity"));
                }
            },
            _ => {
                return Err(self.fail("begin_pushback can only be called on List types"));
            },
        }
        self.set_top_tracker(Tracker::List { is_initialized: true, current_child: false });
        Ok(())
    }

    /// Makes the map being built empty in place, ready for entries; the
    /// caller initializes its memory.
    pub fn begin_map(&mut self) -> (r: Result<(), ReflectError>)
        requires
            well_formed(*old(self)),
        ensures
            well_formed(*final(self)),
            began_map(*old(self), *final(self), r),
    {
        match self.require_active() {
            Err(e) => return Err(e),
            Ok(()) => {},
        }
        let n = self.frames.len();
        match &self.frames[n - 1].def {
            DefInfo::MapDef => {},
            _ => {
                return Err(self.fail("begin_map can only be called on Map types"));
            },
        }
        self.set_top_tracker(Tracker::MapOf { is_initialized: true, insert_state: MapInsertState::Idle });
        Ok(())
    }

    /// Starts inserting an entry into the map being built: its key is to
    /// be built next.
    pub fn begin_insert(&mut self) -> (r: Result<(), ReflectError>)
        requires
            well_formed(*old(self)),
        ensures
            well_formed(*final(self)),
            began_insert(*old(self), *final(self), r),
    {
        match self.require_active() {
            Err(e) => return Err(e),
            Ok(()) => {},
        }
        let n = self.frames.len();
        match &self.frames[n - 1].tracker {
            Tracker::MapOf { is_initialized, insert_state } => {
                if !*is_initialized {
                    return Err(self.fail("must call begin_map() before begin_insert()"));
                }
                if *insert_state != MapInsertState::Idle {
                    return Err(self.fail("already in the middle of an insert operation"));
                }
            },
            _ => {
                return Err(self.fail("must call begin_map() before begin_insert()"));
            },
        }
        self.set_top_tracker(
            Tracker::MapOf { is_initialized: true, insert_state: MapInsertState::PushingKey { key_allocated: false } },
        );
        Ok(())
    }

    /// Opens the frame of a new element of the list being built; `part` is
    /// the element type and `allocated` whether memory for the element
    /// could be had.
    pub fn begin_list_item(&mut self, part: ShapeInfo, allocated: bool) -> (r: Result<(), ReflectError>)
        requires
            well_formed(*old(self)),
        ensures
            well_formed(*final(self)),
            began_list_item(*old(self), part, allocated, *final(self), r),
    {
        match self.require_active() {
            Err(e) => return Err(e),
            Ok(()) => {},
        }
        let n = self.frames.len();
        match &self.frames[n - 1].def {
            DefInfo::List { .. } => {},
            _ => {
                return Err(self.fail("push can only be called on List types"));
            },
        }
        match &self.frames[n - 1].tracker {
            Tracker::List { is_initialized, current_child } => {
                if !*is_initialized {
                    return Err(self.fail("must call begin_pushback() before push()"));
                }
                if *current_child {
                    return Err(self.fail("already pushing an element, call pop() first"));
                }
            },
            _ => {
                return Err(self.fail("must call begin_pushback() before push()"));
            },
        }
        self.set_top_tracker(Tracker::List { is_initialized: true, current_child: true });
        if !part.sized {
            return Err(ReflectError::Unsized { shape: part.shape });
        }
        if !allocated {
            return Err(self.fail("failed to allocate memory for list element"));
        }
        let ghost mid = self.frames@;
        self.frames.push(frame_of(part, FrameOwnership::Owned));
        assert(self.frames@.take(n - 1) =~= mid.take(n - 1));
        assert(self.frames@[n - 1] == mid[n - 1]);
        Ok(())
    }

    /// Opens the frame of the key of the entry being inserted; `part` is
    /// the key type and `allocated` whether memory for the key could be
    /// had.
    pub fn begin_key(&mut self, part: ShapeInfo, allocated: bool) -> (r: Result<(), ReflectError>)
        requires
            well_formed(*old(self)),
        ensures
            well_formed(*final(self)),
            began_key(*old(self), part, allocated, *final(self), r),
    {
        match self.require_active() {
            Err(e) => return Err(e),
            Ok(()) => {},
        }
        let n = self.frames.len();
        let is_map = match &self.frames[n - 1].def {
            DefInfo::MapDef => true,
            _ => false,
        };
        if !is_map {
            return Err(self.fail("must call begin_insert() before push_key()"));
        }
        let init = match &self.frames[n - 1].tracker {
            Tracker::MapOf { is_initialized, insert_state: MapInsertState::PushingKey { key_allocated } } => {
                if *key_allocated {
                    return Err(self.fail("already pushing a key, call pop() first"));
                }
                *is_initialized
            },
            _ => {
                return Err(self.fail("must call begin_insert() before push_key()"));
            },
        };
        if !part.sized {
            return Err(ReflectError::Unsized { shape: part.shape });
        }
        if !allocated {
            return Err(self.fail("failed to allocate memory for map key"));
        }
        self.set_top_tracker(
            Tracker::MapOf { is_initialized: init, insert_state: MapInsertState::PushingKey { key_allocated: true } },
        );
        let ghost mid = self.frames@;
        self.frames.push(frame_of(part, FrameOwnership::ManagedElsewhere));
        assert(self.frames@.take(n - 1) =~= mid.take(n - 1));
        assert(self.frames@[n - 1] == mid[n - 1]);
        Ok(())
    }

    /// Opens the frame of the value of the entry being inserted; `part` is
    /// the value type and `allocated` whether memory for the value could be
    /// had.
    pub fn begin_value(&mut self, part: ShapeInfo, allocated: bool) -> (r: Result<(), ReflectError>)
        requires
            well_formed(*old(self)),
        ensures
            well_formed(*final(self)),
            began_value(*old(self), part, allocated, *final(self), r),
    {
        match self.require_active() {
            Err(e) => return Err(e),
            Ok(()) => {},
        }
        let n = self.frames.len();
        let is_map = match &self.frames[n - 1].def {
            DefInfo::MapDef => true,
            _ => false,
        };
        if !is_map {
            return Err(self.fail("must complete key before push_value()"));
        }
        let init = match &self.frames[n - 1].tracker {
            Tracker::MapOf { is_initialized, insert_state: MapInsertState::PushingValue { value_allocated } } => {
                if *value_allocated {
                    return Err(self.fail("already pushing a value, call pop() first"));
                }
                *is_initialized
            },
            _ => {
                return Err(self.fail("must complete key before push_value()"));
            },
        };
        if !part.sized {
            return Err(ReflectError::Unsized { shape: part.shape });
        }
        if !allocated {
            return Err(self.fail("failed to allocate memory for map value"));
        }
        self.set_top_tracker(
            Tracker::MapOf { is_initialized: init, insert_state: MapInsertState::PushingValue { value_allocated: true } },
        );
        let ghost mid = self.frames@;
        self.frames.push(frame_of(part, FrameOwnership::ManagedElsewhere));
        assert(self.frames@.take(n - 1) =~= mid.take(n - 1));
        assert(self.frames@[n - 1] == mid[n - 1]);
        Ok(())
    }
    /// Opens the frame of the pointee of the smart pointer being built;
    /// `pointee` is the pointee's type, if the pointer has one, and
    /// `allocated` whether memory for it could be had.
    pub fn begin_smart_ptr(&mut self, pointee: Option<ShapeInfo>, allocated: bool) -> (r: Result<(), ReflectError>)
        requires
            well_formed(*old(self)),
        ensures
            well_formed(*final(self)),
            began_smart_ptr(*old(self), pointee, allocated, *final(self), r),
    {
        match self.require_active() {
            Err(e) => return Err(e),
            Ok(()) => {},
        }
        let n = self.frames.len();
        match &self.frames[n - 1].def {
            DefInfo::SmartPointer { box_or_arc, .. } => {
                if !*box_or_arc {
                    return Err(self.fail("only Box and Arc smart pointers are currently supported"));
                }
            },
            _ => {
                return Err(self.fail("push_smart_ptr can only be called on compatible types"));
            },
        }
        let part = match pointee {
            Some(part) => part,
            None => {
                return Err(self.fail("Box must have a pointee shape"));
            },
        };
        let was_uninit = match &self.frames[n - 1].tracker {
            Tracker::Uninit => true,
            _ => false,
        };
        if was_uninit {
            self.set_top_tracker(Tracker::SmartPointer { is_initialized: false });
        } else {
            assert(self.frames@.take(n - 1) =~= old(self).frames@.take(n - 1));
        }
        if !part.sized {
            return Err(ReflectError::Unsized { shape: part.shape });
        }
        if !allocated {
            return Err(self.fail("failed to allocate memory for Box inner value"));
        }
        let ghost mid = self.frames@;
        self.frames.push(frame_of(part, FrameOwnership::Owned));
        assert(self.frames@.take(n - 1) =~= mid.take(n - 1));
        assert(self.frames@[n - 1] == mid[n - 1]);
        Ok(())
    }

    /// A builder for a value of type `shape`, nothing of it initialized;
    /// an unsized type has no memory to build in.
    pub fn alloc_shape(shape: ShapeInfo) -> (r: Result<Partial, ReflectError>)
        ensures
            shape.sized ==> (r matches Ok(p) && fresh(p, shape, FrameOwnership::Owned)),
            !shape.sized ==> (r matches Err(ReflectError::Unsized { shape: s }) && s == shape.shape),
    {
        if !shape.sized {
            return Err(ReflectError::Unsized { shape: shape.shape });
        }
        let mut frames: Vec<FrameInfo> = Vec::new();
        frames.push(frame_of(shape, FrameOwnership::Owned));
        Ok(Partial { frames, state: PartialState::Active })
    }

    /// Builds the value: hands out the root frame once the value is
    /// complete. `invariants_hold` is what the type's invariant check says
    /// of the finished value (true for a type without one), and `sized`
    /// whether the type is sized.
    pub fn build(&mut self, invariants_hold: bool, sized: bool) -> (r: Result<FrameInfo, ReflectError>)
        requires
            well_formed(*old(self)),
            old(self).state == PartialState::Active && old(self).frames@.len() == 1 ==> checkable(old(self).frames@[0]),
        ensures
            well_formed(*final(self)),
            built(*old(self), invariants_hold, sized, *final(self), r),
    {
        match self.require_active() {
            Err(e) => return Err(e),
            Ok(()) => {},
        }
        if self.frames.len() != 1 {
            self.state = PartialState::BuildFailed;
            return Err(ReflectError::InvariantViolation {
                violated: String::from_str("Wip::build() expects a single frame \u{2014} pop until that's the case"),
            });
        }
        match require_full_initialization(&self.frames[0]) {
            Err(e) => {
                self.state = PartialState::BuildFailed;
                return Err(e);
            },
            Ok(()) => {},
        }
        if !invariants_hold {
            self.state = PartialState::BuildFailed;
            return Err(ReflectError::InvariantViolation { violated: String::from_str("Type invariants check failed") });
        }
        if !sized {
            self.state = PartialState::BuildFailed;
            return Err(ReflectError::Unsized { shape: copy(&self.frames[0].shape) });
        }
        self.state = PartialState::Built;
        match self.frames.pop() {
            Some(f) => Ok(f),
            None => Err(ReflectError::Unknown),
        }
    }
    /// What dropping the builder before its value is built cleans up: one
    /// entry per frame, the innermost first.
    pub fn cleanup_plan(&self) -> (r: Vec<Cleanup>)
        requires
            forall|i: int| 0 <= i < self.frames@.len() ==> cleanable(#[trigger] self.frames@[i]),
        ensures
            r@.len() == self.frames@.len(),
            forall|i: int| 0 <= i < r@.len() ==> cleans(#[trigger] r@[i], self.frames@[self.frames@.len() - 1 - i]),
    {
        let mut out: Vec<Cleanup> = Vec::new();
        let n = self.frames.len();
        let mut k: usize = n;
        while k > 0
            invariant
                k <= n == self.frames@.len(),
                forall|i: int| 0 <= i < n ==> cleanable(#[trigger] self.frames@[i]),
                out@.len() == n - k,
                forall|i: int| 0 <= i < out@.len() ==> cleans(#[trigger] out@[i], self.frames@[n - 1 - i]),
            decreases k,
        {
            k -= 1;
            out.push(cleanup_of(&self.frames[k]));
        }
        out
    }

    /// A builder for a value of type `shape` in memory that the caller
    /// already holds, nothing of it initialized.
    pub fn from_ptr(shape: ShapeInfo) -> (r: Partial)
        ensures
            fresh(r, shape, FrameOwnership::Field),
    {
        let mut frames: Vec<FrameInfo> = Vec::new();
        frames.push(frame_of(shape, FrameOwnership::Field));
        Partial { frames, state: PartialState::Active }
    }

    /// The description of the type of the part being built.
    pub fn shape(&self) -> (r: &String)
        requires
            self.frames@.len() > 0,
        ensures
            *r == self.frames@[self.frames@.len() - 1].shape,
    {
        &self.frames[self.frames.len() - 1].shape
    }

    /// The path from the value being built down to the part being built.
    pub fn path(&self) -> (r: String)
        ensures
            r@ == path_text(self.frames@, self.frames@.len() as int),
    {
        crate::build_state::path(&self.frames)
    }

    /// Marks the part being built as written by copying a value of type
    /// `src_shape` into it, which the caller does: `same_type` says whether
    /// that is the part's own type, and `sized` whether the part's type is
    /// sized. A value already there is not dropped.
    pub fn set_shape(&mut self, src_shape: &String, same_type: bool, sized: bool) -> (r: Result<(), ReflectError>)
        requires
            well_formed(*old(self)),
        ensures
            well_formed(*final(self)),
            set_shaped(*old(self), src_shape@, same_type, sized, *final(self), r),
    {
        match self.require_active() {
            Err(e) => return Err(e),
            Ok(()) => {},
        }
        let n = self.frames.len();
        if !same_type {
            return Err(ReflectError::WrongShape { expected: copy(src_shape), actual: copy(&self.frames[n - 1].shape) });
        }
        if !sized {
            return Err(ReflectError::Unsized { shape: copy(&self.frames[n - 1].shape) });
        }
        self.set_top_tracker(Tracker::Init);
        Ok(())
    }

    /// Writes the default value of the type into the part being built,
    /// with `default_in_place`, the type's function that does it, if it
    /// has one; a builder that is no longer active refuses first.
    pub fn set_default<F: FnOnce(PartStart) -> Result<(), ReflectError>>(&mut self, default_in_place: Option<F>) -> (r: Result<(), ReflectError>)
        requires
            well_formed(*old(self)),
            default_in_place matches Some(f) ==> f.requires((PartStart::Fresh,)) && f.requires((PartStart::DropOld,)),
        ensures
            well_formed(*final(self)),
            defaulted(*old(self), default_in_place, *final(self), r),
    {
        match self.require_active() {
            Err(e) => return Err(e),
            Ok(()) => {},
        }
        match default_in_place {
            Some(f) => self.set_from_function(f),
            None => Err(self.fail("type does not implement Default")),
        }
    }

    /// Writes the value of the part being built with `f`, which is told
    /// whether the part holds a value that it must drop first (it does when
    /// the part was written as a whole before); the part is then complete.
    /// When `f` fails, its error is returned, and a part that held a value
    /// counts as uninitialized, so that the value is not dropped twice.
    pub fn set_from_function<F: FnOnce(PartStart) -> Result<(), ReflectError>>(&mut self, f: F) -> (r: Result<(), ReflectError>)
        requires
            well_formed(*old(self)),
            f.requires((PartStart::Fresh,)),
            f.requires((PartStart::DropOld,)),
        ensures
            well_formed(*final(self)),
            set_by(*old(self), f, *final(self), r),
    {
        match self.require_active() {
            Err(e) => return Err(e),
            Ok(()) => {},
        }
        let n = self.frames.len();
        let start = match &self.frames[n - 1].tracker {
            Tracker::Init => PartStart::DropOld,
            _ => PartStart::Fresh,
        };
        assert(start == (if self.frames@[n - 1].tracker is Init { PartStart::DropOld } else { PartStart::Fresh }));
        let out = f(start);
        if out.is_ok() {
            self.set_top_tracker(Tracker::Init);
        } else if start == PartStart::DropOld {
            self.set_top_tracker(Tracker::Uninit);
        }
        out
    }
}

/// Opening field `i` of the struct being built, writing the field's value,
/// and closing the field's frame marks field `i`, and only it, as
/// initialized, and leaves the builder at the struct again, with no field
/// being built.
pub proof fn law_field_closes_into_struct(
    p: Partial,
    i: int,
    part: ShapeInfo,
    q: Partial,
    r1: Result<PartStart, ReflectError>,
    q2: Partial,
    q3: Partial,
    r3: Result<EndAction, ReflectError>,
)
    requires
        well_formed(p),
        p.state == PartialState::Active,
        p.frames@[p.frames@.len() - 1].ty matches TypeInfo::Struct(fields) && 0 <= i < fields@.len(),
        can_begin_nth_field(p, i),
        began_nth_field(p, i, part, q, r1),
        top_tracker_becomes(q, q2, |t: Tracker| t == Tracker::Init),
        ended(q2, q3, r3),
    ensures
        r3 == Ok::<EndAction, ReflectError>(EndAction::Keep),
        q3.state == p.state,
        q3.frames@.len() == p.frames@.len(),
        q3.frames@.take(p.frames@.len() - 1) == p.frames@.take(p.frames@.len() - 1),
        q3.frames@[p.frames@.len() - 1].tracker matches Tracker::Struct { iset, current_child: None },
        forall|j: int|
            0 <= j < 64 ==> #[trigger] q3.frames@[p.frames@.len() - 1].tracker->Struct_iset@[j] == (j == i || match p.frames@[p.frames@.len() - 1].tracker {
                Tracker::Struct { iset, .. } => iset@[j],
                _ => j >= p.frames@[p.frames@.len() - 1].ty->Struct_0@.len(),
            }),
{
    let n = p.frames@.len();
    let top = p.frames@[n - 1];
    let fields = top.ty->Struct_0;
    assert(r1 is Ok);
    let parent = q2.frames@[n - 1];
    assert(q2.frames@.len() == n + 1);
    assert(q2.frames@[n as int].tracker == Tracker::Init);
    assert(initialization(q2.frames@[n as int]) is None);
    assert(parent.tracker == q.frames@[n - 1].tracker) by {
        assert(q2.frames@.take(n as int)[n - 1] == q.frames@.take(n as int)[n - 1]);
    }
    let i2 = parent.tracker->Struct_iset;
    assert(parent.tracker is Struct);
    i2.lemma_view_len();
    let i3 = q3.frames@[n - 1].tracker->Struct_iset;
    assert(i3@ == i2@.update(i, true));
    match top.tracker {
        Tracker::Struct { iset, .. } => {
            iset.lemma_view_len();
            assert(i2@ == iset@.update(i, false));
            assert forall|j: int| 0 <= j < 64 implies #[trigger] i3@[j] == (j == i || iset@[j]) by {}
        },
        _ => {
            assert forall|j: int| 0 <= j < 64 implies #[trigger] i3@[j] == (j == i || j >= fields@.len()) by {}
        },
    }
    assert(q3.frames@.take(n - 1) =~= p.frames@.take(n - 1)) by {
        assert(q3.frames@.take(n - 1) =~= q2.frames@.take(n - 1));
        assert(q2.frames@.take(n - 1) =~= q.frames@.take(n - 1));
    }
}

/// A map entry is built key first, then value: starting an insertion in a
/// map that is made and inserting nothing, opening the key, writing it,
/// closing its frame, opening the value, writing it and closing its frame
/// asks the caller to insert the entry, and leaves the builder at the map
/// again, made and inserting nothing.
pub proof fn law_map_entry_key_then_value(
    p: Partial,
    q1: Partial,
    r1: Result<(), ReflectError>,
    key: ShapeInfo,
    q2: Partial,
    r2: Result<(), ReflectError>,
    q3: Partial,
    q4: Partial,
    r4: Result<EndAction, ReflectError>,
    value: ShapeInfo,
    q5: Partial,
    r5: Result<(), ReflectError>,
    q6: Partial,
    q7: Partial,
    r7: Result<EndAction, ReflectError>,
)
    requires
        well_formed(p),
        p.state == PartialState::Active,
        p.frames@[p.frames@.len() - 1].def is MapDef,
        p.frames@[p.frames@.len() - 1].tracker == (Tracker::MapOf {
            is_initialized: true,
            insert_state: MapInsertState::Idle,
        }),
        key.sized,
        value.sized,
        began_insert(p, q1, r1),
        began_key(q1, key, true, q2, r2),
        top_tracker_becomes(q2, q3, |t: Tracker| t == Tracker::Init),
        ended(q3, q4, r4),
        began_value(q4, value, true, q5, r5),
        top_tracker_becomes(q5, q6, |t: Tracker| t == Tracker::Init),
        ended(q6, q7, r7),
    ensures
        r4 == Ok::<EndAction, ReflectError>(EndAction::Keep),
        r7 == Ok::<EndAction, ReflectError>(EndAction::InsertEntry),
        q7.state == p.state,
        q7.frames@.len() == p.frames@.len(),
        q7.frames@.take(p.frames@.len() - 1) == p.frames@.take(p.frames@.len() - 1),
        q7.frames@[p.frames@.len() - 1].shape == p.frames@[p.frames@.len() - 1].shape,
        q7.frames@[p.frames@.len() - 1].def == p.frames@[p.frames@.len() - 1].def,
        q7.frames@[p.frames@.len() - 1].tracker == (Tracker::MapOf {
            is_initialized: true,
            insert_state: MapInsertState::Idle,
        }),
{
    let n = p.frames@.len();
    let m = n - 1;
    // the insertion starts
    assert(q1.frames@[m].tracker == Tracker::MapOf {
        is_initialized: true,
        insert_state: MapInsertState::PushingKey { key_allocated: false },
    });
    assert(q1.frames@[m].def is MapDef);
    // the key's frame is opened, then written
    assert(q2.frames@.len() == n + 1);
    assert(q3.frames@[n as int].tracker == Tracker::Init);
    assert(q3.frames@[m] == q2.frames@[m]) by {
        assert(q3.frames@.take(n as int)[m] == q2.frames@.take(n as int)[m]);
    }
    assert(q3.frames@[m].tracker == Tracker::MapOf {
        is_initialized: true,
        insert_state: MapInsertState::PushingKey { key_allocated: true },
    });
    // closing the key's frame moves on to the value
    assert(q4.frames@.len() == n);
    assert(q4.frames@[m].tracker == Tracker::MapOf {
        is_initialized: true,
        insert_state: MapInsertState::PushingValue { value_allocated: false },
    });
    assert(q4.frames@[m].def is MapDef);
    // the value's frame is opened, then written
    assert(q5.frames@.len() == n + 1);
    assert(q6.frames@[n as int].tracker == Tracker::Init);
    assert(q6.frames@[m] == q5.frames@[m]) by {
        assert(q6.frames@.take(n as int)[m] == q5.frames@.take(n as int)[m]);
    }
    assert(q6.frames@[m].tracker == Tracker::MapOf {
        is_initialized: true,
        insert_state: MapInsertState::PushingValue { value_allocated: true },
    });
    // the frames below the map never change
    assert(q7.frames@.take(m) =~= q6.frames@.take(m));
    assert(q6.frames@.take(m) =~= q5.frames@.take(m));
    assert(q5.frames@.take(m) =~= q4.frames@.take(m));
    assert(q4.frames@.take(m) =~= q3.frames@.take(m));
    assert(q3.frames@.take(m) =~= q2.frames@.take(m));
    assert(q2.frames@.take(m) =~= q1.frames@.take(m));
    assert(q1.frames@.take(m) =~= p.frames@.take(m));
}

proof fn lemma_variant_found_in_range(vs: Seq<VariantDesc>, d: i64, i: int)
    ensures
        variant_with_discriminant(vs, d, i) matches Some(k) ==> i <= k < vs.len()
            && vs[k].discriminant == Some(d),
    decreases vs.len() - i,
{
    if 0 <= i < vs.len() && vs[i].discriminant != Some(d) {
        lemma_variant_found_in_range(vs, d, i + 1);
    }
}

/// Right after a variant is selected, the enum is complete if the variant
/// has no fields, and otherwise misses the variant's first field.
pub proof fn law_selected_variant_misses_first_field(p: Partial, d: i64, q: Partial)
    requires
        well_formed(p),
        p.state == PartialState::Active,
        selected(p, d, q, Ok(())),
    ensures
        ({
            let n = p.frames@.len();
            let variants = p.frames@[n - 1].ty->Enum_variants@;
            let v = variants[variant_with_discriminant(variants, d, 0)->Some_0];
            &&& v.fields@.len() == 0 ==> initialization(q.frames@[n - 1]) is None
            &&& v.fields@.len() > 0 ==> initialization(q.frames@[n - 1]) == Some(
                Incomplete::EnumField(v.fields@[0]@, v.name@),
            )
        }),
{
    let n = p.frames@.len();
    let variants = p.frames@[n - 1].ty->Enum_variants@;
    lemma_variant_found_in_range(variants, d, 0);
    let k = variant_with_discriminant(variants, d, 0)->Some_0;
    let v = variants[k];
    let t = q.frames@[n - 1].tracker;
    assert(starts_variant(t, v));
    t->Enum_data.lemma_view_len();
    assert(names_of(t->Enum_variant.fields@).len() == names_of(v.fields@).len());
    assert(t->Enum_variant.fields@.len() == v.fields@.len());
    if v.fields@.len() > 0 {
        assert(!t->Enum_data@[0]);
        assert(!first_set(t->Enum_data@, v.fields@.len() as int));
        assert(first_unset(t->Enum_data@, v.fields@.len() as int, 0) == Some(0int));
        assert(names_of(t->Enum_variant.fields@)[0] == names_of(v.fields@)[0]);
    }
}

/// Nothing can be used once the value is built, or building failed: after
/// `build` returns, every step of the builder refuses with the error that
/// the builder is no longer active, and changes nothing; a value that was
/// built leaves no frame behind, so there is nothing left to clean up.
pub proof fn law_nothing_after_build<F: FnOnce(PartStart) -> Result<(), ReflectError>>(
    p0: Partial,
    invariants_hold: bool,
    sized: bool,
    p: Partial,
    r0: Result<FrameInfo, ReflectError>,
    f: F,
)
    requires
        built(p0, invariants_hold, sized, p, r0),
    ensures
        p.state != PartialState::Active,
        r0 is Ok ==> p.frames@.len() == 0,
        forall|q: Partial, r: Result<EndAction, ReflectError>| #[trigger] ended(p, q, r) ==> refused_inactive(r) && unchanged(p, q),
        forall|ih: bool, sz: bool, q: Partial, r: Result<FrameInfo, ReflectError>|
            #[trigger] built(p, ih, sz, q, r) ==> refused_inactive(r) && unchanged(p, q),
        forall|d: i64, q: Partial, r: Result<(), ReflectError>|
            #[trigger] selected(p, d, q, r) ==> refused_inactive(r) && unchanged(p, q),
        forall|name: Seq<char>, q: Partial, r: Result<(), ReflectError>|
            #[trigger] selected_named(p, name, q, r) ==> refused_inactive(r) && unchanged(p, q),
        forall|i: int, q: Partial, r: Result<(), ReflectError>|
            #[trigger] selected_nth(p, i, q, r) ==> refused_inactive(r) && unchanged(p, q),
        forall|i: int, part: ShapeInfo, q: Partial, r: Result<PartStart, ReflectError>|
            #[trigger] began_nth_field(p, i, part, q, r) ==> refused_inactive(r) && unchanged(p, q),
        forall|i: int, part: ShapeInfo, q: Partial, r: Result<PartStart, ReflectError>|
            #[trigger] began_nth_enum_field(p, i, part, q, r) ==> refused_inactive(r) && unchanged(p, q),
        forall|name: Seq<char>, part: ShapeInfo, q: Partial, r: Result<PartStart, ReflectError>|
            #[trigger] began_field(p, name, part, q, r) ==> refused_inactive(r) && unchanged(p, q),
        forall|i: int, part: ShapeInfo, q: Partial, r: Result<PartStart, ReflectError>|
            #[trigger] began_nth_element(p, i, part, q, r) ==> refused_inactive(r) && unchanged(p, q),
        forall|q: Partial, r: Result<(), ReflectError>| #[trigger] began_list(p, q, r) ==> refused_inactive(r) && unchanged(p, q),
        forall|q: Partial, r: Result<(), ReflectError>| #[trigger] began_map(p, q, r) ==> refused_inactive(r) && unchanged(p, q),
        forall|q: Partial, r: Result<(), ReflectError>| #[trigger] began_insert(p, q, r) ==> refused_inactive(r) && unchanged(p, q),
        forall|part: ShapeInfo, a: bool, q: Partial, r: Result<(), ReflectError>|
            #[trigger] began_list_item(p, part, a, q, r) ==> refused_inactive(r) && unchanged(p, q),
        forall|part: ShapeInfo, a: bool, q: Partial, r: Result<(), ReflectError>|
            #[trigger] began_key(p, part, a, q, r) ==> refused_inactive(r) && unchanged(p, q),
        forall|part: ShapeInfo, a: bool, q: Partial, r: Result<(), ReflectError>|
            #[trigger] began_value(p, part, a, q, r) ==> refused_inactive(r) && unchanged(p, q),
        forall|pointee: Option<ShapeInfo>, a: bool, q: Partial, r: Result<(), ReflectError>|
            #[trigger] began_smart_ptr(p, pointee, a, q, r) ==> refused_inactive(r) && unchanged(p, q),
        forall|src: Seq<char>, same: bool, sz: bool, q: Partial, r: Result<(), ReflectError>|
            #[trigger] set_shaped(p, src, same, sz, q, r) ==> refused_inactive(r) && unchanged(p, q),
        forall|q: Partial, r: Result<(), ReflectError>| #[trigger] set_by(p, f, q, r) ==> refused_inactive(r) && unchanged(p, q),
        forall|d: Option<F>, q: Partial, r: Result<(), ReflectError>|
            #[trigger] defaulted(p, d, q, r) ==> refused_inactive(r) && unchanged(p, q),
{
}

/// How many fields or elements of the frame its flags track: an array's
/// elements, a struct's fields, the selected variant's fields.
pub open spec fn part_count(f: FrameInfo) -> int {
    match f.tracker {
        Tracker::Array { .. } => match f.ty {
            TypeInfo::Array(n) => n as int,
            _ => 0,
        },
        Tracker::Struct { .. } => match f.ty {
            TypeInfo::Struct(fields) => fields@.len() as int,
            _ => 0,
        },
        Tracker::Enum { variant, .. } => variant.fields@.len() as int,
        _ => 0,
    }
}

/// Whether the frame's flags mark field or element `k` as initialized.
pub open spec fn part_initialized(f: FrameInfo, k: int) -> bool {
    match f.tracker {
        Tracker::Array { iset, .. } => iset@[k],
        Tracker::Struct { iset, .. } => iset@[k],
        Tracker::Enum { data, .. } => data@[k],
        _ => false,
    }
}

proof fn lemma_set_indices(s: Seq<bool>, n: int)
    requires
        0 <= n <= 64,
    ensures
        forall|i: int, j: int|
            0 <= i < j < set_indices(s, n).len() ==> set_indices(s, n)[i] < set_indices(s, n)[j],
        forall|i: int| 0 <= i < set_indices(s, n).len() ==> set_indices(s, n)[i] < n,
        forall|k: usize| #[trigger] set_indices(s, n).contains(k) <==> (k < n && s[k as int]),
    decreases n,
{
    if n > 0 {
        lemma_set_indices(s, n - 1);
        let a = set_indices(s, n - 1);
        let b = set_indices(s, n);
        assert forall|k: usize| #[trigger] b.contains(k) <==> (k < n && s[k as int]) by {
            if b.contains(k) {
                let i = choose|i: int| 0 <= i < b.len() && b[i] == k;
                if i < a.len() {
                    assert(a.contains(k));
                }
            }
            if k < n && s[k as int] {
                if k < n - 1 {
                    assert(a.contains(k));
                    let i = choose|i: int| 0 <= i < a.len() && a[i] == k;
                    assert(b[i] == k);
                } else {
                    assert(b[a.len() as int] == k);
                }
            }
        }
    }
}

/// When the builder is dropped, each part is dropped once: a frame's
/// cleanup drops each initialized field or element once, in increasing
/// order, and nothing else, and never also drops the frame's value as a
/// whole along with its parts; a built key that is dropped is also freed.
pub proof fn law_cleanup_drops_each_part_once(f: FrameInfo, c: Cleanup)
    requires
        cleanable(f),
        cleans(c, f),
    ensures
        forall|i: int, j: int| 0 <= i < j < c.drop_parts@.len() ==> c.drop_parts@[i] < c.drop_parts@[j],
        forall|k: usize| #[trigger] c.drop_parts@.contains(k) <==> (k < part_count(f) && part_initialized(f, k as int)),
        c.drop_value ==> c.drop_parts@.len() == 0,
        c.drop_key ==> c.free_key,
{
    match f.tracker {
        Tracker::Array { iset, .. } => match f.ty {
            TypeInfo::Array(n) => lemma_set_indices(iset@, n as int),
            _ => {},
        },
        Tracker::Struct { iset, .. } => match f.ty {
            TypeInfo::Struct(fields) => lemma_set_indices(iset@, fields@.len() as int),
            _ => {},
        },
        Tracker::Enum { variant, data, .. } => lemma_set_indices(data@, variant.fields@.len() as int),
        _ => {},
    }
}

/// Whether a frame does not count as initialized the field or element it
/// is building: that part's value is the frame above it, which drops it.
pub open spec fn claims_ok(f: FrameInfo) -> bool {
    match f.tracker {
        Tracker::Struct { iset, current_child: Some(k) } => !iset@[k as int],
        Tracker::Array { iset, current_child: Some(k) } => !iset@[k as int],
        Tracker::Enum { data, current_child: Some(k), .. } => !data@[k as int],
        _ => true,
    }
}

/// Whether a map frame holds the buffer of the key or value that the frame
/// above it builds.
pub open spec fn holds_part_buffer(f: FrameInfo) -> bool {
    &&& f.def is MapDef
    &&& (f.tracker matches Tracker::MapOf { insert_state: MapInsertState::PushingKey { key_allocated: true }, .. }
        || f.tracker matches Tracker::MapOf {
        insert_state: MapInsertState::PushingValue { value_allocated: true },
        ..
    })
}

/// Whether a part lives in a buffer kept elsewhere exactly when its parent
/// is a map that keeps the buffer of the key or value it builds.
pub open spec fn keeps_buffer(parent: FrameInfo, child: FrameInfo) -> bool {
    child.ownership == FrameOwnership::ManagedElsewhere <==> holds_part_buffer(parent)
}

/// Whether no frame counts as initialized the part it is building, and
/// each part whose buffer is kept elsewhere is kept by the frame below it.
pub open spec fn sound(p: Partial) -> bool {
    &&& forall|i: int| 0 <= i < p.frames@.len() ==> claims_ok(#[trigger] p.frames@[i])
    &&& forall|i: int| 0 <= i < p.frames@.len() - 1 ==> keeps_buffer(#[trigger] p.frames@[i], p.frames@[i + 1])
}

proof fn lemma_sound_same_below(p: Partial, q: Partial)
    ensures
        ({
            let n = p.frames@.len();
            &&& sound(p)
            &&& q.frames@.len() == n
            &&& n > 0
            &&& q.frames@.take(n - 1) == p.frames@.take(n - 1)
            &&& q.frames@[n - 1].ownership == p.frames@[n - 1].ownership
            &&& claims_ok(q.frames@[n - 1])
        }) ==> sound(q),
{
    let n = p.frames@.len();
    if sound(p) && q.frames@.len() == n && n > 0 && q.frames@.take(n - 1) == p.frames@.take(n - 1)
        && q.frames@[n - 1].ownership == p.frames@[n - 1].ownership && claims_ok(q.frames@[n - 1]) {
        assert forall|i: int| 0 <= i < q.frames@.len() implies claims_ok(#[trigger] q.frames@[i]) by {
            if i < n - 1 {
                assert(q.frames@[i] == q.frames@.take(n - 1)[i]);
                assert(claims_ok(p.frames@[i]));
            }
        }
        assert forall|i: int| 0 <= i < q.frames@.len() - 1 implies keeps_buffer(
            #[trigger] q.frames@[i],
            q.frames@[i + 1],
        ) by {
            assert(q.frames@[i] == q.frames@.take(n - 1)[i]);
            assert(keeps_buffer(p.frames@[i], p.frames@[i + 1]));
            if i + 1 < n - 1 {
                assert(q.frames@[i + 1] == q.frames@.take(n - 1)[i + 1]);
            }
        }
    }
}

proof fn lemma_sound_push(p: Partial, q: Partial)
    ensures
        ({
            let n = p.frames@.len();
            &&& sound(p)
            &&& n > 0
            &&& q.frames@.len() == n + 1
            &&& q.frames@.take(n - 1) == p.frames@.take(n - 1)
            &&& q.frames@[n - 1].ownership == p.frames@[n - 1].ownership
            &&& claims_ok(q.frames@[n - 1])
            &&& q.frames@[n as int].tracker is Uninit
            &&& keeps_buffer(q.frames@[n - 1], q.frames@[n as int])
        }) ==> sound(q),
{
    let n = p.frames@.len();
    if sound(p) && n > 0 && q.frames@.len() == n + 1 && q.frames@.take(n - 1) == p.frames@.take(n - 1)
        && q.frames@[n - 1].ownership == p.frames@[n - 1].ownership && claims_ok(q.frames@[n - 1])
        && q.frames@[n as int].tracker is Uninit && keeps_buffer(q.frames@[n - 1], q.frames@[n as int]) {
        assert forall|i: int| 0 <= i < q.frames@.len() implies claims_ok(#[trigger] q.frames@[i]) by {
            if i < n - 1 {
                assert(q.frames@[i] == q.frames@.take(n - 1)[i]);
                assert(claims_ok(p.frames@[i]));
            }
        }
        assert forall|i: int| 0 <= i < q.frames@.len() - 1 implies keeps_buffer(
            #[trigger] q.frames@[i],
            q.frames@[i + 1],
        ) by {
            if i < n - 1 {
                assert(q.frames@[i] == q.frames@.take(n - 1)[i]);
                assert(keeps_buffer(p.frames@[i], p.frames@[i + 1]));
                if i + 1 < n - 1 {
                    assert(q.frames@[i + 1] == q.frames@.take(n - 1)[i + 1]);
                }
            }
        }
    }
}

pub(crate) proof fn lemma_sound_pop(p: Partial, q: Partial)
    ensures
        ({
            let n = p.frames@.len();
            &&& sound(p)
            &&& n > 1
            &&& q.frames@.len() == n - 1
            &&& q.frames@.take(n - 2) == p.frames@.take(n - 2)
            &&& q.frames@[n - 2].ownership == p.frames@[n - 2].ownership
            &&& claims_ok(q.frames@[n - 2])
        }) ==> sound(q),
{
    let n = p.frames@.len();
    if sound(p) && n > 1 && q.frames@.len() == n - 1 && q.frames@.take(n - 2) == p.frames@.take(n - 2)
        && q.frames@[n - 2].ownership == p.frames@[n - 2].ownership && claims_ok(q.frames@[n - 2]) {
        assert forall|i: int| 0 <= i < q.frames@.len() implies claims_ok(#[trigger] q.frames@[i]) by {
            if i < n - 2 {
                assert(q.frames@[i] == q.frames@.take(n - 2)[i]);
                assert(claims_ok(p.frames@[i]));
            }
        }
        assert forall|i: int| 0 <= i < q.frames@.len() - 1 implies keeps_buffer(
            #[trigger] q.frames@[i],
            q.frames@[i + 1],
        ) by {
            assert(q.frames@[i] == q.frames@.take(n - 2)[i]);
            assert(keeps_buffer(p.frames@[i], p.frames@[i + 1]));
            if i + 1 < n - 2 {
                assert(q.frames@[i + 1] == q.frames@.take(n - 2)[i + 1]);
            }
        }
    }
}

/// A builder that was just made has no frame below its root, so it is
/// sound.
pub proof fn law_fresh_is_sound(p: Partial, shape: ShapeInfo, own: FrameOwnership)
    requires
        fresh(p, shape, own),
    ensures
        sound(p),
{
}

/// Every step keeps a sound builder sound: whatever a step does, each
/// frame below the innermost still builds the frame above it, and each of
/// those parts lives where its parent expects.
pub proof fn law_steps_keep_sound<F: FnOnce(PartStart) -> Result<(), ReflectError>>(p: Partial, f: F)
    requires
        well_formed(p),
        sound(p),
    ensures
        forall|q: Partial, r: Result<EndAction, ReflectError>| #[trigger] ended(p, q, r) ==> sound(q),
        forall|ih: bool, sz: bool, q: Partial, r: Result<FrameInfo, ReflectError>|
            #[trigger] built(p, ih, sz, q, r) ==> sound(q),
        forall|d: i64, q: Partial, r: Result<(), ReflectError>| #[trigger] selected(p, d, q, r) ==> sound(q),
        forall|name: Seq<char>, q: Partial, r: Result<(), ReflectError>|
            #[trigger] selected_named(p, name, q, r) ==> sound(q),
        forall|i: int, q: Partial, r: Result<(), ReflectError>| #[trigger] selected_nth(p, i, q, r) ==> sound(q),
        forall|i: int, part: ShapeInfo, q: Partial, r: Result<PartStart, ReflectError>|
            0 <= i && can_begin_nth_field(p, i) && #[trigger] began_nth_field(p, i, part, q, r) ==> sound(q),
        forall|i: int, part: ShapeInfo, q: Partial, r: Result<PartStart, ReflectError>|
            0 <= i && can_begin_nth_enum_field(p, i) && #[trigger] began_nth_enum_field(p, i, part, q, r) ==> sound(q),
        forall|i: int, part: ShapeInfo, q: Partial, r: Result<PartStart, ReflectError>|
            0 <= i && #[trigger] began_nth_element(p, i, part, q, r) ==> sound(q),
        forall|q: Partial, r: Result<(), ReflectError>| #[trigger] began_list(p, q, r) ==> sound(q),
        forall|q: Partial, r: Result<(), ReflectError>| #[trigger] began_map(p, q, r) ==> sound(q),
        forall|q: Partial, r: Result<(), ReflectError>| #[trigger] began_insert(p, q, r) ==> sound(q),
        forall|part: ShapeInfo, a: bool, q: Partial, r: Result<(), ReflectError>|
            #[trigger] began_list_item(p, part, a, q, r) ==> sound(q),
        forall|part: ShapeInfo, a: bool, q: Partial, r: Result<(), ReflectError>|
            #[trigger] began_key(p, part, a, q, r) ==> sound(q),
        forall|part: ShapeInfo, a: bool, q: Partial, r: Result<(), ReflectError>|
            #[trigger] began_value(p, part, a, q, r) ==> sound(q),
        forall|pointee: Option<ShapeInfo>, a: bool, q: Partial, r: Result<(), ReflectError>|
            #[trigger] began_smart_ptr(p, pointee, a, q, r) ==> sound(q),
        forall|src: Seq<char>, same: bool, sz: bool, q: Partial, r: Result<(), ReflectError>|
            #[trigger] set_shaped(p, src, same, sz, q, r) ==> sound(q),
        forall|q: Partial, r: Result<(), ReflectError>| #[trigger] set_by(p, f, q, r) ==> sound(q),
        forall|d: Option<F>, q: Partial, r: Result<(), ReflectError>| #[trigger] defaulted(p, d, q, r) ==> sound(q),
{
    let n = p.frames@.len();
    assert forall|q: Partial, r: Result<EndAction, ReflectError>| #[trigger] ended(p, q, r) implies sound(q) by {
        lemma_sound_pop(p, q);
    }
    assert forall|d: i64, q: Partial, r: Result<(), ReflectError>| #[trigger] selected(p, d, q, r) implies sound(q) by {
        lemma_sound_same_below(p, q);
    }
    assert forall|name: Seq<char>, q: Partial, r: Result<(), ReflectError>|
        #[trigger] selected_named(p, name, q, r) implies sound(q) by {
        lemma_sound_same_below(p, q);
    }
    assert forall|i: int, q: Partial, r: Result<(), ReflectError>| #[trigger] selected_nth(p, i, q, r) implies sound(q) by {
        lemma_sound_same_below(p, q);
    }
    assert forall|i: int, part: ShapeInfo, q: Partial, r: Result<PartStart, ReflectError>|
        0 <= i && can_begin_nth_field(p, i) && #[trigger] began_nth_field(p, i, part, q, r) implies sound(q) by {
        lemma_sound_same_below(p, q);
        lemma_sound_push(p, q);
        if p.state == PartialState::Active {
            if let Tracker::Struct { iset, .. } = p.frames@[n - 1].tracker {
                iset.lemma_view_len();
            }
        }
    }
    assert forall|i: int, part: ShapeInfo, q: Partial, r: Result<PartStart, ReflectError>|
        0 <= i && can_begin_nth_enum_field(p, i) && #[trigger] began_nth_enum_field(p, i, part, q, r) implies sound(q) by {
        lemma_sound_same_below(p, q);
        lemma_sound_push(p, q);
        if p.state == PartialState::Active {
            if let Tracker::Enum { data, .. } = p.frames@[n - 1].tracker {
                data.lemma_view_len();
            }
        }
    }
    assert forall|i: int, part: ShapeInfo, q: Partial, r: Result<PartStart, ReflectError>|
        0 <= i && #[trigger] began_nth_element(p, i, part, q, r) implies sound(q) by {
        lemma_sound_same_below(p, q);
        lemma_sound_push(p, q);
        if p.state == PartialState::Active {
            if let Tracker::Array { iset, .. } = p.frames@[n - 1].tracker {
                iset.lemma_view_len();
            }
        }
    }
    assert forall|q: Partial, r: Result<(), ReflectError>| #[trigger] began_list(p, q, r) implies sound(q) by {
        lemma_sound_same_below(p, q);
    }
    assert forall|q: Partial, r: Result<(), ReflectError>| #[trigger] began_map(p, q, r) implies sound(q) by {
        lemma_sound_same_below(p, q);
    }
    assert forall|q: Partial, r: Result<(), ReflectError>| #[trigger] began_insert(p, q, r) implies sound(q) by {
        lemma_sound_same_below(p, q);
    }
    assert forall|part: ShapeInfo, a: bool, q: Partial, r: Result<(), ReflectError>|
        #[trigger] began_list_item(p, part, a, q, r) implies sound(q) by {
        lemma_sound_same_below(p, q);
        lemma_sound_push(p, q);
    }
    assert forall|part: ShapeInfo, a: bool, q: Partial, r: Result<(), ReflectError>|
        #[trigger] began_key(p, part, a, q, r) implies sound(q) by {
        lemma_sound_same_below(p, q);
        lemma_sound_push(p, q);
    }
    assert forall|part: ShapeInfo, a: bool, q: Partial, r: Result<(), ReflectError>|
        #[trigger] began_value(p, part, a, q, r) implies sound(q) by {
        lemma_sound_same_below(p, q);
        lemma_sound_push(p, q);
    }
    assert forall|pointee: Option<ShapeInfo>, a: bool, q: Partial, r: Result<(), ReflectError>|
        #[trigger] began_smart_ptr(p, pointee, a, q, r) implies sound(q) by {
        lemma_sound_same_below(p, q);
        lemma_sound_push(p, q);
    }
    assert forall|src: Seq<char>, same: bool, sz: bool, q: Partial, r: Result<(), ReflectError>|
        #[trigger] set_shaped(p, src, same, sz, q, r) implies sound(q) by {
        lemma_sound_same_below(p, q);
    }
    assert forall|q: Partial, r: Result<(), ReflectError>| #[trigger] set_by(p, f, q, r) implies sound(q) by {
        lemma_sound_same_below(p, q);
    }
    assert forall|d: Option<F>, q: Partial, r: Result<(), ReflectError>| #[trigger] defaulted(p, d, q, r) implies sound(q) by {
        lemma_sound_same_below(p, q);
    }
}

/// The field or element that a frame is building, if it tracks one by
/// index.
pub open spec fn current_part(f: FrameInfo) -> Option<usize> {
    match f.tracker {
        Tracker::Struct { current_child, .. } => current_child,
        Tracker::Array { current_child, .. } => current_child,
        Tracker::Enum { current_child, .. } => current_child,
        _ => None,
    }
}

/// Dropping a sound builder before its value is built drops each part
/// once and frees each allocation once. The plan holds one cleanup per
/// frame, the innermost first. Each frame drops exactly the parts it counts
/// as initialized (see `law_cleanup_drops_each_part_once`), never the part
/// that the frame above it builds, which that frame drops. A frame frees
/// its own memory exactly when it owns it. The buffer of a map entry's key
/// or value is freed by the map's frame, not by the entry's own frame, and
/// a field or element lives in its parent's memory and is not freed on its
/// own.
pub proof fn law_cleanup_plan_drops_and_frees_once(p: Partial, plan: Seq<Cleanup>)
    requires
        sound(p),
        forall|i: int| 0 <= i < p.frames@.len() ==> cleanable(#[trigger] p.frames@[i]),
        plan.len() == p.frames@.len(),
        forall|k: int| 0 <= k < plan.len() ==> cleans(#[trigger] plan[k], p.frames@[p.frames@.len() - 1 - k]),
    ensures
        forall|i: int|
            0 <= i < p.frames@.len() ==> (#[trigger] current_part(p.frames@[i]) matches Some(c) ==> !plan[p.frames@.len()
                - 1 - i].drop_parts@.contains(c)),
        forall|i: int|
            0 <= i < p.frames@.len() ==> plan[p.frames@.len() - 1 - i].free_memory == (#[trigger] p.frames@[i].ownership
                == FrameOwnership::Owned),
        forall|i: int|
            0 < i < p.frames@.len() && #[trigger] p.frames@[i].ownership == FrameOwnership::ManagedElsewhere ==> (
            plan[p.frames@.len() - i].free_key || plan[p.frames@.len() - i].free_value),
        forall|i: int|
            0 < i < p.frames@.len() && ((plan[p.frames@.len() - i].free_key && !plan[p.frames@.len() - i].drop_key)
                || plan[p.frames@.len() - i].free_value) ==> !(#[trigger] plan[p.frames@.len() - 1 - i]).free_memory,
{
    let n = p.frames@.len();
    assert forall|i: int|
        0 <= i < n implies (#[trigger] current_part(p.frames@[i]) matches Some(c) ==> !plan[n - 1 - i].drop_parts@.contains(c)) by {
        let f = p.frames@[i];
        let c = plan[n - 1 - i];
        assert(cleans(c, f));
        assert(claims_ok(f));
        assert(cleanable(f));
        law_cleanup_drops_each_part_once(f, c);
    }
    assert forall|i: int|
        0 <= i < n implies plan[n - 1 - i].free_memory == (#[trigger] p.frames@[i].ownership == FrameOwnership::Owned) by {
        assert(cleans(plan[n - 1 - i], p.frames@[i]));
    }
    assert forall|i: int|
        0 < i < n && #[trigger] p.frames@[i].ownership == FrameOwnership::ManagedElsewhere implies (plan[n - i].free_key
            || plan[n - i].free_value) by {
        assert(keeps_buffer(p.frames@[i - 1], p.frames@[i]));
        assert(cleans(plan[n - 1 - (i - 1)], p.frames@[i - 1]));
        assert(n - 1 - (i - 1) == n - i);
    }
    assert forall|i: int|
        0 < i < n && ((plan[n - i].free_key && !plan[n - i].drop_key) || plan[n - i].free_value) implies !(
            #[trigger] plan[n - 1 - i]).free_memory by {
        assert(keeps_buffer(p.frames@[i - 1], p.frames@[i]));
        assert(cleans(plan[n - 1 - (i - 1)], p.frames@[i - 1]));
        assert(n - 1 - (i - 1) == n - i);
        assert(cleans(plan[n - 1 - i], p.frames@[i]));
    }
}

/// Once the value is built, dropping the builder cleans up nothing: the
/// root frame was handed out with the value, and no frame is left.
pub proof fn law_nothing_to_clean_after_build(
    p: Partial,
    invariants_hold: bool,
    sized: bool,
    q: Partial,
    r: Result<FrameInfo, ReflectError>,
    plan: Seq<Cleanup>,
)
    requires
        built(p, invariants_hold, sized, q, r),
        r is Ok,
        plan.len() == q.frames@.len(),
    ensures
        plan.len() == 0,
        q.state == PartialState::Built,
{
}

} // verus!
