//! A builder that makes a value part by part and has no state beyond its
//! stack of frames: it is used until its value is built, and whatever
//! frames it still holds when it is dropped are cleaned up. Its frames are
//! those of `Partial`, and the work on memory that goes with closing a
//! frame is named by the result, as there.
use vstd::prelude::*;
use crate::build_state::{
    FrameInfo, FrameOwnership, ReflectError, ShapeInfo, Incomplete, TypeInfo, DefInfo, checkable, initialization, reports,
    require_full_initialization, copy,
};
use crate::partial::{
    Partial, PartialState, EndAction, Cleanup, PartStart, ended, can_end, sound, cleanable, cleans, current_part,
    build_frames_text, take_child, frame_of, cleanup_of, lemma_sound_pop, law_cleanup_plan_drops_and_frees_once,
    can_select, selected, can_begin_nth_enum_field, began_nth_enum_field, began_nth_element, began_list, began_map,
    began_insert, began_list_item, set_shaped, set_by, began_key, began_value, can_begin_nth_field,
    began_nth_field, can_begin_field, began_field, failed_with, began_smart_ptr,
};

verus! {

/// A value being built part by part.
pub struct Wip {
    /// The frames, the root first and the part being built last
    pub frames: Vec<FrameInfo>,
}

/// The builder's frames, seen as those of a `Partial` that is still in
/// use.
pub open spec fn as_partial(w: Wip) -> Partial {
    Partial { frames: w.frames, state: PartialState::Active }
}

/// The message of the error for popping the root frame.
pub open spec fn pop_root_text() -> Seq<char> {
    "Wip::pop() called with only one frame on the stack"@
}

/// Whether the error is the one this builder's initialization check
/// reports for the frame: as `reports` says, except that a missing field
/// of an enum's variant is reported as a missing field of the enum.
pub open spec fn wip_reports(e: ReflectError, frame: FrameInfo, what: Incomplete) -> bool {
    match what {
        Incomplete::EnumField(name, _) => e matches ReflectError::UninitializedField { shape, field_name }
            && shape@ == frame.shape@ && field_name@ == name,
        _ => reports(e, frame, what),
    }
}

/// Whether popping the innermost frame of `w` stays within what the
/// flags of its parent can track.
pub open spec fn can_pop(w: Wip) -> bool {
    can_end(as_partial(w))
}

/// What popping the innermost frame does: a builder with the root frame
/// alone refuses, and so does one whose innermost part is not complete
/// (with the error that the check reports), both unchanged; otherwise the
/// frame is closed and its parent takes the finished part, or refuses when
/// it lacks the operation, as closing a frame of a `Partial` does.
pub open spec fn popped(w: Wip, w2: Wip, r: Result<EndAction, ReflectError>) -> bool {
    let n = w.frames@.len();
    if n <= 1 {
        &&& r matches Err(ReflectError::InvariantViolation { violated }) && violated@ == pop_root_text()
        &&& w2.frames@ == w.frames@
    } else if let Some(what) = initialization(w.frames@[n - 1]) {
        &&& r matches Err(e) && wip_reports(e, w.frames@[n - 1], what)
        &&& w2.frames@ == w.frames@
    } else {
        ended(as_partial(w), as_partial(w2), r)
    }
}

/// What building the value does, where `sized` is whether the type is
/// sized: with other than one frame the builder refuses, its frames kept;
/// otherwise the root frame is taken out first, so that nothing is left
/// in the builder whatever follows, and it is handed out when the value is
/// complete and its type sized.
pub open spec fn wip_built(w: Wip, sized: bool, w2: Wip, r: Result<FrameInfo, ReflectError>) -> bool {
    let n = w.frames@.len();
    if n != 1 {
        &&& r matches Err(ReflectError::InvariantViolation { violated }) && violated@ == build_frames_text()
        &&& w2.frames@ == w.frames@
    } else {
        &&& w2.frames@.len() == 0
        &&& match initialization(w.frames@[0]) {
            Some(what) => r matches Err(e) && wip_reports(e, w.frames@[0], what),
            None => if sized {
                r == Ok::<FrameInfo, ReflectError>(w.frames@[0])
            } else {
                r matches Err(ReflectError::Unsized { shape }) && shape@ == w.frames@[0].shape@
            },
        }
    }
}

/// Whether `w` was just made for a value of type `shape`, in memory owned
/// as `own` says, nothing of it initialized.
pub open spec fn fresh_wip(w: Wip, shape: ShapeInfo, own: FrameOwnership) -> bool {
    &&& w.frames@.len() == 1
    &&& w.frames@[0].shape == shape.shape && w.frames@[0].ty == shape.ty && w.frames@[0].def == shape.def
    &&& w.frames@[0].tracker is Uninit
    &&& w.frames@[0].ownership == own
}

/// An error unless the frame's value is complete; the error names what is
/// missing.
fn check_complete(frame: &FrameInfo) -> (r: Result<(), ReflectError>)
    requires
        checkable(*frame),
    ensures
        match initialization(*frame) {
            None => r is Ok,
            Some(what) => r matches Err(e) && wip_reports(e, *frame, what),
        },
{
    match require_full_initialization(frame) {
        Ok(()) => Ok(()),
        Err(ReflectError::UninitializedEnumField { shape, field_name, variant_name: _ }) => Err(
            ReflectError::UninitializedField { shape, field_name },
        ),
        Err(e) => Err(e),
    }
}

impl Wip {
    /// A builder for a value of type `shape`, nothing of it initialized;
    /// an unsized type has no memory to build in.
    pub fn alloc_shape(shape: ShapeInfo) -> (r: Result<Wip, ReflectError>)
        ensures
            shape.sized ==> (r matches Ok(w) && fresh_wip(w, shape, FrameOwnership::Owned)),
            !shape.sized ==> (r matches Err(ReflectError::Unsized { shape: s }) && s == shape.shape),
    {
        if !shape.sized {
            return Err(ReflectError::Unsized { shape: shape.shape });
        }
        let mut frames: Vec<FrameInfo> = Vec::new();
        frames.push(frame_of(shape, FrameOwnership::Owned));
        Ok(Wip { frames })
    }

    /// A builder for a value of type `shape` in memory that the caller
    /// already holds, nothing of it initialized.
    pub fn from_ptr(shape: ShapeInfo) -> (r: Wip)
        ensures
            fresh_wip(r, shape, FrameOwnership::Field),
    {
        let mut frames: Vec<FrameInfo> = Vec::new();
        frames.push(frame_of(shape, FrameOwnership::Field));
        Wip { frames }
    }

    /// Pops the innermost frame, once its part is complete, and lets the
    /// parent take the part: `Ok` names what must be done with the part's
    /// memory. The root frame is never popped.
    pub fn pop(&mut self) -> (r: Result<EndAction, ReflectError>)
        requires
            can_pop(*old(self)),
        ensures
            popped(*old(self), *final(self), r),
    {
        let n = self.frames.len();
        if n <= 1 {
            return Err(ReflectError::InvariantViolation {
                violated: String::from_str("Wip::pop() called with only one frame on the stack"),
            });
        }
        match check_complete(&self.frames[n - 1]) {
            Err(e) => return Err(e),
            Ok(()) => {},
        }
        let ghost before = self.frames@;
        let _child = self.frames.pop();
        let parent = self.frames.pop();
        match parent {
            Some(parent) => {
                let FrameInfo { shape, ty, def, tracker, ownership } = parent;
                let (tracker, result) = take_child(tracker, &def, &shape);
                self.frames.push(FrameInfo { shape, ty, def, tracker, ownership });
                assert(self.frames@.take(n - 2) =~= before.take(n - 2));
                result
            },
            None => Err(ReflectError::Unknown),
        }
    }

    /// Builds the value: hands out the root frame once the value is
    /// complete, `sized` being whether its type is sized. The builder is
    /// used up: what is left in it is what dropping it cleans up.
    pub fn build(&mut self, sized: bool) -> (r: Result<FrameInfo, ReflectError>)
        requires
            old(self).frames@.len() == 1 ==> checkable(old(self).frames@[0]),
        ensures
            wip_built(*old(self), sized, *final(self), r),
    {
        if self.frames.len() != 1 {
            return Err(ReflectError::InvariantViolation {
                violated: String::from_str("Wip::build() expects a single frame \u{2014} pop until that's the case"),
            });
        }
        let frame = match self.frames.pop() {
            Some(f) => f,
            None => return Err(ReflectError::Unknown),
        };
        match check_complete(&frame) {
            Err(e) => return Err(e),
            Ok(()) => {},
        }
        if !sized {
            return Err(ReflectError::Unsized { shape: copy(&frame.shape) });
        }
        Ok(frame)
    }

    /// What dropping the builder cleans up: one entry per frame it still
    /// holds, the innermost first.
    pub fn drop_plan(&self) -> (r: Vec<Cleanup>)
        requires
            forall|i: int| 0 <= i < self.frames@.len() ==> cleanable(#[trigger] self.frames@[i]),
        ensures
            r@.len() == self.frames@.len(),
            forall|i: int| 0 <= i < r@.len() ==> cleans(#[trigger] r@[i], self.frames@[self.frames@.len() - 1 - i]),
    {
        let mut out: Vec<Cleanup> = Vec::new();
        let n = self.frames.len();
        let mut k: usize = n;
        while k > 0
            invariant
                k <= n == self.frames@.len(),
                forall|i: int| 0 <= i < n ==> cleanable(#[trigger] self.frames@[i]),
                out@.len() == n - k,
                forall|i: int| 0 <= i < out@.len() ==> cleans(#[trigger] out@[i], self.frames@[n - 1 - i]),
            decreases k,
        {
            k -= 1;
            out.push(cleanup_of(&self.frames[k]));
        }
        out
    }
}

impl Wip {
    /// The frames, lent to a `Partial` in use for one step; the builder
    /// holds none meanwhile.
    fn lend(&mut self) -> (p: Partial)
        ensures
            p.frames@ == old(self).frames@,
            p.state == PartialState::Active,
    {
        let mut frames: Vec<FrameInfo> = Vec::new();
        std::mem::swap(&mut frames, &mut self.frames);
        Partial { frames, state: PartialState::Active }
    }

    /// Chooses the variant with the given discriminant for the enum being
    /// built, as `Partial::select_variant` does.
    pub fn push_variant(&mut self, discriminant: i64) -> (r: Result<(), ReflectError>)
        requires
            old(self).frames@.len() > 0,
            can_select(as_partial(*old(self)), discriminant),
        ensures
            selected(as_partial(*old(self)), discriminant, as_partial(*final(self)), r),
    {
        let mut p = self.lend();
        let r = p.select_variant(discriminant);
        self.frames = p.frames;
        r
    }

    /// Opens a frame for the field at `idx` of the chosen variant, as
    /// `Partial::begin_nth_enum_field` does.
    pub fn push_nth_enum_field(&mut self, idx: usize, part: ShapeInfo) -> (r: Result<PartStart, ReflectError>)
        requires
            old(self).frames@.len() > 0,
            can_begin_nth_enum_field(as_partial(*old(self)), idx as int),
        ensures
            began_nth_enum_field(as_partial(*old(self)), idx as int, part, as_partial(*final(self)), r),
    {
        let mut p = self.lend();
        let r = p.begin_nth_enum_field(idx, part);
        self.frames = p.frames;
        r
    }

    /// Opens a frame for the element at `idx` of the array being built, as
    /// `Partial::begin_nth_element` does.
    pub fn push_nth_element(&mut self, idx: usize, part: ShapeInfo) -> (r: Result<PartStart, ReflectError>)
        requires
            old(self).frames@.len() > 0,
        ensures
            began_nth_element(as_partial(*old(self)), idx as int, part, as_partial(*final(self)), r),
    {
        let mut p = self.lend();
        let r = p.begin_nth_element(idx, part);
        self.frames = p.frames;
        r
    }

    /// Makes the list being built, empty, as `Partial::begin_list` does.
    pub fn begin_pushback(&mut self) -> (r: Result<(), ReflectError>)
        requires
            old(self).frames@.len() > 0,
        ensures
            began_list(as_partial(*old(self)), as_partial(*final(self)), r),
    {
        let mut p = self.lend();
        let r = p.begin_list();
        self.frames = p.frames;
        r
    }

    /// Makes the map being built, empty, as `Partial::begin_map` does.
    pub fn begin_map(&mut self) -> (r: Result<(), ReflectError>)
        requires
            old(self).frames@.len() > 0,
        ensures
            began_map(as_partial(*old(self)), as_partial(*final(self)), r),
    {
        let mut p = self.lend();
        let r = p.begin_map();
        self.frames = p.frames;
        r
    }

    /// Starts inserting an entry into the map being built, as
    /// `Partial::begin_insert` does.
    pub fn begin_insert(&mut self) -> (r: Result<(), ReflectError>)
        requires
            old(self).frames@.len() > 0,
        ensures
            began_insert(as_partial(*old(self)), as_partial(*final(self)), r),
    {
        let mut p = self.lend();
        let r = p.begin_insert();
        self.frames = p.frames;
        r
    }

    /// Opens a frame for the next element of the list being built, in
    /// memory of its own (`allocated` is whether that memory could be
    /// had), as `Partial::begin_list_item` does.
    pub fn push(&mut self, part: ShapeInfo, allocated: bool) -> (r: Result<(), ReflectError>)
        requires
            old(self).frames@.len() > 0,
        ensures
            began_list_item(as_partial(*old(self)), part, allocated, as_partial(*final(self)), r),
    {
        let mut p = self.lend();
        let r = p.begin_list_item(part, allocated);
        self.frames = p.frames;
        r
    }

    /// Marks the part as written by a copied value of type `src_shape`, as
    /// `Partial::set_shape` does.
    pub fn set_shape(&mut self, src_shape: &String, same_type: bool, sized: bool) -> (r: Result<(), ReflectError>)
        requires
            old(self).frames@.len() > 0,
        ensures
            set_shaped(as_partial(*old(self)), src_shape@, same_type, sized, as_partial(*final(self)), r),
    {
        let mut p = self.lend();
        let r = p.set_shape(src_shape, same_type, sized);
        self.frames = p.frames;
        r
    }

    /// Writes the part with `f`, as `Partial::set_from_function` does.
    pub fn set_from_function<F: FnOnce(PartStart) -> Result<(), ReflectError>>(&mut self, f: F) -> (r: Result<(), ReflectError>)
        requires
            old(self).frames@.len() > 0,
            f.requires((PartStart::Fresh,)),
            f.requires((PartStart::DropOld,)),
        ensures
            set_by(as_partial(*old(self)), f, as_partial(*final(self)), r),
    {
        let mut p = self.lend();
        let r = p.set_from_function(f);
        self.frames = p.frames;
        r
    }
}

/// Whether `frames` are the frames of `q`, except that when `r` is `Ok`
/// the innermost frame owns its memory.
pub open spec fn innermost_owned(q: Partial, frames: Seq<FrameInfo>, r: Result<(), ReflectError>) -> bool {
    let n = q.frames@.len();
    if r is Ok && n > 0 {
        &&& frames.len() == n
        &&& frames.take(n - 1) == q.frames@.take(n - 1)
        &&& frames[n - 1].shape == q.frames@[n - 1].shape && frames[n - 1].ty == q.frames@[n - 1].ty
        &&& frames[n - 1].def == q.frames@[n - 1].def && frames[n - 1].tracker == q.frames@[n - 1].tracker
        &&& frames[n - 1].ownership == FrameOwnership::Owned
    } else {
        frames == q.frames@
    }
}

impl Wip {
    /// The frames after a step of the lent `Partial`, the innermost one
    /// owning its memory when the step succeeded.
    fn take_back_owned(&mut self, p: Partial, r: &Result<(), ReflectError>)
        ensures
            innermost_owned(p, final(self).frames@, *r),
    {
        let mut frames = p.frames;
        let ok = match r {
            Ok(()) => true,
            Err(_) => false,
        };
        if ok && frames.len() > 0 {
            let ghost before = frames@;
            let n = frames.len();
            match frames.pop() {
                Some(top) => {
                    let FrameInfo { shape, ty, def, tracker, ownership: _ } = top;
                    frames.push(FrameInfo { shape, ty, def, tracker, ownership: FrameOwnership::Owned });
                    assert(frames@.take(n - 1) =~= before.take(n - 1));
                },
                None => {},
            }
        }
        self.frames = frames;
    }

    /// Opens a frame for the key of the entry being inserted, as
    /// `Partial::begin_key` does, except that the key's frame owns its
    /// memory, which the map's frame holds too.
    pub fn push_key(&mut self, part: ShapeInfo, allocated: bool) -> (r: Result<(), ReflectError>)
        requires
            old(self).frames@.len() > 0,
        ensures
            exists|q: Partial| #[trigger] began_key(as_partial(*old(self)), part, allocated, q, r)
                && innermost_owned(q, final(self).frames@, r),
    {
        let mut p = self.lend();
        let r = p.begin_key(part, allocated);
        let ghost q = p;
        self.take_back_owned(p, &r);
        assert(began_key(as_partial(*old(self)), part, allocated, q, r));
        r
    }

    /// Opens a frame for the value of the entry being inserted, as
    /// `Partial::begin_value` does, except that the value's frame owns its
    /// memory, which the map's frame holds too.
    pub fn push_value(&mut self, part: ShapeInfo, allocated: bool) -> (r: Result<(), ReflectError>)
        requires
            old(self).frames@.len() > 0,
        ensures
            exists|q: Partial| #[trigger] began_value(as_partial(*old(self)), part, allocated, q, r)
                && innermost_owned(q, final(self).frames@, r),
    {
        let mut p = self.lend();
        let r = p.begin_value(part, allocated);
        let ghost q = p;
        self.take_back_owned(p, &r);
        assert(began_value(as_partial(*old(self)), part, allocated, q, r));
        r
    }
}

/// The message of the error for a field of a union.
pub open spec fn union_text() -> Seq<char> {
    "unions are not supported yet"@
}

/// Whether the innermost frame builds a union.
pub open spec fn builds_union(w: Wip) -> bool {
    w.frames@[w.frames@.len() - 1].ty is Union
}

impl Wip {
    /// Whether the innermost frame builds a union; an error for it if so.
    fn refuse_union(&self) -> (r: Option<ReflectError>)
        requires
            self.frames@.len() > 0,
        ensures
            builds_union(*self) <==> r is Some,
            r matches Some(e) ==> (e matches ReflectError::OperationFailed { shape, operation }
                && shape@ == self.frames@[self.frames@.len() - 1].shape@ && operation@ == union_text()),
    {
        let n = self.frames.len();
        match &self.frames[n - 1].ty {
            TypeInfo::Union => Some(ReflectError::OperationFailed {
                shape: copy(&self.frames[n - 1].shape),
                operation: String::from_str("unions are not supported yet"),
            }),
            _ => None,
        }
    }

    /// Opens a frame for the field at `idx` of the struct being built, as
    /// `Partial::begin_nth_field` does, except that a union is refused
    /// with its own message.
    pub fn push_nth_field(&mut self, idx: usize, part: ShapeInfo) -> (r: Result<PartStart, ReflectError>)
        requires
            old(self).frames@.len() > 0,
            !(old(self).frames@[old(self).frames@.len() - 1].ty is Opaque),
            can_begin_nth_field(as_partial(*old(self)), idx as int),
        ensures
            if builds_union(*old(self)) {
                failed_with(r, old(self).frames@[old(self).frames@.len() - 1].shape, union_text())
                    && final(self).frames@ == old(self).frames@
            } else {
                began_nth_field(as_partial(*old(self)), idx as int, part, as_partial(*final(self)), r)
            },
    {
        match self.refuse_union() {
            Some(e) => return Err(e),
            None => {},
        }
        let mut p = self.lend();
        let r = p.begin_nth_field(idx, part);
        self.frames = p.frames;
        r
    }

    /// Opens a frame for the field named `field_name` of the struct, or of
    /// the chosen variant of the enum, being built, as
    /// `Partial::begin_field` does, except that a union is refused with
    /// its own message.
    pub fn push_field(&mut self, field_name: &str, part: ShapeInfo) -> (r: Result<PartStart, ReflectError>)
        requires
            old(self).frames@.len() > 0,
            !(old(self).frames@[old(self).frames@.len() - 1].ty is Opaque),
            can_begin_field(as_partial(*old(self)), field_name@),
        ensures
            if builds_union(*old(self)) {
                failed_with(r, old(self).frames@[old(self).frames@.len() - 1].shape, union_text())
                    && final(self).frames@ == old(self).frames@
            } else {
                began_field(as_partial(*old(self)), field_name@, part, as_partial(*final(self)), r)
            },
    {
        match self.refuse_union() {
            Some(e) => return Err(e),
            None => {},
        }
        let mut p = self.lend();
        let r = p.begin_field(field_name, part);
        self.frames = p.frames;
        r
    }
}

/// The message of the error for opening a pointee of what is no smart
/// pointer.
pub open spec fn not_box_text() -> Seq<char> {
    "push_box can only be called on Box types"@
}

impl Wip {
    /// Opens a frame for the pointee of the smart pointer being built, as
    /// `Partial::begin_smart_ptr` does (`pointee` is the pointee's type if
    /// the pointer has one, `allocated` whether memory for it could be
    /// had), except that what is no smart pointer is refused with its own
    /// message.
    pub fn push_smart_ptr(&mut self, pointee: Option<ShapeInfo>, allocated: bool) -> (r: Result<(), ReflectError>)
        requires
            old(self).frames@.len() > 0,
        ensures
            if old(self).frames@[old(self).frames@.len() - 1].def is SmartPointer {
                began_smart_ptr(as_partial(*old(self)), pointee, allocated, as_partial(*final(self)), r)
            } else {
                failed_with(r, old(self).frames@[old(self).frames@.len() - 1].shape, not_box_text())
                    && final(self).frames@ == old(self).frames@
            },
    {
        let n = self.frames.len();
        let is_pointer = match &self.frames[n - 1].def {
            DefInfo::SmartPointer { .. } => true,
            _ => false,
        };
        if !is_pointer {
            return Err(ReflectError::OperationFailed {
                shape: copy(&self.frames[n - 1].shape),
                operation: String::from_str("push_box can only be called on Box types"),
            });
        }
        let mut p = self.lend();
        let r = p.begin_smart_ptr(pointee, allocated);
        self.frames = p.frames;
        r
    }

    /// `push_smart_ptr`, under the name used for a `Box`.
    pub fn push_box(&mut self, pointee: Option<ShapeInfo>, allocated: bool) -> (r: Result<(), ReflectError>)
        requires
            old(self).frames@.len() > 0,
        ensures
            if old(self).frames@[old(self).frames@.len() - 1].def is SmartPointer {
                began_smart_ptr(as_partial(*old(self)), pointee, allocated, as_partial(*final(self)), r)
            } else {
                failed_with(r, old(self).frames@[old(self).frames@.len() - 1].shape, not_box_text())
                    && final(self).frames@ == old(self).frames@
            },
    {
        self.push_smart_ptr(pointee, allocated)
    }
}

/// A builder that was just made is sound: it has no frame below its root.
pub proof fn law_fresh_wip_is_sound(w: Wip, shape: ShapeInfo, own: FrameOwnership)
    requires
        fresh_wip(w, shape, own),
    ensures
        sound(as_partial(w)),
{
}

/// Popping keeps a sound builder sound: whether it refuses or closes the
/// frame, no frame counts as initialized the part that the frame above it
/// builds, and each part whose buffer a map keeps is still kept by it.
pub proof fn law_pop_keeps_sound(w: Wip, w2: Wip, r: Result<EndAction, ReflectError>)
    requires
        sound(as_partial(w)),
        popped(w, w2, r),
    ensures
        sound(as_partial(w2)),
{
    let n = w.frames@.len();
    if n > 1 && initialization(w.frames@[n - 1]) is None {
        lemma_sound_pop(as_partial(w), as_partial(w2));
    } else {
        assert(as_partial(w2).frames@ == as_partial(w).frames@);
    }
}

/// Dropping a sound builder drops each part once and frees each
/// allocation once: each frame drops exactly the parts it counts as
/// initialized, never the one that the frame above it builds; a frame
/// frees its own memory exactly when it owns it; and the buffer of a map
/// entry's key or value is freed by the map's frame, not by the entry's
/// own frame.
pub proof fn law_drop_plan_drops_and_frees_once(w: Wip, plan: Seq<Cleanup>)
    requires
        sound(as_partial(w)),
        forall|i: int| 0 <= i < w.frames@.len() ==> cleanable(#[trigger] w.frames@[i]),
        plan.len() == w.frames@.len(),
        forall|k: int| 0 <= k < plan.len() ==> cleans(#[trigger] plan[k], w.frames@[w.frames@.len() - 1 - k]),
    ensures
        forall|i: int|
            0 <= i < w.frames@.len() ==> (#[trigger] current_part(w.frames@[i]) matches Some(c) ==> !plan[w.frames@.len()
                - 1 - i].drop_parts@.contains(c)),
        forall|i: int|
            0 <= i < w.frames@.len() ==> plan[w.frames@.len() - 1 - i].free_memory == (#[trigger] w.frames@[i].ownership
                == FrameOwnership::Owned),
        forall|i: int|
            0 < i < w.frames@.len() && #[trigger] w.frames@[i].ownership == FrameOwnership::ManagedElsewhere ==> (
            plan[w.frames@.len() - i].free_key || plan[w.frames@.len() - i].free_value),
        forall|i: int|
            0 < i < w.frames@.len() && ((plan[w.frames@.len() - i].free_key && !plan[w.frames@.len() - i].drop_key)
                || plan[w.frames@.len() - i].free_value) ==> !(#[trigger] plan[w.frames@.len() - 1 - i]).free_memory,
{
    law_cleanup_plan_drops_and_frees_once(as_partial(w), plan);
}

} // verus!
