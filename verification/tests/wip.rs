use facet_formats::build_state::{
    DefInfo, EnumRepr, FrameInfo, FrameOwnership, ISet, MapInsertState, ReflectError, ShapeInfo, Tracker, TypeInfo,
    VariantDesc, VariantInfo,
};
use facet_formats::partial::EndAction;
use facet_formats::wip::Wip;

fn names(v: &[&str]) -> Vec<String> {
    v.iter().map(|s| s.to_string()).collect()
}

fn point() -> ShapeInfo {
    ShapeInfo {
        shape: "Point".to_string(),
        ty: TypeInfo::Struct(names(&["x", "y"])),
        def: DefInfo::Other,
        sized: true,
    }
}

fn frame(shape: &str, ty: TypeInfo, def: DefInfo, tracker: Tracker, ownership: FrameOwnership) -> FrameInfo {
    FrameInfo { shape: shape.to_string(), ty, def, tracker, ownership }
}

fn scalar(tracker: Tracker) -> FrameInfo {
    frame("u32", TypeInfo::Primitive, DefInfo::Other, tracker, FrameOwnership::Field)
}

fn text(e: ReflectError) -> String {
    match e {
        ReflectError::InvariantViolation { violated } => violated,
        ReflectError::OperationFailed { operation, .. } => operation,
        other => other.message(),
    }
}

#[test]
fn the_root_frame_is_never_popped() {
    let mut w = match Wip::alloc_shape(point()) {
        Ok(w) => w,
        Err(_) => panic!("a sized shape gets a builder"),
    };
    match w.pop() {
        Err(e) => assert_eq!(text(e), "Wip::pop() called with only one frame on the stack"),
        Ok(_) => panic!("the root frame was popped"),
    }
    assert_eq!(w.frames.len(), 1);
}

#[test]
fn an_unsized_shape_gets_no_builder() {
    let shape = ShapeInfo { sized: false, ..point() };
    assert!(matches!(Wip::alloc_shape(shape), Err(ReflectError::Unsized { .. })));
}

#[test]
fn popping_a_finished_field_marks_it_in_the_struct() {
    let root = frame(
        "Point",
        TypeInfo::Struct(names(&["x", "y"])),
        DefInfo::Other,
        Tracker::Struct { iset: ISet::new(2), current_child: Some(1) },
        FrameOwnership::Owned,
    );
    let mut w = Wip { frames: vec![root, scalar(Tracker::Init)] };
    assert!(matches!(w.pop(), Ok(EndAction::Keep)));
    assert_eq!(w.frames.len(), 1);
    match &w.frames[0].tracker {
        Tracker::Struct { iset, current_child } => {
            assert!(!iset.get(0));
            assert!(iset.get(1));
            assert!(current_child.is_none());
        }
        _ => panic!("the root is still a struct"),
    }
}

#[test]
fn an_unfinished_part_is_not_popped() {
    let root = frame(
        "Point",
        TypeInfo::Struct(names(&["x", "y"])),
        DefInfo::Other,
        Tracker::Struct { iset: ISet::new(2), current_child: Some(0) },
        FrameOwnership::Owned,
    );
    let mut w = Wip { frames: vec![root, scalar(Tracker::Uninit)] };
    match w.pop() {
        Err(ReflectError::UninitializedValue { shape }) => assert_eq!(shape, "u32"),
        _ => panic!("an unfinished part was popped"),
    }
    assert_eq!(w.frames.len(), 2);
}

#[test]
fn a_missing_enum_field_is_reported_as_a_field() {
    let root = frame(
        "Outer",
        TypeInfo::Struct(names(&["shape"])),
        DefInfo::Other,
        Tracker::Struct { iset: ISet::new(1), current_child: Some(0) },
        FrameOwnership::Owned,
    );
    let mut data = ISet::new(2);
    data.set(0);
    let child = frame(
        "Shape",
        TypeInfo::Primitive,
        DefInfo::Other,
        Tracker::Enum {
            variant: VariantInfo { name: "Rect".to_string(), fields: names(&["w", "h"]) },
            data,
            current_child: None,
        },
        FrameOwnership::Field,
    );
    let mut w = Wip { frames: vec![root, child] };
    match w.pop() {
        Err(ReflectError::UninitializedField { shape, field_name }) => {
            assert_eq!(shape, "Shape");
            assert_eq!(field_name, "h");
        }
        _ => panic!("the missing field of the variant is named"),
    }
}

#[test]
fn a_list_without_push_refuses_its_element() {
    let list = frame(
        "Vec<u32>",
        TypeInfo::OtherSequence,
        DefInfo::List { can_init: true, can_push: false },
        Tracker::List { is_initialized: true, current_child: true },
        FrameOwnership::Owned,
    );
    let mut w = Wip { frames: vec![list, scalar(Tracker::Init)] };
    match w.pop() {
        Err(e) => assert_eq!(text(e), "List missing push function"),
        Ok(_) => panic!("the list took the element"),
    }
    assert_eq!(w.frames.len(), 1);
}

#[test]
fn a_map_goes_from_key_to_value_to_insertion() {
    let map = frame(
        "HashMap<u32, u32>",
        TypeInfo::Primitive,
        DefInfo::MapDef,
        Tracker::MapOf { is_initialized: true, insert_state: MapInsertState::PushingKey { key_allocated: true } },
        FrameOwnership::Owned,
    );
    let key = frame("u32", TypeInfo::Primitive, DefInfo::Other, Tracker::Init, FrameOwnership::ManagedElsewhere);
    let mut w = Wip { frames: vec![map, key] };
    assert!(matches!(w.pop(), Ok(EndAction::Keep)));
    assert!(matches!(
        w.frames[0].tracker,
        Tracker::MapOf { insert_state: MapInsertState::PushingValue { value_allocated: false }, .. }
    ));
    let FrameInfo { shape, ty, def, ownership, .. } = w.frames.pop().unwrap();
    let busy = FrameInfo {
        shape,
        ty,
        def,
        tracker: Tracker::MapOf {
            is_initialized: true,
            insert_state: MapInsertState::PushingValue { value_allocated: true },
        },
        ownership,
    };
    let value = frame("u32", TypeInfo::Primitive, DefInfo::Other, Tracker::Init, FrameOwnership::ManagedElsewhere);
    let mut w = Wip { frames: vec![busy, value] };
    assert!(matches!(w.pop(), Ok(EndAction::InsertEntry)));
    assert!(matches!(w.frames[0].tracker, Tracker::MapOf { insert_state: MapInsertState::Idle, .. }));
}

#[test]
fn build_hands_out_the_complete_root() {
    let root = frame("u32", TypeInfo::Primitive, DefInfo::Other, Tracker::Init, FrameOwnership::Owned);
    let mut w = Wip { frames: vec![root] };
    match w.build(true) {
        Ok(f) => assert_eq!(f.shape, "u32"),
        Err(_) => panic!("a complete value is built"),
    }
    assert_eq!(w.frames.len(), 0);
    assert_eq!(w.drop_plan().len(), 0);
}

#[test]
fn build_with_a_frame_open_refuses_and_keeps_the_frames() {
    let root = frame(
        "Point",
        TypeInfo::Struct(names(&["x", "y"])),
        DefInfo::Other,
        Tracker::Struct { iset: ISet::new(2), current_child: Some(0) },
        FrameOwnership::Owned,
    );
    let mut w = Wip { frames: vec![root, scalar(Tracker::Init)] };
    match w.build(true) {
        Err(e) => assert_eq!(text(e), "Wip::build() expects a single frame \u{2014} pop until that's the case"),
        Ok(_) => panic!("built with a frame open"),
    }
    assert_eq!(w.frames.len(), 2);
}

#[test]
fn build_of_an_incomplete_or_unsized_value_fails_and_leaves_nothing() {
    let root = frame(
        "Point",
        TypeInfo::Struct(names(&["x", "y"])),
        DefInfo::Other,
        Tracker::Struct { iset: ISet::new(2), current_child: None },
        FrameOwnership::Owned,
    );
    let mut w = Wip { frames: vec![root] };
    match w.build(true) {
        Err(ReflectError::UninitializedField { field_name, .. }) => assert_eq!(field_name, "x"),
        _ => panic!("an incomplete value is not built"),
    }
    assert_eq!(w.frames.len(), 0);
    let done = frame("str", TypeInfo::Primitive, DefInfo::Other, Tracker::Init, FrameOwnership::Owned);
    let mut w = Wip { frames: vec![done] };
    assert!(matches!(w.build(false), Err(ReflectError::Unsized { .. })));
    assert_eq!(w.frames.len(), 0);
}

#[test]
fn dropping_frees_owned_memory_and_drops_set_parts_innermost_first() {
    let mut iset = ISet::new(2);
    iset.set(0);
    let root = frame(
        "Point",
        TypeInfo::Struct(names(&["x", "y"])),
        DefInfo::Other,
        Tracker::Struct { iset, current_child: Some(1) },
        FrameOwnership::Owned,
    );
    let w = Wip { frames: vec![root, scalar(Tracker::Init)] };
    let plan = w.drop_plan();
    assert_eq!(plan.len(), 2);
    assert!(plan[0].drop_value);
    assert!(!plan[0].free_memory);
    assert!(!plan[1].drop_value);
    assert_eq!(plan[1].drop_parts, vec![0usize]);
    assert!(plan[1].free_memory);
}

#[test]
fn a_builder_on_borrowed_memory_does_not_free_it() {
    let w = Wip::from_ptr(point());
    let plan = w.drop_plan();
    assert_eq!(plan.len(), 1);
    assert!(!plan[0].free_memory);
    assert!(plan[0].drop_parts.is_empty());
}

#[test]
fn a_variant_is_chosen_by_its_discriminant() {
    let variants = vec![
        VariantDesc { name: "Circle".to_string(), discriminant: Some(0), fields: names(&["r"]) },
        VariantDesc { name: "Rect".to_string(), discriminant: Some(1), fields: names(&["w", "h"]) },
    ];
    let shape = ShapeInfo {
        shape: "Shape".to_string(),
        ty: TypeInfo::Enum { variants, repr: EnumRepr::U8 },
        def: DefInfo::Other,
        sized: true,
    };
    let mut w = match Wip::alloc_shape(shape) {
        Ok(w) => w,
        Err(_) => panic!("a sized shape gets a builder"),
    };
    assert!(w.push_variant(1).is_ok());
    match &w.frames[0].tracker {
        Tracker::Enum { variant, .. } => assert_eq!(variant.name, "Rect"),
        _ => panic!("the variant is chosen"),
    }
    assert!(w.push_variant(7).is_err());
}

#[test]
fn a_list_takes_its_elements_one_by_one() {
    let shape = ShapeInfo {
        shape: "Vec<u32>".to_string(),
        ty: TypeInfo::OtherSequence,
        def: DefInfo::List { can_init: true, can_push: true },
        sized: true,
    };
    let mut w = match Wip::alloc_shape(shape) {
        Ok(w) => w,
        Err(_) => panic!("a sized shape gets a builder"),
    };
    assert!(w.begin_pushback().is_ok());
    let element = ShapeInfo { shape: "u32".to_string(), ty: TypeInfo::Primitive, def: DefInfo::Other, sized: true };
    assert!(w.push(element, true).is_ok());
    assert_eq!(w.frames.len(), 2);
    assert!(w.set_from_function(|_| Ok(())).is_ok());
    assert!(matches!(w.pop(), Ok(EndAction::PushElement)));
    assert_eq!(w.frames.len(), 1);
    match w.build(true) {
        Ok(f) => assert_eq!(f.shape, "Vec<u32>"),
        Err(_) => panic!("the list is built"),
    }
}

#[test]
fn a_key_frame_owns_its_memory_and_the_map_holds_it_too() {
    let shape = ShapeInfo {
        shape: "HashMap<u32, u32>".to_string(),
        ty: TypeInfo::Primitive,
        def: DefInfo::MapDef,
        sized: true,
    };
    let mut w = match Wip::alloc_shape(shape) {
        Ok(w) => w,
        Err(_) => panic!("a sized shape gets a builder"),
    };
    assert!(w.begin_map().is_ok());
    assert!(w.begin_insert().is_ok());
    let key = ShapeInfo { shape: "u32".to_string(), ty: TypeInfo::Primitive, def: DefInfo::Other, sized: true };
    assert!(w.push_key(key, true).is_ok());
    assert_eq!(w.frames.len(), 2);
    assert!(matches!(w.frames[1].ownership, FrameOwnership::Owned));
    let plan = w.drop_plan();
    assert!(plan[0].free_memory);
    assert!(plan[1].free_key);
}

#[test]
fn a_union_field_is_refused_with_its_message() {
    let shape = ShapeInfo { shape: "U".to_string(), ty: TypeInfo::Union, def: DefInfo::Other, sized: true };
    let mut w = Wip::from_ptr(shape);
    let part = ShapeInfo { shape: "u32".to_string(), ty: TypeInfo::Primitive, def: DefInfo::Other, sized: true };
    match w.push_nth_field(0, part) {
        Err(e) => assert_eq!(text(e), "unions are not supported yet"),
        Ok(_) => panic!("a union field was opened"),
    }
    assert_eq!(w.frames.len(), 1);
}

#[test]
fn only_a_smart_pointer_opens_a_pointee() {
    let mut w = Wip::from_ptr(point());
    match w.push_box(None, true) {
        Err(e) => assert_eq!(text(e), "push_box can only be called on Box types"),
        Ok(_) => panic!("a pointee was opened in a struct"),
    }
}

#[test]
fn a_struct_field_is_opened_by_name() {
    let mut w = Wip::from_ptr(point());
    let part = ShapeInfo { shape: "u32".to_string(), ty: TypeInfo::Primitive, def: DefInfo::Other, sized: true };
    assert!(w.push_field("y", part).is_ok());
    assert_eq!(w.frames.len(), 2);
    match &w.frames[0].tracker {
        Tracker::Struct { current_child, .. } => assert_eq!(*current_child, Some(1)),
        _ => panic!("the struct tracks its fields"),
    }
}
