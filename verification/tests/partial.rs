use facet_formats::build_state::{
    DefInfo, EnumRepr, ISet, MapInsertState, ReflectError, ShapeInfo, Tracker, TypeInfo,
    VariantDesc,
};
use facet_formats::partial::{EndAction, Partial, PartialState, PartStart};

fn names(v: &[&str]) -> Vec<String> {
    v.iter().map(|s| s.to_string()).collect()
}

fn shape(text: &str, ty: TypeInfo, def: DefInfo) -> ShapeInfo {
    ShapeInfo { shape: text.to_string(), ty, def, sized: true }
}

fn scalar(text: &str) -> ShapeInfo {
    shape(text, TypeInfo::Primitive, DefInfo::Other)
}

fn point() -> ShapeInfo {
    shape("Point", TypeInfo::Struct(names(&["x", "y"])), DefInfo::Other)
}

fn shape_enum(repr: EnumRepr) -> ShapeInfo {
    let variants = vec![
        VariantDesc { name: "Circle".to_string(), discriminant: Some(0), fields: names(&["r"]) },
        VariantDesc { name: "Rect".to_string(), discriminant: Some(1), fields: names(&["w", "h"]) },
        VariantDesc { name: "Empty".to_string(), discriminant: Some(2), fields: vec![] },
        VariantDesc { name: "Odd".to_string(), discriminant: None, fields: vec![] },
    ];
    shape("Shape", TypeInfo::Enum { variants, repr }, DefInfo::Other)
}

fn fresh(s: ShapeInfo) -> Partial {
    match Partial::alloc_shape(s) {
        Ok(p) => p,
        Err(_) => panic!("a sized shape gets a builder"),
    }
}

/// The value of the innermost frame is written.
fn write_top(p: &mut Partial) {
    assert!(p.set_from_function(|_| Ok(())).is_ok());
}

fn operation(e: ReflectError) -> String {
    match e {
        ReflectError::OperationFailed { operation, .. } => operation,
        ReflectError::InvariantViolation { violated } => violated,
        other => other.message(),
    }
}

#[test]
fn a_struct_is_built_field_by_field() {
    let mut p = fresh(point());
    assert!(matches!(p.begin_field("x", scalar("u32")), Ok(PartStart::Fresh)));
    assert_eq!(p.frames.len(), 2);
    write_top(&mut p);
    assert!(matches!(p.end(), Ok(EndAction::Keep)));
    assert_eq!(p.frames.len(), 1);
    // the struct is not complete yet: `y` is missing
    let mut q = fresh(point());
    q.frames[0].tracker = match &p.frames[0].tracker {
        Tracker::Struct { iset, current_child } => {
            assert!(iset.get(0) && !iset.get(1));
            assert!(current_child.is_none());
            Tracker::Struct { iset: *iset, current_child: None }
        }
        _ => panic!("the struct tracks its fields"),
    };
    match q.build(true, true) {
        Err(ReflectError::UninitializedField { shape, field_name }) => {
            assert_eq!(shape, "Point");
            assert_eq!(field_name, "y");
        }
        _ => panic!("the missing field is reported"),
    }
    assert!(q.state == PartialState::BuildFailed);
    assert!(matches!(p.begin_nth_field(1, scalar("u32")), Ok(PartStart::Fresh)));
    write_top(&mut p);
    assert!(matches!(p.end(), Ok(EndAction::Keep)));
    let root = p.build(true, true).ok().unwrap();
    assert_eq!(root.shape, "Point");
    assert!(p.state == PartialState::Built);
    assert!(p.frames.is_empty());
    assert_eq!(operation(p.begin_field("x", scalar("u32")).err().unwrap()),
        "Cannot use Partial after it has been built or poisoned");
}

#[test]
fn a_field_built_again_drops_its_old_value() {
    let mut p = fresh(point());
    p.begin_nth_field(0, scalar("u32")).ok().unwrap();
    write_top(&mut p);
    p.end().ok().unwrap();
    assert!(matches!(p.begin_nth_field(0, scalar("u32")), Ok(PartStart::DropOld)));
    match &p.frames[0].tracker {
        Tracker::Struct { iset, current_child } => {
            assert!(!iset.get(0));
            assert_eq!(*current_child, Some(0));
        }
        _ => panic!("the struct tracks its fields"),
    }
}

#[test]
fn field_errors() {
    let mut p = fresh(point());
    assert_eq!(operation(p.begin_field("z", scalar("u32")).err().unwrap()), "field not found");
    assert_eq!(operation(p.begin_nth_field(2, scalar("u32")).err().unwrap()), "field index out of bounds");
    let mut n = fresh(scalar("u32"));
    assert_eq!(
        operation(n.begin_field("x", scalar("u32")).err().unwrap()),
        "cannot select a field from a primitive type"
    );
    assert_eq!(
        operation(n.begin_nth_field(0, scalar("u32")).err().unwrap()),
        "cannot select a field from this type"
    );
    let mut o = fresh(shape("Blob", TypeInfo::Opaque, DefInfo::Other));
    assert_eq!(
        operation(o.begin_field("x", scalar("u32")).err().unwrap()),
        "opaque types cannot be reflected upon"
    );
    assert!(matches!(
        Partial::alloc_shape(ShapeInfo { sized: false, ..scalar("str") }),
        Err(ReflectError::Unsized { .. })
    ));
}

#[test]
fn the_root_frame_is_never_closed_and_incomplete_parts_stay_open() {
    let mut p = fresh(point());
    assert_eq!(
        operation(p.end().err().unwrap()),
        "Wip::end() called with only one frame on the stack"
    );
    p.begin_field("y", scalar("u32")).ok().unwrap();
    assert!(matches!(p.end(), Err(ReflectError::UninitializedValue { .. })));
    assert_eq!(p.frames.len(), 2);
    match p.build(true, true) {
        Err(ReflectError::InvariantViolation { violated }) => {
            assert_eq!(violated, "Wip::build() expects a single frame \u{2014} pop until that's the case")
        }
        _ => panic!("building needs the root frame alone"),
    }
    assert!(p.state == PartialState::BuildFailed);
}

#[test]
fn build_checks_invariants_and_size() {
    let mut p = fresh(scalar("u8"));
    write_top(&mut p);
    assert_eq!(operation(p.build(false, true).err().unwrap()), "Type invariants check failed");
    let mut q = fresh(scalar("u8"));
    write_top(&mut q);
    assert!(matches!(q.build(true, false), Err(ReflectError::Unsized { .. })));
    assert!(q.state == PartialState::BuildFailed);
}

#[test]
fn enum_variants_are_selected_then_filled() {
    let mut p = fresh(shape_enum(EnumRepr::U8));
    assert!(p.select_variant_named("Rect").is_ok());
    match &p.frames[0].tracker {
        Tracker::Enum { variant, data, current_child } => {
            assert_eq!(variant.name, "Rect");
            assert_eq!(variant.fields, names(&["w", "h"]));
            assert!(!data.get(0) && !data.get(1) && data.get(2));
            assert!(current_child.is_none());
        }
        _ => panic!("the enum tracks its variant"),
    }
    match p.build(true, true) {
        Err(ReflectError::UninitializedEnumField { field_name, variant_name, .. }) => {
            assert_eq!(field_name, "w");
            assert_eq!(variant_name, "Rect");
        }
        _ => panic!("the first field of the variant is missing"),
    }
    let mut q = fresh(shape_enum(EnumRepr::U8));
    q.select_variant(1).ok().unwrap();
    assert!(matches!(q.begin_field("h", scalar("f64")), Ok(PartStart::Fresh)));
    write_top(&mut q);
    assert!(matches!(q.end(), Ok(EndAction::Keep)));
    q.begin_nth_enum_field(0, scalar("f64")).ok().unwrap();
    write_top(&mut q);
    q.end().ok().unwrap();
    assert!(q.build(true, true).is_ok());
    let mut u = fresh(shape_enum(EnumRepr::U8));
    u.begin_nth_variant(2).ok().unwrap();
    assert!(u.build(true, true).is_ok());
}

#[test]
fn enum_errors() {
    let mut p = fresh(shape_enum(EnumRepr::U8));
    assert_eq!(
        operation(p.select_variant(9).err().unwrap()),
        "No variant found with the given discriminant"
    );
    assert_eq!(
        operation(p.select_variant_named("Hexagon").err().unwrap()),
        "No variant found with the given name"
    );
    assert_eq!(operation(p.select_variant_named("Odd").err().unwrap()), "Variant has no discriminant value");
    assert_eq!(operation(p.begin_nth_variant(4).err().unwrap()), "variant index out of bounds");
    assert_eq!(
        operation(p.begin_field("w", scalar("f64")).err().unwrap()),
        "must call push_variant before selecting enum fields"
    );
    assert_eq!(
        operation(p.begin_nth_enum_field(0, scalar("f64")).err().unwrap()),
        "push_nth_enum_field requires an enum with a variant selected"
    );
    p.select_variant(0).ok().unwrap();
    assert_eq!(
        operation(p.begin_field("w", scalar("f64")).err().unwrap()),
        "field not found in current enum variant"
    );
    assert_eq!(
        operation(p.begin_nth_enum_field(1, scalar("f64")).err().unwrap()),
        "enum field index out of bounds"
    );
    let mut npo = fresh(shape_enum(EnumRepr::RustNPO));
    assert_eq!(
        operation(npo.select_variant(0).err().unwrap()),
        "RustNPO enums are not supported for incremental building"
    );
    let mut s = fresh(point());
    assert!(matches!(s.select_variant(0), Err(ReflectError::WrongShape { .. })));
    assert_eq!(
        operation(s.select_variant_named("Rect").err().unwrap()),
        "push_variant_named requires an enum type"
    );
    assert_eq!(
        operation(s.begin_nth_variant(0).err().unwrap()),
        "begin_nth_variant requires an enum type"
    );
}

#[test]
fn arrays_are_built_element_by_element() {
    let mut p = fresh(shape("[u8; 2]", TypeInfo::Array(2), DefInfo::Other));
    assert_eq!(operation(p.begin_nth_element(2, scalar("u8")).err().unwrap()), "array index out of bounds");
    assert!(matches!(p.begin_nth_element(1, scalar("u8")), Ok(PartStart::Fresh)));
    write_top(&mut p);
    p.end().ok().unwrap();
    assert!(matches!(p.build(true, true), Err(ReflectError::UninitializedValue { .. })));
    let mut q = fresh(shape("[u8; 2]", TypeInfo::Array(2), DefInfo::Other));
    for i in 0..2 {
        q.begin_nth_element(i, scalar("u8")).ok().unwrap();
        write_top(&mut q);
        q.end().ok().unwrap();
    }
    assert!(q.build(true, true).is_ok());
    let mut big = fresh(shape("[u8; 100]", TypeInfo::Array(100), DefInfo::Other));
    assert_eq!(
        operation(big.begin_nth_element(0, scalar("u8")).err().unwrap()),
        "arrays larger than 63 elements are not yet supported"
    );
    let mut t = fresh(shape("(u8, u8)", TypeInfo::OtherSequence, DefInfo::Other));
    assert_eq!(
        operation(t.begin_nth_element(0, scalar("u8")).err().unwrap()),
        "can only select elements from arrays"
    );
}

#[test]
fn lists_take_their_elements_when_closed() {
    let list = shape("Vec<u8>", TypeInfo::Opaque, DefInfo::List { can_init: true, can_push: true });
    let mut p = fresh(list);
    assert_eq!(
        operation(p.begin_list_item(scalar("u8"), true).err().unwrap()),
        "must call begin_pushback() before push()"
    );
    p.begin_list().ok().unwrap();
    p.begin_list_item(scalar("u8"), true).ok().unwrap();
    write_top(&mut p);
    assert!(matches!(p.end(), Ok(EndAction::PushElement)));
    assert!(matches!(p.frames[0].tracker, Tracker::List { is_initialized: true, current_child: false }));
    assert!(p.build(true, true).is_ok());
    let mut no_push = fresh(shape("Weird", TypeInfo::Opaque, DefInfo::List { can_init: true, can_push: false }));
    no_push.begin_list().ok().unwrap();
    no_push.begin_list_item(scalar("u8"), true).ok().unwrap();
    write_top(&mut no_push);
    assert_eq!(operation(no_push.end().err().unwrap()), "List missing push function");
    assert_eq!(no_push.frames.len(), 1);
    let mut no_init = fresh(shape("Weird", TypeInfo::Opaque, DefInfo::List { can_init: false, can_push: true }));
    assert_eq!(
        operation(no_init.begin_list().err().unwrap()),
        "list type does not support initialization with capacity"
    );
    let mut no_memory = fresh(shape("Vec<u8>", TypeInfo::Opaque, DefInfo::List { can_init: true, can_push: true }));
    no_memory.begin_list().ok().unwrap();
    assert_eq!(
        operation(no_memory.begin_list_item(scalar("u8"), false).err().unwrap()),
        "failed to allocate memory for list element"
    );
    assert!(matches!(no_memory.frames[0].tracker, Tracker::List { is_initialized: true, current_child: true }));
}

#[test]
fn map_entries_go_key_then_value() {
    let mut p = fresh(shape("HashMap<String, u8>", TypeInfo::Opaque, DefInfo::MapDef));
    assert_eq!(
        operation(p.begin_insert().err().unwrap()),
        "must call begin_map() before begin_insert()"
    );
    p.begin_map().ok().unwrap();
    assert_eq!(
        operation(p.begin_value(scalar("u8"), true).err().unwrap()),
        "must complete key before push_value()"
    );
    p.begin_insert().ok().unwrap();
    assert_eq!(
        operation(p.begin_insert().err().unwrap()),
        "already in the middle of an insert operation"
    );
    p.begin_key(scalar("String"), true).ok().unwrap();
    write_top(&mut p);
    assert!(matches!(p.end(), Ok(EndAction::Keep)));
    assert!(matches!(
        p.frames[0].tracker,
        Tracker::MapOf { insert_state: MapInsertState::PushingValue { value_allocated: false }, .. }
    ));
    p.begin_value(scalar("u8"), true).ok().unwrap();
    write_top(&mut p);
    assert!(matches!(p.end(), Ok(EndAction::InsertEntry)));
    assert!(matches!(
        p.frames[0].tracker,
        Tracker::MapOf { is_initialized: true, insert_state: MapInsertState::Idle }
    ));
    assert!(p.build(true, true).is_ok());
    let mut s = fresh(point());
    assert_eq!(operation(s.begin_map().err().unwrap()), "begin_map can only be called on Map types");
}

#[test]
fn smart_pointers_wrap_their_pointee() {
    let boxed = || shape("Box<u8>", TypeInfo::Pointer, DefInfo::SmartPointer { box_or_arc: true, can_wrap: true });
    let mut p = fresh(boxed());
    p.begin_smart_ptr(Some(scalar("u8")), true).ok().unwrap();
    write_top(&mut p);
    assert!(matches!(p.end(), Ok(EndAction::WrapPointee)));
    assert!(matches!(p.frames[0].tracker, Tracker::SmartPointer { is_initialized: true }));
    assert!(p.build(true, true).is_ok());
    let mut q = fresh(boxed());
    assert_eq!(operation(q.begin_smart_ptr(None, true).err().unwrap()), "Box must have a pointee shape");
    let mut rc = fresh(shape("Rc<u8>", TypeInfo::Pointer, DefInfo::SmartPointer { box_or_arc: false, can_wrap: true }));
    assert_eq!(
        operation(rc.begin_smart_ptr(Some(scalar("u8")), true).err().unwrap()),
        "only Box and Arc smart pointers are currently supported"
    );
    let mut w = fresh(shape("Box<u8>", TypeInfo::Pointer, DefInfo::SmartPointer { box_or_arc: true, can_wrap: false }));
    w.begin_smart_ptr(Some(scalar("u8")), true).ok().unwrap();
    write_top(&mut w);
    assert_eq!(operation(w.end().err().unwrap()), "SmartPointer missing new_into_fn");
}

#[test]
fn the_cleanup_plan_names_what_is_initialized() {
    let mut p = fresh(point());
    p.begin_nth_field(1, scalar("u32")).ok().unwrap();
    write_top(&mut p);
    p.end().ok().unwrap();
    p.begin_nth_field(0, scalar("u32")).ok().unwrap();
    let plan = p.cleanup_plan();
    assert_eq!(plan.len(), 2);
    assert!(!plan[0].drop_value && plan[0].drop_parts.is_empty());
    assert!(!plan[1].drop_value);
    assert_eq!(plan[1].drop_parts, vec![1]);
    let mut m = fresh(shape("HashMap<u8, u8>", TypeInfo::Opaque, DefInfo::MapDef));
    m.begin_map().ok().unwrap();
    m.begin_insert().ok().unwrap();
    m.begin_key(scalar("u8"), true).ok().unwrap();
    write_top(&mut m);
    m.end().ok().unwrap();
    let plan = m.cleanup_plan();
    assert_eq!(plan.len(), 1);
    assert!(plan[0].drop_value && plan[0].drop_key && plan[0].free_key && !plan[0].free_value);
    let mut a = fresh(shape("[u8; 3]", TypeInfo::Array(3), DefInfo::Other));
    a.frames[0].tracker = Tracker::Array { iset: ISet::default(), current_child: None };
    assert!(a.cleanup_plan()[0].drop_parts.is_empty());
}

#[test]
fn writing_a_value_twice_drops_the_first_and_failures_change_nothing() {
    let mut p = fresh(scalar("u8"));
    let mut seen = Vec::new();
    p.set_from_function(|start| {
        seen.push(start);
        Ok(())
    })
    .ok()
    .unwrap();
    p.set_from_function(|start| {
        seen.push(start);
        Ok(())
    })
    .ok()
    .unwrap();
    assert!(seen == vec![PartStart::Fresh, PartStart::DropOld]);
    let mut q = fresh(scalar("u8"));
    let r = q.set_from_function(|_| Err(ReflectError::Unknown));
    assert!(matches!(r, Err(ReflectError::Unknown)));
    assert!(matches!(q.frames[0].tracker, Tracker::Uninit));
}

#[test]
fn the_path_follows_the_open_frames() {
    let outer = shape(
        "Outer",
        TypeInfo::Struct(names(&["inner"])),
        DefInfo::Other,
    );
    let mut p = Partial::from_ptr(outer);
    assert_eq!(p.path(), "Outer");
    p.begin_field("inner", point()).ok().unwrap();
    p.begin_field("y", scalar("u32")).ok().unwrap();
    assert_eq!(p.path(), "Outer.inner.y");
    assert_eq!(p.shape(), "u32");
}

#[test]
fn defaults_need_the_types_default() {
    let mut p = fresh(scalar("u8"));
    let none: Option<fn(PartStart) -> Result<(), ReflectError>> = None;
    assert_eq!(operation(p.set_default(none).err().unwrap()), "type does not implement Default");
    assert!(matches!(p.frames[0].tracker, Tracker::Uninit));
    assert!(p.set_default(Some(|_| Ok(()))).is_ok());
    assert!(matches!(p.frames[0].tracker, Tracker::Init));
    assert!(p.build(true, true).is_ok());
}

#[test]
fn a_value_of_the_same_type_completes_the_part() {
    let mut p = fresh(scalar("u8"));
    assert!(matches!(
        p.set_shape(&"u16".to_string(), false, true),
        Err(ReflectError::WrongShape { expected, actual }) if expected == "u16" && actual == "u8"
    ));
    assert!(matches!(p.set_shape(&"u8".to_string(), true, false), Err(ReflectError::Unsized { .. })));
    assert!(matches!(p.frames[0].tracker, Tracker::Uninit));
    assert!(p.set_shape(&"u8".to_string(), true, true).is_ok());
    assert!(matches!(p.frames[0].tracker, Tracker::Init));
}

#[test]
fn every_refusal_of_the_builder() {
    let unsized_part = ShapeInfo { sized: false, ..scalar("str") };
    // arrays
    let mut a = fresh(shape("[u8; 2]", TypeInfo::Array(2), DefInfo::Other));
    a.frames[0].tracker = Tracker::Init;
    assert_eq!(operation(a.begin_nth_element(0, scalar("u8")).err().unwrap()), "expected array tracker state");
    let mut b = fresh(shape("[str; 2]", TypeInfo::Array(2), DefInfo::Other));
    assert!(matches!(b.begin_nth_element(0, unsized_part), Err(ReflectError::Unsized { .. })));
    assert!(matches!(b.frames[0].tracker, Tracker::Array { current_child: None, .. }));
    assert_eq!(b.frames.len(), 1);
    let mut s = fresh(point());
    assert_eq!(
        operation(s.begin_nth_element(0, scalar("u8")).err().unwrap()),
        "cannot select an element from this type"
    );
    // fields
    let mut u = fresh(shape("U", TypeInfo::Union, DefInfo::Other));
    assert_eq!(operation(u.begin_field("a", scalar("u8")).err().unwrap()), "unions are not supported");
    assert_eq!(operation(u.begin_nth_field(0, scalar("u8")).err().unwrap()), "unions are not supported");
    let mut t = fresh(shape("(u8,)", TypeInfo::OtherSequence, DefInfo::Other));
    assert_eq!(
        operation(t.begin_field("0", scalar("u8")).err().unwrap()),
        "cannot select a field from a sequence type"
    );
    let mut ptr = fresh(shape("&u8", TypeInfo::Pointer, DefInfo::Other));
    assert_eq!(
        operation(ptr.begin_field("x", scalar("u8")).err().unwrap()),
        "cannot select a field from a pointer type"
    );
    // lists
    assert_eq!(
        operation(s.begin_list().err().unwrap()),
        "begin_pushback can only be called on List types"
    );
    assert_eq!(
        operation(s.begin_list_item(scalar("u8"), true).err().unwrap()),
        "push can only be called on List types"
    );
    let mut l = fresh(shape("Vec<u8>", TypeInfo::Opaque, DefInfo::List { can_init: true, can_push: true }));
    l.begin_list().ok().unwrap();
    l.begin_list_item(scalar("u8"), true).ok().unwrap();
    l.frames.pop();
    assert_eq!(
        operation(l.begin_list_item(scalar("u8"), true).err().unwrap()),
        "already pushing an element, call pop() first"
    );
    // maps
    let mut m = fresh(shape("HashMap<u8, u8>", TypeInfo::Opaque, DefInfo::MapDef));
    assert_eq!(
        operation(m.begin_key(scalar("u8"), true).err().unwrap()),
        "must call begin_insert() before push_key()"
    );
    m.begin_map().ok().unwrap();
    m.begin_insert().ok().unwrap();
    assert!(matches!(m.begin_key(ShapeInfo { sized: false, ..scalar("str") }, true), Err(ReflectError::Unsized { .. })));
    assert_eq!(
        operation(m.begin_key(scalar("u8"), false).err().unwrap()),
        "failed to allocate memory for map key"
    );
    m.begin_key(scalar("u8"), true).ok().unwrap();
    m.frames.pop();
    assert_eq!(
        operation(m.begin_key(scalar("u8"), true).err().unwrap()),
        "already pushing a key, call pop() first"
    );
    m.frames[0].tracker = Tracker::MapOf {
        is_initialized: true,
        insert_state: MapInsertState::PushingValue { value_allocated: false },
    };
    assert_eq!(
        operation(m.begin_value(scalar("u8"), false).err().unwrap()),
        "failed to allocate memory for map value"
    );
    m.begin_value(scalar("u8"), true).ok().unwrap();
    m.frames.pop();
    assert_eq!(
        operation(m.begin_value(scalar("u8"), true).err().unwrap()),
        "already pushing a value, call pop() first"
    );
    // smart pointers
    assert_eq!(
        operation(s.begin_smart_ptr(Some(scalar("u8")), true).err().unwrap()),
        "push_smart_ptr can only be called on compatible types"
    );
    let mut bx = fresh(shape("Box<u8>", TypeInfo::Pointer, DefInfo::SmartPointer { box_or_arc: true, can_wrap: true }));
    assert_eq!(
        operation(bx.begin_smart_ptr(Some(scalar("u8")), false).err().unwrap()),
        "failed to allocate memory for Box inner value"
    );
    assert!(matches!(bx.frames[0].tracker, Tracker::SmartPointer { is_initialized: false }));
    assert!(matches!(
        bx.begin_smart_ptr(Some(ShapeInfo { sized: false, ..scalar("str") }), true),
        Err(ReflectError::Unsized { .. })
    ));
}

#[test]
fn a_failed_rewrite_leaves_the_part_uninitialized() {
    let mut p = fresh(point());
    p.begin_nth_field(0, scalar("u32")).ok().unwrap();
    write_top(&mut p);
    // the write function is told to drop the old value, then fails
    let r = p.set_from_function(|start| {
        assert!(start == PartStart::DropOld);
        Err(ReflectError::Unknown)
    });
    assert!(matches!(r, Err(ReflectError::Unknown)));
    assert!(matches!(p.frames[1].tracker, Tracker::Uninit));
    // so dropping the builder does not drop the old value again
    let plan = p.cleanup_plan();
    assert!(!plan[0].drop_value && plan[0].drop_parts.is_empty());
}

#[test]
fn nothing_is_accepted_after_build() {
    let mut p = fresh(scalar("u8"));
    write_top(&mut p);
    p.build(true, true).ok().unwrap();
    let inactive = "Cannot use Partial after it has been built or poisoned";
    let none: Option<fn(PartStart) -> Result<(), ReflectError>> = None;
    assert_eq!(operation(p.set_default(none).err().unwrap()), inactive);
    assert_eq!(operation(p.set_from_function(|_| Ok(())).err().unwrap()), inactive);
    assert_eq!(operation(p.end().err().unwrap()), inactive);
    assert_eq!(operation(p.build(true, true).err().unwrap()), inactive);
    assert!(p.cleanup_plan().is_empty());
    let mut q = fresh(point());
    assert!(q.build(true, true).is_err());
    assert!(q.state == PartialState::BuildFailed);
    assert_eq!(operation(q.begin_field("x", scalar("u32")).err().unwrap()), inactive);
    assert_eq!(operation(q.set_shape(&"Point".to_string(), true, true).err().unwrap()), inactive);
}

#[test]
fn each_allocation_is_freed_by_one_frame() {
    let mut m = fresh(shape("HashMap<u8, Point>", TypeInfo::Opaque, DefInfo::MapDef));
    m.begin_map().ok().unwrap();
    m.begin_insert().ok().unwrap();
    m.begin_key(scalar("u8"), true).ok().unwrap();
    let plan = m.cleanup_plan();
    // the key's frame does not free its buffer; the map's frame does
    assert!(!plan[0].free_memory);
    assert!(plan[1].free_key && plan[1].free_memory);
    let mut p = fresh(point());
    p.begin_nth_field(0, scalar("u32")).ok().unwrap();
    let plan = p.cleanup_plan();
    // a field lives in its struct's memory
    assert!(!plan[0].free_memory && plan[1].free_memory);
    let mut b = fresh(shape("Box<u8>", TypeInfo::Pointer, DefInfo::SmartPointer { box_or_arc: true, can_wrap: true }));
    b.begin_smart_ptr(Some(scalar("u8")), true).ok().unwrap();
    assert!(b.cleanup_plan()[0].free_memory);
    let borrowed = Partial::from_ptr(point());
    assert!(!borrowed.cleanup_plan()[0].free_memory);
}
