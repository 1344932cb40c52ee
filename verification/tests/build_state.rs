use facet_formats::build_state::{
    path, require_full_initialization, DefInfo, EnumRepr, FrameInfo, FrameOwnership, ISet, MapInsertState,
    ReflectError, Tracker, TypeInfo, VariantInfo,
};

fn names(v: &[&str]) -> Vec<String> {
    v.iter().map(|s| s.to_string()).collect()
}

fn frame_with(shape: &str, ty: TypeInfo, tracker: Tracker) -> FrameInfo {
    FrameInfo { shape: shape.to_string(), ty, def: DefInfo::Other, tracker, ownership: FrameOwnership::Owned }
}

fn an_enum() -> TypeInfo {
    TypeInfo::Enum { variants: vec![], repr: EnumRepr::U8 }
}

fn message(r: Result<(), ReflectError>) -> String {
    match r {
        Ok(()) => "ok".to_string(),
        Err(e) => e.message(),
    }
}

#[test]
fn iset_tracks_each_index() {
    let mut s = ISet::new(3);
    assert!(!s.get(0) && !s.get(1) && !s.get(2));
    assert!(s.get(3) && s.get(63));
    assert!(!s.all_set());
    s.set(1);
    assert!(s.get(1) && !s.get(0));
    s.set(0);
    s.set(2);
    assert!(s.all_set());
    s.unset(63);
    assert!(!s.get(63) && !s.all_set());
    s.set_all();
    assert!(s.all_set());
    assert!(ISet::new(0).all_set());
}

#[test]
fn a_struct_names_its_first_missing_field() {
    let mut iset = ISet::new(3);
    iset.set(0);
    let frame = frame_with(
        "Point",
        TypeInfo::Struct(names(&["x", "y", "z"])),
        Tracker::Struct { iset, current_child: None },
    );
    assert_eq!(message(require_full_initialization(&frame)), "Field 'Point::y' was not initialized");
    iset.set(1);
    iset.set(2);
    let done = FrameInfo { tracker: Tracker::Struct { iset, current_child: None }, ..frame };
    assert!(require_full_initialization(&done).is_ok());
}

#[test]
fn an_enum_names_the_field_and_its_variant() {
    let mut data = ISet::new(2);
    data.set(0);
    let frame = frame_with(
        "Shape",
        an_enum(),
        Tracker::Enum {
            variant: VariantInfo { name: "Rect".to_string(), fields: names(&["w", "h"]) },
            data,
            current_child: Some(1),
        },
    );
    assert_eq!(
        message(require_full_initialization(&frame)),
        "Field '\u{1b}[34mShape\u{1b}[39m::\u{1b}[33mh\u{1b}[39m' in variant '\u{1b}[31mRect\u{1b}[39m' was not initialized"
    );
    assert_eq!(path(&vec![frame]), "Shape::Rect.h");
    let unit = frame_with(
        "Shape",
        an_enum(),
        Tracker::Enum {
            variant: VariantInfo { name: "Empty".to_string(), fields: vec![] },
            data: ISet::new(0),
            current_child: None,
        },
    );
    assert!(require_full_initialization(&unit).is_ok());
}

#[test]
fn arrays_lists_maps_and_values() {
    let mut iset = ISet::new(2);
    iset.set(0);
    let array = frame_with("[u8; 2]", TypeInfo::Array(2), Tracker::Array { iset, current_child: Some(1) });
    assert_eq!(
        message(require_full_initialization(&array)),
        "Value '\u{1b}[34m[u8; 2]\u{1b}[39m' was not initialized"
    );
    let map_busy = frame_with(
        "HashMap<String, u8>",
        TypeInfo::Opaque,
        Tracker::MapOf {
            is_initialized: true,
            insert_state: MapInsertState::PushingKey { key_allocated: false },
        },
    );
    assert!(require_full_initialization(&map_busy).is_err());
    let map_idle = FrameInfo {
        tracker: Tracker::MapOf { is_initialized: true, insert_state: MapInsertState::Idle },
        ..map_busy
    };
    assert!(require_full_initialization(&map_idle).is_ok());
    let list = frame_with(
        "Vec<u8>",
        TypeInfo::OtherSequence,
        Tracker::List { is_initialized: false, current_child: false },
    );
    assert!(require_full_initialization(&list).is_err());
    let uninit = frame_with("u8", TypeInfo::Primitive, Tracker::Uninit);
    assert!(require_full_initialization(&uninit).is_err());
    let init = frame_with("u8", TypeInfo::Primitive, Tracker::Init);
    assert!(require_full_initialization(&init).is_ok());
}

#[test]
fn paths_name_the_root_then_each_step() {
    let mut iset = ISet::new(2);
    iset.set(0);
    let frames = vec![
        frame_with(
            "Outer",
            TypeInfo::Struct(names(&["a", "items"])),
            Tracker::Struct { iset, current_child: Some(1) },
        ),
        frame_with(
            "Vec<Box<Inner>>",
            TypeInfo::OtherSequence,
            Tracker::List { is_initialized: true, current_child: true },
        ),
        frame_with("Box<Inner>", TypeInfo::Pointer, Tracker::SmartPointer { is_initialized: false }),
        frame_with("[u32; 4]", TypeInfo::Array(4), Tracker::Array { iset: ISet::new(4), current_child: Some(12) }),
        frame_with("Blob", TypeInfo::Opaque, Tracker::Uninit),
    ];
    assert_eq!(path(&frames), "Outer.items[]*[12]<opaque>");
    assert_eq!(path(&vec![]), "");
}

#[test]
fn messages_of_reflection_errors() {
    let e = ReflectError::NoSuchVariant { variants: names(&["A", "B"]) };
    assert_eq!(
        e.message(),
        "No such variant in enum. Known variants: , \u{1b}[36mA\u{1b}[39m, \u{1b}[36mB\u{1b}[39m, that's it."
    );
    let e = ReflectError::ArrayIndexOutOfBounds { shape: "[u8; 3]".to_string(), index: 7, size: 3 };
    assert_eq!(
        e.message(),
        "Array index 7 out of bounds for '\u{1b}[34m[u8; 3]\u{1b}[39m' (array length is 3)"
    );
    let e = ReflectError::ArrayNotFullyInitialized { shape: "A".to_string(), pushed_count: 1, expected_size: 10 };
    assert_eq!(
        e.message(),
        "Array '\u{1b}[34mA\u{1b}[39m' not fully initialized: expected 10 elements, but got 1"
    );
    let e = ReflectError::MissingCharacteristic { shape: "Foo".to_string(), characteristic: "Default".to_string() };
    assert_eq!(e.message(), "Foo does not implement characteristic Default");
    assert_eq!(ReflectError::Unknown.message(), "Unknown error");
    let e = ReflectError::WrongShape { expected: "u8".to_string(), actual: "String".to_string() };
    assert_eq!(
        e.message(),
        "Wrong shape: expected \u{1b}[32mu8\u{1b}[39m, but got \u{1b}[31mString\u{1b}[39m"
    );
}
