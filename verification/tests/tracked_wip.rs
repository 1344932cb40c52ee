use facet_formats::build_state::{ISet, ReflectError};
use facet_formats::tracked_wip::{
    FrameMode, IState, PartDef, PartKind, PartShape, PopWork, TrackedFrame, TrackedWip, VariantForm,
};

fn empty() -> ISet {
    let mut s = ISet::new(63);
    s.unset(63);
    s
}

fn flags(set: &[usize]) -> ISet {
    let mut s = empty();
    for &i in set {
        s.set(i);
    }
    s
}

fn frame(shape: &str, kind: PartKind, def: PartDef, index: Option<usize>, mode: FrameMode, fields: ISet) -> TrackedFrame {
    TrackedFrame {
        shape: PartShape { shape: shape.to_string(), kind, def, sized: true },
        field_index_in_parent: index,
        istate: IState { fields, variant: None, list_index: None, mode, moved: false },
    }
}

fn scalar(index: Option<usize>, mode: FrameMode, set: bool) -> TrackedFrame {
    frame("u32", PartKind::Other, PartDef::Other, index, mode, if set { flags(&[0]) } else { empty() })
}

fn point(fields: ISet) -> TrackedFrame {
    frame("Point", PartKind::Struct { fields: 2, tuple: false }, PartDef::Other, None, FrameMode::Root, fields)
}

#[test]
fn popping_with_no_frame_is_refused() {
    let mut w = TrackedWip { frames: vec![], closed: vec![] };
    match w.pop() {
        Err(ReflectError::InvariantViolation { violated }) => {
            assert_eq!(violated, "No frame to pop \u{2014} it was time to call build()")
        }
        _ => panic!("popped with no frame"),
    }
}

#[test]
fn a_finished_field_is_marked_in_its_parent_and_kept() {
    let mut w = TrackedWip { frames: vec![point(flags(&[0])), scalar(Some(1), FrameMode::Field, true)], closed: vec![] };
    assert!(matches!(w.pop(), Ok(PopWork::Nothing)));
    assert_eq!(w.frames.len(), 1);
    assert!(w.frames[0].istate.fields.get(0));
    assert!(w.frames[0].istate.fields.get(1));
    assert_eq!(w.closed.len(), 1);
    assert!(!w.closed[0].istate.moved);
}

#[test]
fn an_unfinished_field_leaves_its_parent_as_it_was() {
    let mut w = TrackedWip { frames: vec![point(empty()), scalar(Some(1), FrameMode::Field, false)], closed: vec![] };
    assert!(matches!(w.pop(), Ok(PopWork::Nothing)));
    assert!(!w.frames[0].istate.fields.get(1));
    assert_eq!(w.closed.len(), 1);
}

#[test]
fn a_finished_list_element_is_pushed_and_moved() {
    let list = frame("Vec<u32>", PartKind::Other, PartDef::List, None, FrameMode::Root, flags(&[0]));
    let mut w = TrackedWip { frames: vec![list, scalar(None, FrameMode::ListElement, true)], closed: vec![] };
    assert!(matches!(w.pop(), Ok(PopWork::PushToList)));
    assert!(w.closed[0].istate.moved);
}

#[test]
fn a_tuple_element_fills_the_field_at_the_element_index() {
    let mut tuple = frame("(u32, u32)", PartKind::Tuple(2), PartDef::Other, None, FrameMode::Root, flags(&[0]));
    tuple.istate.list_index = Some(2);
    let mut w = TrackedWip { frames: vec![tuple, scalar(None, FrameMode::ListElement, true)], closed: vec![] };
    assert!(matches!(w.pop(), Ok(PopWork::FillField(1))));
    assert!(w.frames[0].istate.fields.get(1));
}

#[test]
fn an_unsized_element_is_not_copied() {
    let mut tuple = frame("(str,)", PartKind::Tuple(1), PartDef::Other, None, FrameMode::Root, empty());
    tuple.istate.list_index = Some(1);
    let mut element = scalar(None, FrameMode::ListElement, true);
    element.shape.sized = false;
    element.shape.shape = "str".to_string();
    let mut w = TrackedWip { frames: vec![tuple, element], closed: vec![] };
    match w.pop() {
        Err(ReflectError::Unsized { shape }) => assert_eq!(shape, "str"),
        _ => panic!("an unsized element was copied"),
    }
    assert_eq!(w.frames.len(), 1);
    assert!(w.closed.is_empty());
}

#[test]
fn the_last_array_element_completes_the_array_and_its_field() {
    let outer = frame("Outer", PartKind::Struct { fields: 1, tuple: false }, PartDef::Other, None, FrameMode::Root, empty());
    let mut array = frame("[u32; 2]", PartKind::Other, PartDef::Array(2), Some(0), FrameMode::Field, empty());
    array.istate.list_index = Some(2);
    let mut w = TrackedWip {
        frames: vec![outer, array, scalar(None, FrameMode::ListElement, true)],
        closed: vec![],
    };
    assert!(matches!(w.pop(), Ok(PopWork::FillElement(1))));
    assert_eq!(w.frames.len(), 2);
    assert!(w.frames[1].istate.fields.get(0));
    assert_eq!(w.frames[1].istate.list_index, Some(2));
    assert!(w.frames[0].istate.fields.get(0));
}

#[test]
fn a_finished_map_value_is_inserted_with_its_key() {
    let map = frame("HashMap<u32, u32>", PartKind::Other, PartDef::MapDef, None, FrameMode::Root, flags(&[0]));
    let key = scalar(None, FrameMode::MapKey, true);
    let value = scalar(None, FrameMode::MapValue { index: 1 }, true);
    let mut w = TrackedWip { frames: vec![map, key, value], closed: vec![] };
    assert!(matches!(w.pop(), Ok(PopWork::InsertEntry)));
    assert_eq!(w.frames.len(), 1);
    assert!(w.closed[0].istate.moved);
}

#[test]
fn a_finished_option_content_makes_the_option_some() {
    let variants = vec![VariantForm { fields: 0, tuple: false }, VariantForm { fields: 1, tuple: true }];
    let option = frame("Option<u32>", PartKind::Enum { variants }, PartDef::Optional, None, FrameMode::Root, empty());
    let mut w = TrackedWip { frames: vec![option, scalar(None, FrameMode::OptionSome, true)], closed: vec![] };
    assert!(matches!(w.pop(), Ok(PopWork::InitSome)));
    assert_eq!(w.frames[0].istate.variant, Some(VariantForm { fields: 1, tuple: true }));
    assert!(w.frames[0].istate.fields.get(0));
    assert!(!w.frames[0].istate.fields.get(1));
}
