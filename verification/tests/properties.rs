use dynobject::DynObject;
use dynobject::DynProperty;
use dynobject::PayloadMut;
use dynobject::DynTag;
use dynobject::DynValue;
use dynobject::InnerDynObject;
use dynobject::UndefinedProperty;

fn fresh_store() -> InnerDynObject<&'static str> {
    InnerDynObject::<&'static str>::new()
}

#[test]
fn a_cell_reads_back_its_creation_value_and_only_at_its_own_type() {
    let cell = DynProperty::new(DynValue::Text(String::from("hallo")));
    assert_eq!(cell.as_ref(DynTag::Text), Some(&DynValue::Text(String::from("hallo"))));
    assert_eq!(cell.as_ref(DynTag::I32), None);
    assert_eq!(cell.as_ref(DynTag::Undefined), None);
    assert_eq!(cell.as_ref(DynTag::Triple), None);
}

#[test]
fn a_mismatched_replace_changes_nothing_and_returns_the_offer() {
    let mut cell = DynProperty::new(DynValue::Triple(1, 2, 3));
    let offered = DynValue::U16(9);
    assert_eq!(cell.set(offered.clone()), Err(offered));
    assert!(cell.is_inner_type(DynTag::Triple));
    assert_eq!(cell.as_ref(DynTag::Triple), Some(&DynValue::Triple(1, 2, 3)));
}

#[test]
fn scenario_second_create_is_rejected_and_reads_are_exactly_typed() {
    let mut s = fresh_store();
    assert!(s.create_property("limit", DynValue::U32(4)).is_ok());
    assert_eq!(s.create_property("limit", DynValue::U32(9)), Err(DynValue::U32(9)));
    assert_eq!(s.index(&"limit").as_ref(DynTag::U32), Some(&DynValue::U32(4)));
    assert_eq!(s.index(&"limit").as_ref(DynTag::I64), None);
}

#[test]
fn an_absent_key_indexes_to_the_undefined_sentinel_value() {
    let s = fresh_store();
    let cell = s.index(&"nothing");
    assert!(cell.is_inner_type(DynTag::Undefined));
    assert_eq!(cell.as_ref(DynTag::Undefined), Some(&DynValue::Undefined(UndefinedProperty)));
}

#[test]
fn writing_through_the_absent_key_cell_leaves_the_store_unchanged() {
    let mut s = fresh_store();
    {
        let cell = s.index_mut(&"ghost");
        assert!(cell.is_inner_type(DynTag::Undefined));
        assert!(cell.set(DynValue::Undefined(UndefinedProperty)).is_ok());
        assert_eq!(cell.set(DynValue::I32(5)), Err(DynValue::I32(5)));
    }
    assert!(!s.exists_property(&"ghost"));
}

#[test]
fn a_mismatched_remove_keeps_the_original_value_recoverable() {
    let mut s = fresh_store();
    assert!(s.create_property("keep", DynValue::I64(-7)).is_ok());
    assert_eq!(s.remove_property(&"keep", DynTag::U32), Err(()));
    assert!(s.exists_property(&"keep"));
    assert_eq!(s.remove_property(&"keep", DynTag::I64), Ok(DynValue::I64(-7)));
    assert!(!s.exists_property(&"keep"));
}

#[test]
fn every_clone_sees_a_change_made_through_any_other_clone() {
    let first = DynObject::<&'static str>::new();
    let second = first.clone();
    let third = second.clone();

    let mut g = second.aquire().expect("exclusive access should be free here");
    assert!(g.store_mut().create_property("shared", DynValue::U16(1)).is_ok());
    g.release();

    let mut g = third.aquire().expect("exclusive access should be free here");
    assert_eq!(g.store_mut().set_property(&"shared", DynValue::U16(2)), Ok(DynValue::U16(1)));
    g.release();

    let g = first.aquire().expect("exclusive access should be free here");
    assert_eq!(g.store().index(&"shared").as_ref(DynTag::U16), Some(&DynValue::U16(2)));
    g.release();
}

#[test]
fn a_second_guard_is_refused_until_the_first_is_released() {
    let obj = DynObject::<u64>::new();
    let other = obj.clone();
    let first = obj.aquire().expect("exclusive access should be free here");
    assert!(obj.aquire().is_none());
    assert!(other.aquire().is_none());
    first.release();
    let second = other.aquire();
    assert!(second.is_some());
    second.unwrap().release();
}

#[test]
fn a_handle_can_be_rebuilt_from_a_borrowed_store() {
    let obj = DynObject::<&'static str>::new();
    let mut guard = obj.aquire().expect("exclusive access should be free here");
    assert!(guard.store_mut().create_property("k", DynValue::I32(1)).is_ok());
    let rebuilt = DynObject::create_from(guard.store()).expect("the back-link is set and alive");
    assert!(rebuilt.aquire().is_none());
    guard.release();
    let g2 = rebuilt.aquire().expect("the store was handed back");
    assert!(g2.store().exists_property(&"k"));
    g2.release();
}

#[test]
fn a_store_without_back_link_cannot_rebuild_a_handle() {
    let s = fresh_store();
    assert!(DynObject::create_from(&s).is_none());
}

#[test]
fn integer_keys_work_like_text_keys() {
    let mut s = InnerDynObject::<u64>::new();
    assert!(s.create_property(10, DynValue::Shared(std::rc::Rc::new(3))).is_ok());
    assert!(s.exists_property(&10));
    assert!(s.exists_property_with_type(&10, DynTag::Shared));
    assert!(!s.exists_property_with_type(&11, DynTag::Shared));
    assert_eq!(s.remove_property(&10, DynTag::Shared), Ok(DynValue::Shared(std::rc::Rc::new(3))));
}

#[test]
fn set_property_through_index_mut_matches_set_property() {
    let mut s = fresh_store();
    assert!(s.create_property("n", DynValue::I32(1)).is_ok());
    assert_eq!(s.index_mut(&"n").set(DynValue::I32(2)), Ok(DynValue::I32(1)));
    assert_eq!(s.set_property(&"n", DynValue::I32(3)), Ok(DynValue::I32(2)));
    assert_eq!(s.index(&"n").as_ref(DynTag::I32), Some(&DynValue::I32(3)));
}

#[test]
fn the_payload_view_mutates_in_place_and_keeps_the_type() {
    let mut cell = DynProperty::new(DynValue::Text(String::from("hal")));
    match cell.as_mut(DynTag::Text) {
        Some(PayloadMut::Text(s)) => s.push_str("lo"),
        _ => panic!("expected a text payload"),
    }
    assert!(cell.is_inner_type(DynTag::Text));
    assert_eq!(cell.as_ref(DynTag::Text), Some(&DynValue::Text(String::from("hallo"))));
}

#[test]
fn a_dropped_guard_releases_the_store_automatically() {
    let obj = DynObject::<u64>::new();
    {
        let mut g = obj.aquire().expect("exclusive access should be free here");
        assert!(g.store_mut().create_property(1, DynValue::I32(5)).is_ok());
    }
    let g2 = obj.aquire().expect("the dropped guard handed the store back");
    assert!(g2.store().exists_property(&1));
}
