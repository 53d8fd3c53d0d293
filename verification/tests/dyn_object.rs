#![allow(unused_variables)]

use dynobject::DynObject;
use dynobject::DynTag;
use dynobject::DynValue;

fn create_dummy() -> DynObject<&'static str> {
    DynObject::<&'static str>::new()
}

#[test]
fn aquire_should_not_panic_if_only_on_instance_exists() {
    let x = create_dummy();
    let data = x.aquire();
}

#[test]
fn aquire_multiple_times_should_panic() {
    let x = create_dummy();
    let obj_ref_2 = x.clone();
    let data = x.aquire();
    let data2 = obj_ref_2.aquire();
    assert!(data.is_some());
    assert!(data2.is_none());
}

#[test]
fn aquire_multiple_times_after_relasing_each_should_not_fail() {
    let x = create_dummy();
    {
        let data = x.aquire();
        data.expect("exclusive access should be free here").release();
    }
    let data2 = x.aquire();
    assert!(data2.is_some());
}

fn set_data(target: DynObject<&'static str>, value: i32) {
    let mut guard = target.aquire().expect("exclusive access should be free here");
    assert!(guard.store_mut().create_property("hallo", DynValue::I32(value)).is_ok());
    guard.release();
}

#[test]
fn mutiple_cloned_dyn_object_should_share_the_same_core() {
    let value = 23i32;
    let obj1 = create_dummy();
    set_data(obj1.clone(), value);
    let guard = obj1.aquire().expect("exclusive access should be free here");
    match guard.store().index(&"hallo").as_ref(DynTag::I32) {
        Some(data) => assert_eq!(data, &DynValue::I32(value)),
        None => panic!("type mismatch, error in test or other class"),
    }
    guard.release();
}
