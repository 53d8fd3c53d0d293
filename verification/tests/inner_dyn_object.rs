use dynobject::inner_dyn_object::undefined_property;
use dynobject::DynTag;
use dynobject::PayloadMut;
use dynobject::DynValue;
use dynobject::InnerDynObject;

fn create_dummy() -> InnerDynObject<&'static str> {
    InnerDynObject::<&'static str>::new()
}

#[test]
fn inner_dyn_object_exist_property_should_return_false_if_inexisting() {
    let obj = create_dummy();
    assert!(!obj.exists_property(&"hallo"));
}

#[test]
fn inner_dyn_object_after_creating_a_property_should_exist() {
    let mut obj = create_dummy();
    assert!(obj.create_property("hallo", DynValue::I32(23)).is_ok());
    assert!(obj.exists_property(&"hallo"));
}

#[test]
fn inner_dyn_object_exist_property_with_type_should_return_true_if_property_exists_and_has_given_type() {
    let mut obj = create_dummy();
    assert!(obj.create_property("hallo", DynValue::I32(23)).is_ok());
    assert!(obj.exists_property_with_type(&"hallo", DynTag::I32));
}

#[test]
fn inner_dyn_object_exists_property_with_type_should_return_false_if_property_is_undefined() {
    let mut obj = create_dummy();
    assert!(obj.create_property("hallo", DynValue::I32(23)).is_ok());
    assert!(!obj.exists_property_with_type(&"NOThallo", DynTag::I32));
}

#[test]
fn inner_dyn_object_exists_property_with_type_should_return_fals_if_the_type_mismatches() {
    let mut obj = create_dummy();
    assert!(obj.create_property("hallo", DynValue::I32(23)).is_ok());
    assert!(!obj.exists_property_with_type(&"hallo", DynTag::U16));
}

#[test]
fn inner_dyn_object_create_property_should_return_true_if_key_is_new() {
    let mut obj = create_dummy();
    assert!(obj.create_property("hallo", DynValue::I32(23)).is_ok());
}

#[test]
fn inner_dyn_object_create_property_should_return_false_if_key_already_exists() {
    let mut obj = create_dummy();
    assert!(obj.create_property("hallo", DynValue::I32(23)).is_ok());
    assert!(!obj.create_property("hallo", DynValue::I32(20)).is_ok());
}

#[test]
fn inner_dyn_object_set_property_should_err_if_property_does_not_exist() {
    let mut obj = create_dummy();
    assert!(!obj.exists_property(&"hallo"));
    let res = obj.set_property(&"hallo", DynValue::I32(44));
    assert_eq!(res, Err(DynValue::I32(44)));
}

#[test]
fn inner_dyn_object_set_property_should_err_if_property_type_is_wrong() {
    let mut obj = create_dummy();
    assert!(obj.create_property("hallo", DynValue::I32(23)).is_ok());
    let res = obj.set_property(&"hallo", DynValue::Text(String::from("oh falsch")));
    assert_eq!(res, Err(DynValue::Text(String::from("oh falsch"))));
}

#[test]
fn inner_dyn_object_set_property_should_return_the_old_value_if_property_exists_and_type_matches() {
    let mut obj = create_dummy();
    assert!(obj.create_property("hallo", DynValue::I32(23)).is_ok());
    let res = obj.set_property(&"hallo", DynValue::I32(44));
    assert_eq!(res, Ok(DynValue::I32(23)));
    assert_eq!(obj.index(&"hallo").as_ref(DynTag::I32).unwrap(), &DynValue::I32(44));
}

#[test]
fn inner_dyn_object_remove_property_should_fail_if_property_does_not_exists() {
    let mut obj = create_dummy();
    let res = obj.remove_property(&"hallo", DynTag::I32);
    assert_eq!(res, Err(()));
}

#[test]
fn inner_dyn_object_remove_property_should_fail_if_the_type_mismatches() {
    let mut obj = create_dummy();
    assert!(obj.create_property("hallo", DynValue::I32(23)).is_ok());
    let res = obj.remove_property(&"hallo", DynTag::U16);
    assert_eq!(res, Err(()));
    assert!(obj.exists_property(&"hallo"));
}

#[test]
fn inner_dyn_object_remove_property_should_return_the_property_value_if_succesful() {
    let mut obj = create_dummy();
    assert!(obj.create_property("hallo", DynValue::I32(23)).is_ok());
    let res = obj.remove_property(&"hallo", DynTag::I32);
    assert_eq!(res, Ok(DynValue::I32(23)));
}

#[test]
fn inner_dyn_object_index_should_return_the_property_if_existing() {
    let mut obj = create_dummy();
    assert!(obj.create_property("hallo", DynValue::I32(23)).is_ok());
    let res = obj.index(&"hallo");
    assert!(res.is_inner_type(DynTag::I32));
    match res.as_ref(DynTag::I32) {
        Some(ref_val) => assert_eq!(ref_val, &DynValue::I32(23)),
        None => panic!("expected to be borrowable in this situration"),
    }
}

#[test]
fn inner_dyn_object_index_should_return_a_property_of_type_undefined_if_inexisting() {
    let obj = create_dummy();
    assert!(obj.index(&"hallo").is_inner_type(DynTag::Undefined));
}

#[test]
fn inner_dyn_object_index_should_also_allow_mutable_access() {
    let mut obj = create_dummy();
    assert!(obj.create_property("hallo", DynValue::I32(23)).is_ok());
    match obj.index_mut(&"hallo").as_mut(DynTag::I32) {
        Some(ref_val) => {
            let mut dummy = 23i32;
            assert_eq!(ref_val, PayloadMut::I32(&mut dummy))
        },
        None => panic!("expected to be borrowable in this situration"),
    }
}

#[test]
fn undefined_property_should_return_a_property_of_the_undefined_property_type() {
    let x = undefined_property();
    assert!(x.is_inner_type(DynTag::Undefined));
}
