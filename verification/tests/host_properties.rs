use tapir_script::settings::TapirProperty;

#[test]
fn tapir_property_for_bool() {
    let mut test = false;

    TapirProperty::set_from_i32(&mut test, 1);

    assert!(test);
    assert_eq!(TapirProperty::to_i32(&test), 1);

    TapirProperty::set_from_i32(&mut test, 0);

    assert!(!test);
    assert_eq!(TapirProperty::to_i32(&test), 0);
}

#[test]
fn tapir_property_for_i32() {
    let mut value = 0i32;

    TapirProperty::set_from_i32(&mut value, 17);

    assert_eq!(value, 17);
    assert_eq!(TapirProperty::to_i32(&value), 17);
}
