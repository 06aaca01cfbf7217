use vm::local_vars::LocalVars;
use vm::heap::RawPtr;
use vm::JvmValue;

#[test]
fn test_set_get_int() {
    let mut locals = LocalVars::new(10);
    locals.set_int(0, 42);
    assert_eq!(locals.get_int(0), 42);
}

#[test]
fn test_multiple_variables() {
    let mut locals = LocalVars::new(10);
    locals.set_int(0, 1);
    locals.set_int(1, 2);
    locals.set_int(2, 3);
    assert_eq!(locals.get_int(0), 1);
    assert_eq!(locals.get_int(1), 2);
    assert_eq!(locals.get_int(2), 3);
}

#[test]
fn new_locals_are_null() {
    let locals = LocalVars::new(3);
    assert_eq!(locals.max_locals(), 3);
    assert_eq!(locals.get(2), JvmValue::Null);
    assert_eq!(locals.get_obj_ref(1), RawPtr(0));
}

#[test]
fn set_int_keeps_other_slots() {
    let mut locals = LocalVars::new(4);
    locals.set_obj_ref(1, RawPtr(64));
    locals.set_int(2, -7);
    assert_eq!(locals.get_obj_ref(1), RawPtr(64));
    assert_eq!(locals.get_int(2), -7);
    assert_eq!(locals.get(0), JvmValue::Null);
}
