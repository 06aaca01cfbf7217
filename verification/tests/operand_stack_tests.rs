use vm::operand_stack::OperandStack;
use vm::heap::RawPtr;

#[test]
fn test_push_pop_int() {
    let mut stack = OperandStack::new(10);
    stack.push_int(42);
    assert_eq!(stack.pop_int(), 42);
}

#[test]
fn test_push_null() {
    let mut stack = OperandStack::new(10);
    stack.push_null();
    assert_eq!(stack.pop_int(), 0);
}

#[test]
fn ints_and_references_are_kept_apart() {
    let mut stack = OperandStack::new(4);
    stack.push_int(1);
    stack.push_obj_ref(RawPtr(24));
    stack.push_int(2);
    assert_eq!(stack.values_len(), 2);
    assert_eq!(stack.obj_refs_len(), 1);
    assert_eq!(stack.peek_obj_ref(), RawPtr(24));
    assert_eq!(stack.pop_int(), 2);
    assert_eq!(stack.pop_obj_ref(), RawPtr(24));
    assert_eq!(stack.pop_int(), 1);
    assert!(stack.is_empty());
}

#[test]
fn swap_top_two_ints() {
    let mut stack = OperandStack::new(4);
    stack.push_int(1);
    stack.push_int(2);
    stack.swap_top_two_ints();
    assert_eq!(stack.pop_int(), 1);
    assert_eq!(stack.pop_int(), 2);
}
