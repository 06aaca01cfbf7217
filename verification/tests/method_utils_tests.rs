use vm::heap::RawPtr;
use vm::instructions::method_utils::{
    handle_special_method_call, parse_method_descriptor, pop_arguments, push_return_value,
};
use vm::jvm_thread::Frame;
use vm::local_vars::LocalVars;
use vm::method::Method;
use vm::native_method::PrintItem;
use vm::operand_stack::OperandStack;
use vm::JvmValue;

fn test_frame() -> Frame {
    let method = Method::new("test".to_string(), "()V".to_string(), 0, vec![], 10, 10);
    Frame {
        pc: 0,
        stack: OperandStack::new(10),
        local_vars: LocalVars::new(10),
        method,
    }
}

#[test]
fn test_parse_method_descriptor() {
    assert_eq!(parse_method_descriptor("()V"), Vec::<String>::new());
    assert_eq!(parse_method_descriptor("(I)V"), vec!["I"]);
    assert_eq!(parse_method_descriptor("(Ljava/lang/String;)V"), vec!["Ljava/lang/String;"]);
    assert_eq!(parse_method_descriptor("(II)V"), vec!["I", "I"]);
    assert_eq!(parse_method_descriptor("(ILjava/lang/String;Z)V"), vec!["I", "Ljava/lang/String;", "Z"]);
    assert_eq!(parse_method_descriptor("([I)V"), vec!["[I"]);
    assert_eq!(parse_method_descriptor("([Ljava/lang/String;)V"), vec!["[Ljava/lang/String;"]);
}

#[test]
fn test_pop_arguments() {
    let mut frame = test_frame();
    frame.stack.push_int(42);
    frame.stack.push_int(100);
    frame.stack.push_obj_ref(RawPtr(0));
    let param_types = vec!["I".to_string(), "I".to_string(), "Ljava/lang/Object;".to_string()];
    let args = pop_arguments(&mut frame, &param_types);
    assert_eq!(args.len(), 3);
    assert_eq!(args[0], JvmValue::Int(42));
    assert_eq!(args[1], JvmValue::Int(100));
    assert_eq!(args[2], JvmValue::ObjRef(RawPtr(0)));
}

#[test]
fn test_push_return_value() {
    let mut frame = test_frame();
    push_return_value(&mut frame, Some(JvmValue::Int(42)));
    assert_eq!(frame.stack.pop_int(), 42);
    push_return_value(&mut frame, Some(JvmValue::Long(0x123456789ABCDEF0)));
    assert_eq!(frame.stack.pop_int(), 0x9ABCDEF0u32 as i32);
    assert_eq!(frame.stack.pop_int(), 0x12345678u32 as i32);
    let test_ptr = RawPtr(0);
    push_return_value(&mut frame, Some(JvmValue::ObjRef(test_ptr)));
    assert_eq!(frame.stack.pop_obj_ref(), test_ptr);
}

#[test]
fn test_handle_special_method_call() {
    let mut frame = test_frame();
    let mut printed: Vec<PrintItem> = Vec::new();
    let args = vec![JvmValue::Int(42)];
    let result = handle_special_method_call("java/io/PrintStream", "println", &args, &mut frame, 0, &mut printed);
    assert_eq!(result, Some(true));
    let args = vec![];
    let result = handle_special_method_call("java/lang/System", "currentTimeMillis", &args, &mut frame, 1_700_000_000_000, &mut printed);
    assert_eq!(result, Some(true));
    assert!(!frame.stack.is_values_empty());
    let args = vec![JvmValue::Int(42)];
    let result = handle_special_method_call("unknown/Class", "unknownMethod", &args, &mut frame, 0, &mut printed);
    assert_eq!(result, None);
}

#[test]
fn special_println_prints_the_first_argument() {
    let mut frame = test_frame();
    let mut printed: Vec<PrintItem> = Vec::new();
    handle_special_method_call("java/io/PrintStream", "println", &[JvmValue::Int(42)], &mut frame, 0, &mut printed);
    handle_special_method_call("java/io/PrintStream", "println", &[JvmValue::Boolean(1)], &mut frame, 0, &mut printed);
    handle_special_method_call("java/io/PrintStream", "println", &[], &mut frame, 0, &mut printed);
    assert_eq!(printed.len(), 3);
    assert!(matches!(&printed[0], PrintItem::Text(t) if t == "42"));
    assert!(matches!(&printed[1], PrintItem::Text(t) if t == "true"));
    assert!(matches!(&printed[2], PrintItem::Text(t) if t.is_empty()));
}

#[test]
fn current_time_millis_pushes_high_then_low() {
    let mut frame = test_frame();
    let mut printed: Vec<PrintItem> = Vec::new();
    handle_special_method_call("java/lang/System", "currentTimeMillis", &[], &mut frame, 0x0000_0001_0000_0002, &mut printed);
    assert_eq!(frame.stack.pop_int(), 2);
    assert_eq!(frame.stack.pop_int(), 1);
}

#[test]
fn missing_arguments_read_as_zero_and_null() {
    let mut frame = test_frame();
    let param_types = vec!["I".to_string(), "Ljava/lang/Object;".to_string(), "J".to_string()];
    let args = pop_arguments(&mut frame, &param_types);
    assert_eq!(args, vec![JvmValue::Int(0), JvmValue::Null, JvmValue::Long(0)]);
}

#[test]
fn long_argument_takes_two_ints() {
    let mut frame = test_frame();
    frame.stack.push_int(1);
    frame.stack.push_int(2);
    let args = pop_arguments(&mut frame, &["J".to_string()]);
    assert_eq!(args, vec![JvmValue::Long(0x1_0000_0002)]);
}

#[test]
fn pushed_return_value_pops_back_as_argument() {
    let mut frame = test_frame();
    frame.stack.push_int(7);
    push_return_value(&mut frame, Some(JvmValue::Long(0x123456789ABCDEF0)));
    let args = pop_arguments(&mut frame, &["J".to_string()]);
    assert_eq!(args, vec![JvmValue::Long(0x123456789ABCDEF0)]);
    push_return_value(&mut frame, Some(JvmValue::Int(0xFFFF_FFFE)));
    let args = pop_arguments(&mut frame, &["I".to_string()]);
    assert_eq!(args, vec![JvmValue::Int(0xFFFF_FFFE)]);
    push_return_value(&mut frame, Some(JvmValue::ObjRef(RawPtr(64))));
    let args = pop_arguments(&mut frame, &["[I".to_string()]);
    assert_eq!(args, vec![JvmValue::ObjRef(RawPtr(64))]);
    assert_eq!(frame.stack.values_len(), 1);
    assert_eq!(frame.stack.pop_int(), 7);
    assert!(frame.stack.is_obj_refs_empty());
}
