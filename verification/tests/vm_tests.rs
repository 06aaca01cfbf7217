use vm::class_loader::ClassPath;
use vm::error::JvmError;
use vm::heap::RawPtr;
use vm::jvm_thread::Frame;
use vm::local_vars::LocalVars;
use vm::logger::Logger;
use vm::method::Method;
use vm::native_method::{extract_string_content, PrintItem};
use vm::operand_stack::OperandStack;
use vm::stack::Stack;
use vm::vm::Vm;
use vm::JvmValue;

fn new_vm() -> Vm {
    Vm::new(ClassPath::new())
}

fn text_of(item: &PrintItem) -> String {
    match item {
        PrintItem::Text(t) => t.clone(),
        other => panic!("not text: {:?}", other),
    }
}

#[test]
fn string_objects_read_back_their_text() {
    let mut vm = new_vm();
    let p = vm.create_string_object("héllo, wörld 😀").unwrap();
    assert_ne!(p, RawPtr(0));
    assert_eq!(vm.string_text(p), Some("héllo, wörld 😀".to_string()));
    assert_eq!(extract_string_content(vm.heap(), p).unwrap(), "héllo, wörld 😀");
}

#[test]
fn two_string_objects_keep_their_own_text() {
    let mut vm = new_vm();
    let a = vm.create_string_object("first").unwrap();
    let b = vm.create_string_object("second").unwrap();
    assert_ne!(a, b);
    assert_eq!(extract_string_content(vm.heap(), a).unwrap(), "first");
    assert_eq!(extract_string_content(vm.heap(), b).unwrap(), "second");
}

#[test]
fn println_prints_a_string_object() {
    let mut vm = new_vm();
    let p = vm.create_string_object("hi").unwrap();
    let r = vm.call_native_method("java/lang/System.out", "println", vec![JvmValue::ObjRef(p)]);
    assert!(matches!(r, Ok(None)));
    let out = vm.take_output();
    assert_eq!(out.len(), 1);
    assert_eq!(text_of(&out[0]), "hi");
    assert!(vm.output().is_empty());
}

#[test]
fn println_prints_numbers_and_null() {
    let mut vm = new_vm();
    vm.call_native_method("java/lang/System.out", "println", vec![JvmValue::Int(12345)]).unwrap();
    vm.call_native_method("java/lang/System.out", "println", vec![JvmValue::Null]).unwrap();
    vm.call_native_method("java/lang/System.out", "println", vec![JvmValue::Char(65)]).unwrap();
    let out = vm.take_output();
    assert_eq!(text_of(&out[0]), "12345");
    assert_eq!(text_of(&out[1]), "null");
    assert_eq!(text_of(&out[2]), "A");
}

#[test]
fn unknown_native_method_is_an_error() {
    let mut vm = new_vm();
    match vm.call_native_method("a/B", "c", vec![]) {
        Err(JvmError::IllegalStateError(m)) => assert_eq!(m, "Native method not found: a/B.c"),
        other => panic!("unexpected {:?}", other),
    }
    assert!(vm.output().is_empty());
}

#[test]
fn static_fields_read_back_the_last_write() {
    let mut vm = new_vm();
    assert_eq!(vm.get_static_field("A", "x"), None);
    vm.set_static_field("A", "x", JvmValue::Int(1));
    vm.set_static_field("A", "y", JvmValue::Int(2));
    vm.set_static_field("A", "x", JvmValue::Int(3));
    assert_eq!(vm.get_static_field("A", "x"), Some(JvmValue::Int(3)));
    assert_eq!(vm.get_static_field("A", "y"), Some(JvmValue::Int(2)));
    assert_eq!(vm.get_static_field("B", "x"), None);
}

#[test]
fn string_builders_append_text() {
    let mut vm = new_vm();
    let b = RawPtr(4096);
    assert_eq!(vm.string_builder_text(b), "");
    vm.append_to_string_builder(b, "ab");
    vm.append_to_string_builder(b, "-42");
    assert_eq!(vm.string_builder_text(b), "ab-42");
    assert_eq!(vm.string_builder_text(RawPtr(8192)), "");
}

#[test]
fn arrays_of_known_types_are_made() {
    let mut vm = new_vm();
    let p = vm.create_simple_array(3, 10).unwrap();
    assert_ne!(p, RawPtr(0));
    assert!(vm.create_simple_array(3, 3).is_err());
}

#[test]
fn missing_class_is_not_found() {
    let mut vm = new_vm();
    assert!(vm.load("LMissing;").is_err());
    match vm.dispatch_method_call("Missing", "run", "()V", vec![]) {
        Err(JvmError::ClassNotFoundError(m)) => assert!(m.starts_with("Failed to load class Missing")),
        other => panic!("unexpected {:?}", other),
    }
}

#[test]
fn special_calls_use_the_clock() {
    let mut vm = new_vm();
    vm.set_current_time_millis(0x0000_0002_0000_0005);
    let method = Method::new("t".to_string(), "()V".to_string(), 0, vec![], 4, 1);
    let mut frame = Frame { pc: 0, stack: OperandStack::new(4), local_vars: LocalVars::new(1), method };
    assert_eq!(vm.special_call("java/lang/System", "currentTimeMillis", &[], &mut frame), Some(true));
    assert_eq!(frame.stack.pop_int(), 5);
    assert_eq!(frame.stack.pop_int(), 2);
    assert_eq!(vm.special_call("x/Y", "z", &[], &mut frame), None);
}

#[test]
fn logger_switches() {
    let mut logger = Logger::new();
    assert!(logger.is_enabled());
    logger.disable();
    assert!(!logger.is_enabled());
    logger.enable();
    assert!(logger.is_enabled());
}

#[test]
fn value_stack_frames() {
    let mut stack = Stack::new();
    let method = Method::new("m".to_string(), "(Ljava/lang/Object;)V".to_string(), 0, vec![], 4, 4);
    let mut vm = new_vm();
    let class = vm.load("[I").unwrap();
    stack.add_frame(Some(RawPtr(16)), method, class, vec![RawPtr(32)]);
    let frame = stack.cur_frame();
    assert_eq!(frame.get_local(0), JvmValue::ObjRef(RawPtr(16)));
    assert_eq!(frame.get_local(1), JvmValue::ObjRef(RawPtr(32)));
    assert_eq!(frame.get_local(2), JvmValue::Null);
    assert_eq!(frame.get_local(3), JvmValue::Null);
    assert!(frame.peek_value().is_none());
    frame.push_value(JvmValue::Int(9));
    assert_eq!(frame.peek_value(), Some(&JvmValue::Int(9)));
    assert_eq!(frame.pop_value(), JvmValue::Int(9));
    frame.set_local(3, JvmValue::Long(1));
    assert_eq!(frame.get_local(3), JvmValue::Long(1));
    assert_eq!(frame.get_cur_method().name, "m");
    stack.pop_frame();
    stack.pop_frame();
}
