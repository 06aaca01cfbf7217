use vm::class_loader::ClassPath;
use vm::error::JvmError;
use vm::heap::{Heap, RawPtr};
use vm::jvm_thread::{static_param_types, JvmThread};
use vm::method::Method;
use vm::native_method::PrintItem;
use vm::vm::Vm;
use vm::classfile::CpInfo::{Class, MethodRef, NameAndType};
use vm::classfile::{AttributeInfo, ClassFile, MethodInfo};
use vm::JvmValue;

fn create_test_method(code: Vec<u8>, max_stack: usize, max_locals: usize) -> Method {
    Method::new("test".to_string(), "()V".to_string(), 0, code, max_stack, max_locals)
}

fn new_vm() -> Vm {
    Vm::new(ClassPath::new())
}

#[test]
fn test_iconst_instructions() {
    let mut heap = Heap::with_maximum_memory(1024);
    let mut vm = new_vm();
    let mut thread = JvmThread::new(10, 10);
    let code = vec![0x03, 0x04, 0x05, 0x06, 0x07, 0x08];
    let method = create_test_method(code, 10, 10);
    thread.execute(&method, &mut heap, &mut vm).unwrap();
    assert_eq!(thread.frames[0].stack.pop_int(), 5);
    assert_eq!(thread.frames[0].stack.pop_int(), 4);
    assert_eq!(thread.frames[0].stack.pop_int(), 3);
    assert_eq!(thread.frames[0].stack.pop_int(), 2);
    assert_eq!(thread.frames[0].stack.pop_int(), 1);
    assert_eq!(thread.frames[0].stack.pop_int(), 0);
}

#[test]
fn test_bipush() {
    let mut heap = Heap::with_maximum_memory(1024);
    let mut vm = new_vm();
    let mut thread = JvmThread::new(10, 10);
    let code = vec![0x10, 42];
    let method = create_test_method(code, 10, 10);
    thread.execute(&method, &mut heap, &mut vm).unwrap();
    assert_eq!(thread.frames[0].stack.pop_int(), 42);
}

#[test]
fn test_arithmetic_instructions() {
    let mut heap = Heap::with_maximum_memory(1024);
    let mut vm = new_vm();
    let mut thread = JvmThread::new(10, 10);
    let code = vec![
        0x10, 10,
        0x10, 5,
        0x60,
        0x10, 3,
        0x61,
        0x10, 2,
        0x62,
    ];
    let method = create_test_method(code, 10, 10);
    thread.execute(&method, &mut heap, &mut vm).unwrap();
    assert_eq!(thread.frames[0].stack.pop_int(), 24);
}

#[test]
fn test_division_by_zero() {
    let mut heap = Heap::with_maximum_memory(1024);
    let mut vm = new_vm();
    let mut thread = JvmThread::new(10, 10);
    let code = vec![
        0x10, 10,
        0x10, 0,
        0x63,
    ];
    let method = create_test_method(code, 10, 10);
    match thread.execute(&method, &mut heap, &mut vm) {
        Err(JvmError::ArithmeticError(_)) => (),
        _ => panic!("Expected ArithmeticError"),
    }
}

#[test]
fn test_local_variables() {
    let mut heap = Heap::with_maximum_memory(1024);
    let mut vm = new_vm();
    let mut thread = JvmThread::new(10, 10);
    let code = vec![
        0x10, 42,
        0x36, 0,
        0x15, 0,
        0x10, 1,
        0x60,
        0x36, 1,
    ];
    let method = create_test_method(code, 10, 10);
    thread.execute(&method, &mut heap, &mut vm).unwrap();
    assert_eq!(thread.frames[0].local_vars.get_int(0), 42);
    assert_eq!(thread.frames[0].local_vars.get_int(1), 43);
}

#[test]
fn test_conditional_jump() {
    let mut heap = Heap::with_maximum_memory(1024);
    let mut vm = new_vm();
    let mut thread = JvmThread::new(10, 10);
    let code = vec![
        0x10, 0,
        0x99, 0, 3,
        0x10, 1,
        0x10, 2,
    ];
    let method = create_test_method(code, 10, 10);
    thread.execute(&method, &mut heap, &mut vm).unwrap();
    assert_eq!(thread.frames[0].stack.pop_int(), 2);
}

#[test]
fn test_static_field_storage() {
    let mut vm = new_vm();
    let _thread = JvmThread::new(10, 10);
    vm.set_static_field("TestClass", "staticField", JvmValue::Int(42));
    let field_value = vm.get_static_field("TestClass", "staticField");
    assert!(field_value.is_some());
    if let Some(JvmValue::Int(value)) = field_value {
        assert_eq!(value, 42);
    } else {
        panic!("Expected Int value");
    }
}

#[test]
fn stack_underflow_is_reported() {
    let mut heap = Heap::with_maximum_memory(1024);
    let mut vm = new_vm();
    let mut thread = JvmThread::new(10, 10);
    let method = create_test_method(vec![0x60], 10, 10);
    match thread.execute(&method, &mut heap, &mut vm) {
        Err(JvmError::IllegalStateError(_)) => (),
        other => panic!("unexpected {:?}", other),
    }
}

#[test]
fn full_stack_is_reported() {
    let mut heap = Heap::with_maximum_memory(1024);
    let mut vm = new_vm();
    let mut thread = JvmThread::new(1, 1);
    let method = create_test_method(vec![0x03, 0x04], 1, 1);
    match thread.execute(&method, &mut heap, &mut vm) {
        Err(JvmError::StackOverflowError(_)) => (),
        other => panic!("unexpected {:?}", other),
    }
}

#[test]
fn unknown_opcode_is_reported() {
    let mut heap = Heap::with_maximum_memory(1024);
    let mut vm = new_vm();
    let mut thread = JvmThread::new(10, 10);
    let method = create_test_method(vec![0xff], 10, 10);
    match thread.execute(&method, &mut heap, &mut vm) {
        Err(JvmError::IllegalStateError(m)) => assert_eq!(m, "Unknown opcode: 0xff"),
        other => panic!("unexpected {:?}", other),
    }
}

#[test]
fn division_follows_java() {
    let mut heap = Heap::with_maximum_memory(1024);
    let mut vm = new_vm();
    let mut thread = JvmThread::new(10, 10);
    let method = create_test_method(vec![0x10, 0xf9, 0x10, 2, 0x63], 10, 10);
    thread.execute(&method, &mut heap, &mut vm).unwrap();
    assert_eq!(thread.frames[0].stack.pop_int(), -3);
}

#[test]
fn return_stops_the_run() {
    let mut heap = Heap::with_maximum_memory(1024);
    let mut vm = new_vm();
    let mut thread = JvmThread::new(10, 10);
    let method = create_test_method(vec![0x04, 0xb1, 0x05], 10, 10);
    thread.execute(&method, &mut heap, &mut vm).unwrap();
    assert_eq!(thread.frames[0].stack.pop_int(), 1);
    assert!(thread.frames[0].stack.is_values_empty());
}

#[test]
fn println_of_a_static_int_goes_to_the_output() {
    let mut heap = Heap::with_maximum_memory(1024);
    let mut vm = new_vm();
    let mut thread = JvmThread::new(10, 10);
    let utf8 = |s: &str| vm::classfile::CpInfo::Utf8 { bytes: s.to_string() };
    let cp = vec![
        utf8("java/io/PrintStream"),
        vm::classfile::CpInfo::Class { name_index: 1 },
        utf8("println"),
        utf8("(I)V"),
        vm::classfile::CpInfo::NameAndType { name_index: 3, descriptor_index: 4 },
        vm::classfile::CpInfo::MethodRef { class_index: 2, name_and_type_index: 5 },
    ];
    let mut method = create_test_method(vec![0x01, 0x10, 7, 0xb6, 0, 6], 10, 10);
    method.constant_pool = cp;
    thread.execute(&method, &mut heap, &mut vm).unwrap();
    let out = vm.take_output();
    assert_eq!(out.len(), 1);
    assert!(matches!(&out[0], PrintItem::Text(t) if t == "7"));
}

#[test]
fn static_call_parameters_are_read_as_the_interpreter_reads_them() {
    assert_eq!(static_param_types("(ILjava/lang/String;)I"), vec!["I", "Ljava/lang/String;"]);
    assert_eq!(static_param_types("([I)V"), vec!["[I"]);
    assert_eq!(static_param_types("([[Ljava/lang/String;J)V"), vec!["[[Ljava/lang/String;", "J"]);
    assert_eq!(static_param_types("()V"), Vec::<String>::new());
    assert_eq!(static_param_types("V"), Vec::<String>::new());
}

#[test]
fn areturn_hands_the_reference_to_the_caller() {
    let mut heap = Heap::with_maximum_memory(1024);
    let mut vm = new_vm();
    let mut thread = JvmThread::new(10, 10);
    let callee = JvmThread::new(10, 10).frames.remove(0);
    thread.frames.insert(0, callee);
    thread.frames[0].stack.push_obj_ref(RawPtr(40));
    let method = create_test_method(vec![0xb0], 10, 10);
    thread.execute(&method, &mut heap, &mut vm).unwrap();
    assert_eq!(thread.frames.len(), 1);
    assert_eq!(thread.frames[0].stack.pop_obj_ref(), RawPtr(40));
}

#[test]
fn string_builder_text_reaches_println() {
    let mut heap = Heap::with_maximum_memory(1024);
    let mut vm = new_vm();
    let mut thread = JvmThread::new(10, 10);
    let utf8 = |s: &str| vm::classfile::CpInfo::Utf8 { bytes: s.to_string() };
    let cp = vec![
        utf8("java/lang/StringBuilder"),
        Class { name_index: 1 },
        utf8("append"),
        utf8("(I)Ljava/lang/StringBuilder;"),
        NameAndType { name_index: 3, descriptor_index: 4 },
        MethodRef { class_index: 2, name_and_type_index: 5 },
        utf8("toString"),
        utf8("()Ljava/lang/String;"),
        NameAndType { name_index: 7, descriptor_index: 8 },
        MethodRef { class_index: 2, name_and_type_index: 9 },
        utf8("java/io/PrintStream"),
        Class { name_index: 11 },
        utf8("println"),
        utf8("(Ljava/lang/String;)V"),
        NameAndType { name_index: 13, descriptor_index: 14 },
        MethodRef { class_index: 12, name_and_type_index: 15 },
        utf8("builder"),
        vm::classfile::CpInfo::String { string_index: 17 },
    ];
    let code = vec![0x12, 18, 0x10, 0xf9, 0xb6, 0, 6, 0xb6, 0, 10, 0xb6, 0, 16];
    let mut method = create_test_method(code, 10, 10);
    method.constant_pool = cp;
    thread.execute(&method, &mut heap, &mut vm).unwrap();
    let out = vm.take_output();
    assert_eq!(out.len(), 1);
    assert!(matches!(&out[0], PrintItem::Text(t) if t == "-7"));
}

#[test]
fn string_constant_reaches_println() {
    let mut heap = Heap::with_maximum_memory(1024);
    let mut vm = new_vm();
    let mut thread = JvmThread::new(10, 10);
    let utf8 = |s: &str| vm::classfile::CpInfo::Utf8 { bytes: s.to_string() };
    let cp = vec![
        utf8("java/io/PrintStream"),
        Class { name_index: 1 },
        utf8("println"),
        utf8("(Ljava/lang/String;)V"),
        NameAndType { name_index: 3, descriptor_index: 4 },
        MethodRef { class_index: 2, name_and_type_index: 5 },
        utf8("Hello, world"),
        vm::classfile::CpInfo::String { string_index: 7 },
    ];
    let mut method = create_test_method(vec![0x12, 8, 0xb6, 0, 6], 10, 10);
    method.constant_pool = cp;
    thread.execute(&method, &mut heap, &mut vm).unwrap();
    let out = vm.take_output();
    assert_eq!(out.len(), 1);
    assert!(matches!(&out[0], PrintItem::Text(t) if t == "Hello, world"));
    assert!(thread.frames[0].stack.is_obj_refs_empty());
}

#[test]
fn newarray_pushes_a_fresh_array() {
    let mut heap = Heap::with_maximum_memory(1024);
    let mut vm = new_vm();
    let mut thread = JvmThread::new(10, 10);
    let method = create_test_method(vec![0x06, 0xbc, 10], 10, 10);
    thread.execute(&method, &mut heap, &mut vm).unwrap();
    assert!(thread.frames[0].stack.is_values_empty());
    let arr = thread.frames[0].stack.pop_obj_ref();
    assert!(!arr.is_null());
    assert_eq!(arr.0 % 8, 0);
}

#[test]
fn newarray_with_a_negative_count_fails() {
    let mut heap = Heap::with_maximum_memory(1024);
    let mut vm = new_vm();
    let mut thread = JvmThread::new(10, 10);
    let method = create_test_method(vec![0x02, 0xbc, 10], 10, 10);
    let r = thread.execute(&method, &mut heap, &mut vm);
    assert!(matches!(r, Err(JvmError::IllegalStateError(_))));
}

#[test]
fn new_of_an_unknown_class_fails() {
    let mut heap = Heap::with_maximum_memory(1024);
    let mut vm = new_vm();
    let mut thread = JvmThread::new(10, 10);
    let cp = vec![vm::classfile::CpInfo::Utf8 { bytes: "Missing".to_string() }, Class { name_index: 1 }];
    let mut method = create_test_method(vec![0xbb, 0, 2], 10, 10);
    method.constant_pool = cp;
    let r = thread.execute(&method, &mut heap, &mut vm);
    assert!(matches!(r, Err(JvmError::ClassNotFoundError(_))));
}

/// A class `C` with `static void f(int[])` that returns at once.
fn array_taker_vm() -> Vm {
    let utf8 = |s: &str| vm::classfile::CpInfo::Utf8 { bytes: s.to_string() };
    let class = ClassFile {
        constant_pool: vec![utf8("C"), Class { name_index: 1 }, utf8("f"), utf8("([I)V"), utf8("Code")],
        access_flags: 0x0021,
        this_class: 2,
        super_class: 0,
        fields: vec![],
        methods: vec![MethodInfo {
            access_flags: 0x0009,
            name_index: 3,
            descriptor_index: 4,
            attributes: vec![AttributeInfo::Code {
                attribute_name_index: 5,
                attribute_length: 13,
                max_stack: 2,
                max_locals: 1,
                code_length: 1,
                code: vec![0xb1],
                exception_table_length: 0,
                exception_table: vec![],
                attributes_count: 0,
            }],
        }],
    };
    let mut path = ClassPath::new();
    path.add_class(class).unwrap();
    Vm::new(path)
}

#[test]
fn static_call_with_an_array_parameter_takes_one_reference() {
    let mut heap = Heap::with_maximum_memory(1024);
    let mut vm = array_taker_vm();
    let mut thread = JvmThread::new(10, 10);
    let utf8 = |s: &str| vm::classfile::CpInfo::Utf8 { bytes: s.to_string() };
    let cp = vec![
        utf8("C"),
        Class { name_index: 1 },
        utf8("f"),
        utf8("([I)V"),
        NameAndType { name_index: 3, descriptor_index: 4 },
        MethodRef { class_index: 2, name_and_type_index: 5 },
    ];
    let mut method = create_test_method(vec![0x08, 0x05, 0xbc, 10, 0xb8, 0, 6], 10, 10);
    method.constant_pool = cp;
    thread.execute(&method, &mut heap, &mut vm).unwrap();
    assert_eq!(thread.frames.len(), 1);
    assert!(thread.frames[0].stack.is_obj_refs_empty());
    assert_eq!(thread.frames[0].stack.pop_int(), 5);
}
