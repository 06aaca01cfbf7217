use vm::class_loader::ClassPath;
use vm::classfile::{AttributeInfo, ClassFile, CpInfo, MethodInfo};
use vm::error::JvmError;
use vm::native_method::PrintItem;
use vm::vm::Vm;
use vm::JvmValue;

fn utf8(s: &str) -> CpInfo {
    CpInfo::Utf8 { bytes: s.to_string() }
}

fn method(access_flags: u16, name_index: u16, descriptor_index: u16, code: Vec<u8>, max_locals: u16) -> MethodInfo {
    let n = code.len() as u32;
    MethodInfo {
        access_flags,
        name_index,
        descriptor_index,
        attributes: vec![AttributeInfo::Code {
            attribute_name_index: 5,
            attribute_length: 12 + n,
            max_stack: 4,
            max_locals,
            code_length: n,
            code,
            exception_table_length: 0,
            exception_table: vec![],
            attributes_count: 0,
        }],
    }
}

/// A class `Calc` with `static int add(int, int)`, `static int div(int,
/// int)`, `static void loop()` that never ends, and `static void hello()`
/// that prints through `PrintStream.println`, and `static int sum()` that
/// calls `add(2, 40)` and adds one to what it returns.
fn calc_class() -> ClassFile {
    ClassFile {
        constant_pool: vec![
            utf8("Calc"),
            CpInfo::Class { name_index: 1 },
            utf8("add"),
            utf8("(II)I"),
            utf8("Code"),
            utf8("div"),
            utf8("loop"),
            utf8("()V"),
            utf8("java/io/PrintStream"),
            CpInfo::Class { name_index: 9 },
            utf8("println"),
            utf8("(I)V"),
            CpInfo::NameAndType { name_index: 11, descriptor_index: 12 },
            CpInfo::MethodRef { class_index: 10, name_and_type_index: 13 },
            utf8("hello"),
            CpInfo::NameAndType { name_index: 3, descriptor_index: 4 },
            CpInfo::MethodRef { class_index: 2, name_and_type_index: 16 },
            utf8("sum"),
            utf8("()I"),
        ],
        access_flags: 0x0021,
        this_class: 2,
        super_class: 0,
        fields: vec![],
        methods: vec![
            method(0x0009, 3, 4, vec![0x1a, 0x1b, 0x60, 0xac], 2),
            method(0x0009, 6, 4, vec![0x1a, 0x1b, 0x6c, 0xac], 2),
            method(0x0009, 7, 8, vec![0xa7, 0x00, 0x00], 0),
            method(0x0009, 15, 8, vec![0x10, 42, 0xb8, 0x00, 0x0e, 0xb1], 0),
            method(0x0009, 18, 19, vec![0x10, 2, 0x10, 40, 0xb8, 0x00, 0x11, 0x04, 0x60, 0xac], 0),
        ],
    }
}

fn calc_vm() -> Vm {
    let mut path = ClassPath::new();
    path.add_class(calc_class()).unwrap();
    Vm::new(path)
}

#[test]
fn dispatch_runs_a_static_method() {
    let mut vm = calc_vm();
    let r = vm.dispatch_method_call("LCalc;", "add", "(II)I", vec![JvmValue::Int(2), JvmValue::Int(40)]);
    assert_eq!(r.unwrap(), Some(JvmValue::Int(42)));
}

#[test]
fn dispatch_reports_division_by_zero() {
    let mut vm = calc_vm();
    let r = vm.dispatch_method_call("LCalc;", "div", "(II)I", vec![JvmValue::Int(2), JvmValue::Int(0)]);
    assert!(matches!(r, Err(JvmError::ArithmeticError(_))));
    let r = vm.dispatch_method_call("LCalc;", "div", "(II)I", vec![JvmValue::Int(-7i32 as u32), JvmValue::Int(2)]);
    assert_eq!(r.unwrap(), Some(JvmValue::Int(-3i32 as u32)));
}

#[test]
fn dispatch_stops_an_endless_method() {
    let mut vm = calc_vm();
    match vm.dispatch_method_call("LCalc;", "loop", "()V", vec![]) {
        Err(JvmError::IllegalStateError(m)) => assert_eq!(m, "Method execution exceeded maximum steps: 10000"),
        other => panic!("unexpected {:?}", other),
    }
}

#[test]
fn dispatch_of_a_missing_method_fails() {
    let mut vm = calc_vm();
    match vm.dispatch_method_call("LCalc;", "mul", "(II)I", vec![]) {
        Err(JvmError::IllegalStateError(m)) => assert_eq!(m, "Method LCalc;.mul(II)I not found"),
        other => panic!("unexpected {:?}", other),
    }
}

#[test]
fn nested_static_call_prints() {
    let mut vm = calc_vm();
    assert_eq!(vm.dispatch_method_call("LCalc;", "hello", "()V", vec![]).unwrap(), None);
    let out = vm.take_output();
    assert_eq!(out.len(), 1);
    assert!(matches!(&out[0], PrintItem::Text(t) if t == "42"));
}

#[test]
fn method_lookup_finds_declared_methods() {
    let mut vm = calc_vm();
    let k = vm.load("LCalc;").unwrap();
    let m = k.lookup_method("add", "(II)I", &mut vm).unwrap();
    assert_eq!(m.get_name(), "add");
    assert!(k.lookup_method("add", "(I)I", &mut vm).is_none());
    assert!(k.lookup_method("<init>", "()V", &mut vm).is_none());
}

#[test]
fn dispatched_method_goes_on_after_a_static_call() {
    let mut vm = calc_vm();
    let r = vm.dispatch_method_call("LCalc;", "sum", "()I", vec![]);
    assert_eq!(r.unwrap(), Some(JvmValue::Int(43)));
}
