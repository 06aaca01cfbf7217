use vm::class_loader::ClassPath;
use vm::classfile::{ClassFile, CpInfo, FieldInfo};
use vm::error::JvmError;
use vm::heap::RawPtr;
use vm::instructions::array_ops::{exec_arraylength, exec_iaload, exec_iastore, exec_newarray};
use vm::instructions::field_ops::{exec_getstatic, exec_putstatic};
use vm::instructions::invokespecial::exec_invokespecial;
use vm::instructions::invokestatic::exec_invokestatic;
use vm::instructions::invokevirtual::exec_invokevirtual;
use vm::instructions::ldc_ops::{exec_ldc, exec_ldc2_w, exec_ldc_w, exec_sipush};
use vm::instructions::object_ops::{exec_getfield, exec_new, exec_putfield};
use vm::jvm_thread::Frame;
use vm::local_vars::LocalVars;
use vm::method::Method;
use vm::native_method::{extract_string_content, PrintItem};
use vm::operand_stack::OperandStack;
use vm::vm::Vm;
use vm::JvmValue;

fn utf8(s: &str) -> CpInfo {
    CpInfo::Utf8 { bytes: s.to_string() }
}

/// A constant pool with a method reference at 6 (`c.n` with descriptor
/// `d`), a field reference at 10 (`fc.fname` of type `fdesc`), an int at 11,
/// a string at 12, a long at 13 and a class at 14 (`fc`).
fn pool(c: &str, n: &str, d: &str, fc: &str, fname: &str, fdesc: &str) -> Vec<CpInfo> {
    vec![
        utf8(c),
        CpInfo::Class { name_index: 1 },
        utf8(n),
        utf8(d),
        CpInfo::NameAndType { name_index: 3, descriptor_index: 4 },
        CpInfo::MethodRef { class_index: 2, name_and_type_index: 5 },
        utf8(fc),
        CpInfo::Class { name_index: 7 },
        CpInfo::NameAndType { name_index: 15, descriptor_index: 16 },
        CpInfo::FieldRef { class_index: 8, name_and_type_index: 9 },
        CpInfo::Integer { bytes: 0xFFFF_FFFE },
        CpInfo::String { string_index: 17 },
        CpInfo::Long { high_bytes: 7, low_bytes: 9 },
        CpInfo::Class { name_index: 7 },
        utf8(fname),
        utf8(fdesc),
        utf8("constant text"),
    ]
}

fn frame_with(cp: Vec<CpInfo>) -> Frame {
    let mut method = Method::new("t".to_string(), "()V".to_string(), 0, vec![], 8, 4);
    method.constant_pool = cp;
    Frame { pc: 0, stack: OperandStack::new(8), local_vars: LocalVars::new(4), method }
}

fn plain_frame() -> Frame {
    frame_with(pool("A", "m", "()V", "F", "x", "I"))
}

#[test]
fn sipush_reads_a_signed_short() {
    let mut frame = plain_frame();
    exec_sipush(&mut frame, &[0xff, 0x38], None).unwrap();
    assert_eq!(frame.pc, 2);
    assert_eq!(frame.stack.pop_int(), -200);
}

#[test]
fn ldc_pushes_int_and_string_constants() {
    let mut vm = Vm::new(ClassPath::new());
    let mut frame = plain_frame();
    exec_ldc(&mut frame, &[11], &mut vm).unwrap();
    assert_eq!(frame.stack.pop_int(), -2);
    frame.pc = 0;
    exec_ldc_w(&mut frame, &[0, 12], &mut vm).unwrap();
    let p = frame.stack.pop_obj_ref();
    assert_eq!(extract_string_content(vm.heap(), p).unwrap(), "constant text");
    frame.pc = 0;
    assert!(matches!(exec_ldc(&mut frame, &[1], &mut vm), Err(JvmError::IllegalStateError(_))));
}

#[test]
fn ldc2_w_pushes_high_then_low() {
    let mut frame = plain_frame();
    exec_ldc2_w(&mut frame, &[0, 13], None).unwrap();
    assert_eq!(frame.stack.pop_int(), 9);
    assert_eq!(frame.stack.pop_int(), 7);
    frame.pc = 0;
    assert!(exec_ldc2_w(&mut frame, &[0, 11], None).is_err());
}

#[test]
fn array_instructions() {
    let mut vm = Vm::new(ClassPath::new());
    let mut frame = plain_frame();
    frame.stack.push_int(4);
    exec_newarray(&mut frame, &[10], &mut vm).unwrap();
    let arr = frame.stack.pop_obj_ref();
    assert_ne!(arr, RawPtr(0));
    frame.stack.push_int(-1);
    frame.pc = 0;
    assert!(matches!(exec_newarray(&mut frame, &[10], &mut vm), Err(JvmError::IllegalStateError(_))));
    frame.stack.push_int(2);
    frame.pc = 0;
    assert!(matches!(exec_newarray(&mut frame, &[3], &mut vm), Err(JvmError::IllegalStateError(_))));
    frame.stack.push_obj_ref(arr);
    exec_arraylength(&mut frame, &[], None).unwrap();
    assert_eq!(frame.stack.pop_int(), 10);
    frame.stack.push_obj_ref(RawPtr(0));
    assert!(exec_arraylength(&mut frame, &[], None).is_err());
    frame.stack.push_obj_ref(arr);
    frame.stack.push_int(1);
    frame.stack.push_int(5);
    exec_iastore(&mut frame, &[], None).unwrap();
    frame.stack.push_obj_ref(arr);
    frame.stack.push_int(1);
    exec_iaload(&mut frame, &[], None).unwrap();
    assert_eq!(frame.stack.pop_int(), 0);
    frame.stack.push_obj_ref(arr);
    frame.stack.push_int(-1);
    assert!(exec_iaload(&mut frame, &[], None).is_err());
}

#[test]
fn putstatic_then_getstatic_gives_the_value_back() {
    let mut vm = Vm::new(ClassPath::new());
    let mut frame = plain_frame();
    let method = frame.method.clone();
    frame.stack.push_int(77);
    exec_putstatic(&mut frame, &[0, 10], &mut vm, &method).unwrap();
    assert_eq!(vm.get_static_field("F", "x"), Some(JvmValue::Int(77)));
    frame.pc = 0;
    exec_getstatic(&mut frame, &[0, 10], &vm, &method).unwrap();
    assert_eq!(frame.stack.pop_int(), 77);
}

#[test]
fn getstatic_of_an_unset_long_pushes_two_zeros() {
    let vm = Vm::new(ClassPath::new());
    let mut frame = frame_with(pool("A", "m", "()V", "F", "big", "J"));
    let method = frame.method.clone();
    exec_getstatic(&mut frame, &[0, 10], &vm, &method).unwrap();
    assert_eq!(frame.stack.values_len(), 2);
}

#[test]
fn putstatic_of_a_long_joins_two_ints() {
    let mut vm = Vm::new(ClassPath::new());
    let mut frame = frame_with(pool("A", "m", "()V", "F", "big", "J"));
    let method = frame.method.clone();
    frame.stack.push_int(1);
    frame.stack.push_int(2);
    exec_putstatic(&mut frame, &[0, 10], &mut vm, &method).unwrap();
    assert_eq!(vm.get_static_field("F", "big"), Some(JvmValue::Long(0x1_0000_0002)));
    frame.pc = 0;
    exec_getstatic(&mut frame, &[0, 10], &vm, &method).unwrap();
    assert_eq!(frame.stack.values_len(), 2);
    assert_eq!(frame.stack.pop_int(), 2);
    assert_eq!(frame.stack.pop_int(), 1);
}

#[test]
fn object_instructions_need_a_loaded_class() {
    let mut vm = Vm::new(ClassPath::new());
    let mut frame = plain_frame();
    assert!(exec_new(&mut frame, &[0, 14], &mut vm).is_err());
    frame.pc = 0;
    frame.stack.push_obj_ref(RawPtr(0));
    assert!(matches!(exec_getfield(&mut frame, &[0, 10], &mut vm), Err(JvmError::NullPointerError(_))));
    frame.pc = 0;
    frame.stack.push_int(1);
    assert!(matches!(exec_putfield(&mut frame, &[0, 10], &mut vm), Err(JvmError::NullPointerError(_))));
    frame.pc = 0;
    assert!(matches!(exec_getfield(&mut frame, &[0, 10], &mut vm), Err(JvmError::IllegalStateError(_))));
}

#[test]
fn invokevirtual_only_reads_the_reference() {
    let mut frame = plain_frame();
    exec_invokevirtual(&mut frame, &[0, 6], None).unwrap();
    assert_eq!(frame.pc, 2);
    assert!(exec_invokevirtual(&mut frame, &[0, 6, 0, 11], None).is_err());
    assert_eq!(frame.pc, 4);
}

#[test]
fn invokestatic_answers_current_time_millis() {
    let mut vm = Vm::new(ClassPath::new());
    vm.set_current_time_millis(0x0000_0003_0000_0004);
    let mut frame = frame_with(pool("java/lang/System", "currentTimeMillis", "()J", "F", "x", "I"));
    exec_invokestatic(&mut frame, &[0, 6], &mut vm).unwrap();
    assert_eq!(frame.stack.pop_int(), 4);
    assert_eq!(frame.stack.pop_int(), 3);
}

#[test]
fn invokestatic_println_prints_its_argument() {
    let mut vm = Vm::new(ClassPath::new());
    let mut frame = frame_with(pool("java/io/PrintStream", "println", "(I)V", "F", "x", "I"));
    frame.stack.push_int(5);
    exec_invokestatic(&mut frame, &[0, 6], &mut vm).unwrap();
    assert!(frame.stack.is_values_empty());
    let out = vm.take_output();
    assert!(matches!(&out[0], PrintItem::Text(t) if t == "5"));
}

#[test]
fn invokestatic_of_an_unknown_method_is_passed_over() {
    let mut vm = Vm::new(ClassPath::new());
    let mut frame = frame_with(pool("Nowhere", "run", "(I)V", "F", "x", "I"));
    frame.stack.push_int(5);
    exec_invokestatic(&mut frame, &[0, 6], &mut vm).unwrap();
    assert!(frame.stack.is_values_empty());
    assert!(vm.output().is_empty());
}

#[test]
fn constructor_of_a_missing_class_fails() {
    let mut vm = Vm::new(ClassPath::new());
    let mut frame = frame_with(pool("Nowhere", "<init>", "()V", "F", "x", "I"));
    frame.stack.push_obj_ref(RawPtr(8));
    match exec_invokespecial(&mut frame, &[0, 6], &mut vm) {
        Err(JvmError::ClassNotFoundError(_)) => (),
        other => panic!("unexpected {:?}", other),
    }
}

/// A class `F` with one int instance field `x`.
fn point_vm() -> Vm {
    let class = ClassFile {
        constant_pool: vec![utf8("F"), CpInfo::Class { name_index: 1 }, utf8("x"), utf8("I")],
        access_flags: 0x0021,
        this_class: 2,
        super_class: 0,
        fields: vec![FieldInfo { access_flags: 0x0001, name_index: 3, descriptor_index: 4 }],
        methods: vec![],
    };
    let mut path = ClassPath::new();
    path.add_class(class).unwrap();
    Vm::new(path)
}

#[test]
fn putfield_then_getfield_gives_the_value_back() {
    let mut vm = point_vm();
    let mut frame = plain_frame();
    exec_new(&mut frame, &[0, 14], &mut vm).unwrap();
    assert_eq!(frame.pc, 2);
    let obj = frame.stack.pop_obj_ref();
    assert!(!obj.is_null());
    frame.pc = 0;
    frame.stack.push_int(-12);
    frame.stack.push_obj_ref(obj);
    exec_putfield(&mut frame, &[0, 10], &mut vm).unwrap();
    assert!(frame.stack.is_values_empty());
    frame.pc = 0;
    frame.stack.push_obj_ref(obj);
    exec_getfield(&mut frame, &[0, 10], &mut vm).unwrap();
    assert_eq!(frame.stack.pop_int(), -12);
    assert!(frame.stack.is_obj_refs_empty());
}

#[test]
fn getfield_of_an_unknown_field_fails() {
    let mut vm = point_vm();
    let mut frame = frame_with(pool("A", "m", "()V", "F", "y", "I"));
    exec_new(&mut frame, &[0, 14], &mut vm).unwrap();
    frame.pc = 0;
    match exec_getfield(&mut frame, &[0, 10], &mut vm) {
        Err(JvmError::IllegalStateError(_)) => (),
        other => panic!("unexpected {:?}", other),
    }
}

#[test]
fn getfield_with_an_empty_stack_fails() {
    let mut vm = point_vm();
    let mut frame = plain_frame();
    match exec_getfield(&mut frame, &[0, 10], &mut vm) {
        Err(JvmError::IllegalStateError(_)) => (),
        other => panic!("unexpected {:?}", other),
    }
}
