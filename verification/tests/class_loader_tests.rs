use vm::class::Klass;
use vm::class_loader::{BootstrapClassLoader, ClassLoadingState, ClassPath};
use vm::classfile::{AttributeInfo, ClassFile, CpInfo, FieldInfo, MethodInfo};
use vm::heap::Heap;

fn utf8(s: &str) -> CpInfo {
    CpInfo::Utf8 { bytes: s.to_string() }
}

/// The `Main` class of the test class path: a static int field `count`
/// and `public static void main(String[])` that returns at once.
fn main_class_file() -> ClassFile {
    ClassFile {
        constant_pool: vec![
            utf8("Main"),
            CpInfo::Class { name_index: 1 },
            utf8("main"),
            utf8("([Ljava/lang/String;)V"),
            utf8("Code"),
            utf8("count"),
            utf8("I"),
        ],
        access_flags: 0x0021,
        this_class: 2,
        super_class: 0,
        fields: vec![FieldInfo { access_flags: 0x0008, name_index: 6, descriptor_index: 7 }],
        methods: vec![MethodInfo {
            access_flags: 0x0009,
            name_index: 3,
            descriptor_index: 4,
            attributes: vec![AttributeInfo::Code {
                attribute_name_index: 5,
                attribute_length: 13,
                max_stack: 0,
                max_locals: 1,
                code_length: 1,
                code: vec![0xb1],
                exception_table_length: 0,
                exception_table: vec![],
                attributes_count: 0,
            }],
        }],
    }
}

/// The class path the tests load from.
fn test_class_path() -> ClassPath {
    let mut path = ClassPath::new();
    path.add_class(main_class_file()).unwrap();
    path
}

#[test]
fn load_main_class() {
    let mut cl = BootstrapClassLoader::new(test_class_path());
    let mut heap = Heap::with_maximum_memory(1024);
    let klass_ref = cl.load("LMain;", &mut heap).unwrap();
    println!("{:?}", klass_ref);
}

#[test]
fn load_array_class() {
    let mut cl = BootstrapClassLoader::new(test_class_path());
    let mut heap = Heap::with_maximum_memory(1024);
    let klass_ref = cl.load("[[D", &mut heap).unwrap();
    println!("{:?}", klass_ref);
}

#[test]
fn get_main_method() {
    let mut cl = BootstrapClassLoader::new(test_class_path());
    let mut heap = Heap::with_maximum_memory(1024);
    let klass_ref = cl.load("LMain;", &mut heap).unwrap();
    let method = klass_ref.get_method("main", "([Ljava/lang/String;)V");
    println!("{:?}", method);
}

#[test]
fn test_class_loading_states() {
    let mut cl = BootstrapClassLoader::new(test_class_path());
    let mut heap = Heap::with_maximum_memory(1024);
    let class_info = cl.get_or_create_class_info("LMain;");
    assert_eq!(class_info.state(), ClassLoadingState::NotLoaded);
    let _ = cl.load("LMain;", &mut heap).unwrap();
    let class_info = cl.get_or_create_class_info("LMain;");
    assert_eq!(class_info.state(), ClassLoadingState::Initialized);
}

#[test]
fn test_static_field_initialization() {
    let mut cl = BootstrapClassLoader::new(test_class_path());
    let mut heap = Heap::with_maximum_memory(1024);
    let _ = cl.load("LMain;", &mut heap).unwrap();
    let class_info = cl.get_or_create_class_info("LMain;");
    assert!(class_info.has_static_fields());
}

#[test]
fn loaded_main_class_has_its_members() {
    let mut cl = BootstrapClassLoader::new(test_class_path());
    let mut heap = Heap::with_maximum_memory(1024);
    let klass = cl.load("LMain;", &mut heap).unwrap();
    match &klass {
        Klass::Instance(k) => {
            assert_eq!(k.get_class_name(), "Main");
            assert_eq!(k.get_static_fields().len(), 1);
            assert_eq!(k.instance_field_count(), 0);
            let m = k.get_method("main", "([Ljava/lang/String;)V").unwrap();
            assert_eq!(m.get_code(), &vec![0xb1]);
        },
        Klass::Array(_) => panic!("Main loaded as an array class"),
    }
}

#[test]
fn loading_again_gives_the_same_class() {
    let mut cl = BootstrapClassLoader::new(test_class_path());
    let mut heap = Heap::with_maximum_memory(1024);
    let a = cl.load("LMain;", &mut heap).unwrap();
    let b = cl.load("LMain;", &mut heap).unwrap();
    assert_eq!(a.get_class_id(), b.get_class_id());
}

#[test]
fn missing_class_fails_and_is_remembered() {
    let mut cl = BootstrapClassLoader::new(test_class_path());
    let mut heap = Heap::with_maximum_memory(1024);
    assert!(cl.load("LNothing;", &mut heap).is_err());
    assert_eq!(cl.get_or_create_class_info("LNothing;").state(), ClassLoadingState::Failed);
    assert!(cl.load("LNothing;", &mut heap).is_err());
}

#[test]
fn ill_formed_class_file_is_refused() {
    let mut path = ClassPath::new();
    let mut bad = main_class_file();
    bad.this_class = 1;
    assert!(path.add_class(bad).is_err());
    assert_eq!(path.len(), 0);
}

/// A class `Point` with one int instance field `x`.
fn point_class_file() -> ClassFile {
    ClassFile {
        constant_pool: vec![utf8("Point"), CpInfo::Class { name_index: 1 }, utf8("x"), utf8("I")],
        access_flags: 0x0021,
        this_class: 2,
        super_class: 0,
        fields: vec![FieldInfo { access_flags: 0x0001, name_index: 3, descriptor_index: 4 }],
        methods: vec![],
    }
}

fn point_klass(heap: &mut Heap) -> vm::class::InstanceKlass {
    let mut path = ClassPath::new();
    path.add_class(point_class_file()).unwrap();
    let mut cl = BootstrapClassLoader::new(path);
    match cl.load("Point", heap).unwrap() {
        Klass::Instance(k) => k,
        Klass::Array(_) => panic!("Point is no array class"),
    }
}

#[test]
fn field_written_after_allocation_reads_back() {
    let mut heap = Heap::with_maximum_memory(1024);
    let k = point_klass(&mut heap);
    let obj = heap.alloc_object(&k).unwrap();
    heap.put_field(obj, 0, vm::JvmValue::Int(0xDEAD_BEEF));
    assert_eq!(heap.get_field(obj, 0), vm::JvmValue::Int(0xDEAD_BEEF));
}

#[test]
fn allocations_stop_when_the_semi_space_is_full() {
    let mut heap = Heap::with_maximum_memory(64);
    let k = point_klass(&mut heap);
    let a = heap.alloc_object(&k).unwrap();
    let b = heap.alloc_object(&k).unwrap();
    assert_eq!(b.0, a.0 + 16);
    assert!(matches!(heap.alloc_object(&k), Err(vm::heap::AllocError::OOM)));
    assert!(matches!(heap.alloc_object(&k), Err(vm::heap::AllocError::OOM)));
}

#[test]
fn classes_loaded_one_after_the_other_get_fresh_ids() {
    let mut path = ClassPath::new();
    path.add_class(main_class_file()).unwrap();
    path.add_class(point_class_file()).unwrap();
    let mut cl = BootstrapClassLoader::new(path);
    let mut heap = Heap::with_maximum_memory(1024);
    let a = cl.load("Main", &mut heap).unwrap();
    let b = cl.load("Point", &mut heap).unwrap();
    assert_eq!(a.get_class_id(), 0);
    assert_eq!(b.get_class_id(), 1);
    let again = cl.load("Main", &mut heap).unwrap();
    assert_eq!(again.get_class_id(), 0);
}
