use vstd::prelude::*;
use crate::JvmValue;
use crate::assoc::{assoc_map, last_key_index, lemma_assoc_lookup, lemma_assoc_push, lemma_assoc_update};
use crate::class::{Klass, KlassView, InstanceKlass, chain_lookup};
use crate::class_loader::{
    BootstrapClassLoader, ClassLoadingInfoView, ClassPath, after_load, answers, load_answer,
    resolve_class, id_after_load,
};
use crate::classfile::ClassFile;
use crate::error::JvmError;
use crate::heap::{
    AllocError, GcState, Header, Heap, RawPtr, align8, array_size, object_size, plain_header,
    read_u16, read_u64, write_bytes, u16_bytes, u64_bytes, lemma_write_frame, lemma_extend_frame, grown, write_units,
    law_read_after_write_u16, law_read_after_write_u64,
};
use crate::native_method::{
    NativeEntry, NativeMethod, NativeMethodRegistry, PrintItem, PrintView, char_array_units,
    string_content, println_line,
};
use crate::text::{encode_utf16, utf16_encode, utf16_decode, chars_of, code_points, lemma_utf16_roundtrip, concat, join3, str_eq};
use crate::jvm_thread::{Frame, FrameView, read_u2, unknown_opcode, branch_target, offset_at};
use crate::instructions::method_utils::{handle_special_method_call, special_println_text, parse_method_descriptor, descriptor_params};
use crate::instructions::aload_0::exec_aload_0;
use crate::instructions::arithmetic::{exec_iadd, exec_isub, exec_imul, exec_idiv};
use crate::instructions::array_ops::{exec_newarray, exec_arraylength, exec_iastore, exec_iaload};
use crate::instructions::constants::{
    exec_aconst_null, exec_iconst_m1, exec_iconst_0, exec_iconst_1, exec_iconst_2, exec_iconst_3, exec_iconst_4,
    exec_iconst_5, exec_bipush,
};
use crate::instructions::control::{exec_goto, exec_ifeq, exec_ifne, exec_ifge};
use crate::instructions::control_extended::exec_if_icmpge;
use crate::instructions::field_ops::{exec_getstatic, exec_putstatic};
use crate::instructions::iinc::exec_iinc;
use crate::instructions::invokespecial::invoke_special_within;
use crate::instructions::invokestatic::invoke_static_within;
use crate::instructions::invokevirtual::exec_invokevirtual;
use crate::instructions::ldc_ops::{exec_sipush, exec_ldc, exec_ldc_w, exec_ldc2_w, ldc_room};
use crate::instructions::load_store::{
    exec_iload, exec_iload_0, exec_iload_1, exec_iload_2, exec_iload_3, exec_aload_1, exec_aload_2, exec_aload_3,
    exec_istore, exec_istore_0, exec_istore_1, exec_istore_2, exec_istore_3, exec_astore_0, exec_astore_1,
    exec_astore_2, exec_astore_3,
};
use crate::instructions::object_ops::{exec_new, exec_getfield, exec_putfield};
use crate::instructions::stack::exec_dup;
use crate::local_vars::{LocalVars, int_slot, ref_slot};
use crate::method::{Method, MethodView};
use crate::operand_stack::OperandStack;
use crate::classfile::{CpInfo, cp_get};
use crate::text::starts_with;
use crate::instructions::table::{TableStep, TableRun, table_step, table_run};
use crate::instructions::field_ops::putstatic_field_value;
use crate::instructions::object_ops::{getfield_outcome, putfield_outcome, new_outcome};
use crate::instructions::array_ops::newarray_outcome;
use crate::instructions::ldc_ops::ldc_done;
use crate::jvm_thread::{push_slots, getstatic_slots, code_u2};
use crate::classfile::{fieldref_at, methodref_at};
use crate::instructions::invokestatic::call_with;
use crate::instructions::invokespecial::init_with;
use crate::instructions::method_utils::pop_args;
use crate::jvm_thread::{drop_receiver, receiver};
use crate::heap::{chunk_alloc, fresh_header};

verus! {

/// The virtual machine: its heap, its class loader, the values of static
/// fields, the native methods, the text of `StringBuilder` objects and of
/// string objects, and the lines printed so far.
pub struct Vm {
    heap: Heap,
    class_loader: BootstrapClassLoader,
    static_fields: Vec<(String, String, JvmValue)>,
    native_methods: NativeMethodRegistry,
    string_builder_map: Vec<(u64, String)>,
    string_map: Vec<(u64, String)>,
    output: Vec<PrintItem>,
    clock: u64,
}

/// The native methods of a virtual machine: `System.out.println`.
pub open spec fn builtin_natives() -> Map<Seq<char>, bool> {
    Map::<Seq<char>, bool>::empty().insert("java/lang/System.out.println"@, true)
}

/// The heap size a virtual machine starts with.
pub const VM_HEAP_SIZE: usize = 1048576;

impl Vm {
    /// The class loader.
    pub closed spec fn loader(&self) -> &BootstrapClassLoader {
        &self.class_loader
    }

    /// The kind of error `load` gives for class `name`, where it gives one.
    pub open spec fn load_failure(&self, name: Seq<char>) -> Option<Seq<char>> {
        match load_answer(self.loader().files(), self.loader().class_id(), name, self.loader().info_of(name)) {
            Ok(_) => None,
            Err((kind, _)) => Some(kind),
        }
    }

    /// Loading fails exactly for a name the class path cannot define, and
    /// then with a `ClassNotFoundError`.
    pub proof fn lemma_load_failure(&self, name: Seq<char>)
        requires
            self.wf(),
        ensures
            self.load_failure(name) == (if resolve_class(self.loader().files(), name, self.loader().class_id()) is Err {
                Some("ClassNotFoundError"@)
            } else {
                None::<Seq<char>>
            }),
    {
        self.loader().lemma_answer_agrees(name);
        crate::class_loader::lemma_resolve_ids(
            self.loader().files(),
            name,
            self.loader().id_for(name),
            self.loader().class_id(),
        );
    }

    /// Static field values by class name and field name.
    pub closed spec fn statics(&self) -> Map<(Seq<char>, Seq<char>), JvmValue> {
        assoc_map(self.static_fields@.map_values(|e: (String, String, JvmValue)| ((e.0@, e.1@), e.2)))
    }

    /// The text of each `StringBuilder` object, by address.
    pub closed spec fn builders(&self) -> Map<u64, Seq<char>> {
        assoc_map(self.string_builder_map@.map_values(|e: (u64, String)| (e.0, e.1@)))
    }

    /// The text of each string object made by the virtual machine, by address.
    pub closed spec fn strings(&self) -> Map<u64, Seq<char>> {
        assoc_map(self.string_map@.map_values(|e: (u64, String)| (e.0, e.1@)))
    }

    /// The registered native methods, by `class.method` name.
    pub closed spec fn natives(&self) -> Map<Seq<char>, bool> {
        self.native_methods.entries()
    }

    /// The lines printed so far, first line first.
    pub closed spec fn printed(&self) -> Seq<PrintView> {
        self.output@.map_values(|p: PrintItem| p@)
    }

    /// The time, in milliseconds, that `System.currentTimeMillis` reports.
    pub closed spec fn clock(&self) -> u64 {
        self.clock
    }

    /// Sets the time that `System.currentTimeMillis` reports.
    pub fn set_current_time_millis(&mut self, now_millis: u64)
        ensures
            final(self).clock() == now_millis,
            final(self).heap_state() == old(self).heap_state(),
            final(self).loader() == old(self).loader(),
            final(self).statics() == old(self).statics(),
            final(self).builders() == old(self).builders(),
            final(self).strings() == old(self).strings(),
            final(self).natives() == old(self).natives(),
            final(self).printed() == old(self).printed(),
            old(self).wf() ==> final(self).wf(),
    {
        self.clock = now_millis;
    }

    /// The calls the virtual machine answers itself: `PrintStream.println`
    /// prints a line for its first argument, `System.currentTimeMillis`
    /// pushes the clock as a long; for any other call it does nothing and
    /// gives `None`.
    pub fn special_call(&mut self, class_name: &str, method_name: &str, args: &[JvmValue], frame: &mut Frame) -> (r: Option<bool>)
        requires
            class_name@ == "java/lang/System"@ && method_name@ == "currentTimeMillis"@ ==> old(frame)@.int_room(2),
        ensures
            final(self).heap_state() == old(self).heap_state(),
            final(self).loader() == old(self).loader(),
            final(self).statics() == old(self).statics(),
            final(self).builders() == old(self).builders(),
            final(self).strings() == old(self).strings(),
            final(self).natives() == old(self).natives(),
            final(self).clock() == old(self).clock(),
            old(self).wf() ==> final(self).wf(),
            class_name@ == "java/io/PrintStream"@ && method_name@ == "println"@ ==> {
                &&& r == Some(true)
                &&& final(frame)@ == old(frame)@
                &&& final(self).printed() == old(self).printed().push(PrintView::Text(special_println_text(args@)))
            },
            class_name@ == "java/lang/System"@ && method_name@ == "currentTimeMillis"@ ==> {
                &&& r == Some(true)
                &&& final(frame)@ == old(frame)@.push_int((old(self).clock() / 0x1_0000_0000) as i32).push_int(
                    (old(self).clock() % 0x1_0000_0000) as i32,
                )
                &&& final(self).printed() == old(self).printed()
            },
            !(class_name@ == "java/io/PrintStream"@ && method_name@ == "println"@) && !(class_name@
                == "java/lang/System"@ && method_name@ == "currentTimeMillis"@) ==> {
                &&& r is None
                &&& final(frame)@ == old(frame)@
                &&& final(self).printed() == old(self).printed()
            },
    {
        handle_special_method_call(class_name, method_name, args, frame, self.clock, &mut self.output)
    }

    /// The heap.
    pub closed spec fn heap_state(&self) -> Heap {
        self.heap
    }

    /// The number of class files the virtual machine loads from.
    pub fn class_count(&self) -> (n: usize)
        ensures
            n == self.loader().files().len(),
    {
        self.class_loader.class_count()
    }

    /// The heap.
    pub fn heap(&self) -> (h: &Heap)
        ensures
            *h == self.heap_state(),
    {
        &self.heap
    }

    /// The heap, to change it; nothing else changes.
    pub fn heap_mut(&mut self) -> (h: &mut Heap)
        ensures
            *h == old(self).heap_state(),
            final(self).heap_state() == *final(h),
            final(self).loader() == old(self).loader(),
            final(self).statics() == old(self).statics(),
            final(self).builders() == old(self).builders(),
            final(self).strings() == old(self).strings(),
            final(self).natives() == old(self).natives(),
            final(self).clock() == old(self).clock(),
            final(self).printed() == old(self).printed(),
    {
        &mut self.heap
    }

    /// The heap and the class loader are consistent.
    pub closed spec fn wf(&self) -> bool {
        &&& self.heap.wf()
        &&& self.class_loader.wf()
        &&& self.native_methods.entries() == builtin_natives()
    }

    /// Consistency depends only on the heap and the class loader.
    pub proof fn lemma_wf_same(&self, other: &Vm)
        ensures
            self.heap_state() == other.heap_state() && self.loader() == other.loader() && self.natives()
                == other.natives() ==> (self.wf() <==> other.wf()),
    {
    }

    /// What consistency of the virtual machine says of its parts.
    pub proof fn lemma_wf(&self)
        ensures
            self.wf() <==> (self.heap_state().wf() && self.loader().wf() && self.natives() == builtin_natives()),
    {
    }

    /// A virtual machine over a class path, with a fresh heap of
    /// `VM_HEAP_SIZE` bytes and `System.out.println` as its native method.
    pub fn new(class_path: ClassPath) -> (vm: Vm)
        requires
            class_path.wf(),
        ensures
            vm.wf(),
            vm.loader().files() == class_path.files(),
            vm.loader().class_id() == 0,
            vm.loader().infos() == Map::<Seq<char>, ClassLoadingInfoView>::empty(),
            vm.heap_state().bytes() == Seq::new((8 + 2 * (VM_HEAP_SIZE / 2)) as nat, |i: int| 0u8),
            vm.heap_state().cur_start() == 8,
            vm.heap_state().cur_used() == 0,
            vm.heap_state().cur_capacity() == VM_HEAP_SIZE / 2,
            vm.statics() == Map::<(Seq<char>, Seq<char>), JvmValue>::empty(),
            vm.builders() == Map::<u64, Seq<char>>::empty(),
            vm.strings() == Map::<u64, Seq<char>>::empty(),
            vm.natives() == Map::<Seq<char>, bool>::empty().insert("java/lang/System.out.println"@, true),
            vm.printed() == Seq::<PrintView>::empty(),
            vm.clock() == 0,
    {
        let vm = Vm {
            class_loader: BootstrapClassLoader::new(class_path),
            heap: Heap::with_maximum_memory(VM_HEAP_SIZE),
            static_fields: Vec::new(),
            native_methods: NativeMethodRegistry::new(),
            string_builder_map: Vec::new(),
            string_map: Vec::new(),
            output: Vec::new(),
            clock: 0,
        };
        assert(vm.static_fields@.map_values(|e: (String, String, JvmValue)| ((e.0@, e.1@), e.2)) =~= Seq::empty());
        assert(vm.string_builder_map@.map_values(|e: (u64, String)| (e.0, e.1@)) =~= Seq::empty());
        assert(vm.string_map@.map_values(|e: (u64, String)| (e.0, e.1@)) =~= Seq::empty());
        assert(vm.printed() =~= Seq::<PrintView>::empty());
        vm
    }

    /// Loads a class through the class loader.
    pub fn load(&mut self, class_name: &str) -> (r: Result<Klass, JvmError>)
        requires
            old(self).wf(),
        ensures
            final(self).wf(),
            final(self).loader().files() == old(self).loader().files(),
            final(self).loader().class_id() == id_after_load(
                old(self).loader().files(),
                old(self).loader().class_id(),
                class_name@,
                old(self).loader().info_of(class_name@),
            ),
            final(self).loader().infos() == old(self).loader().infos().insert(
                class_name@,
                after_load(
                    old(self).loader().files(),
                    old(self).loader().class_id(),
                    class_name@,
                    old(self).loader().info_of(class_name@),
                ),
            ),
            answers(r, load_answer(
                old(self).loader().files(),
                old(self).loader().class_id(),
                class_name@,
                old(self).loader().info_of(class_name@),
            )),
            r is Ok <==> resolve_class(old(self).loader().files(), class_name@, old(self).loader().class_id()) is Ok,
            r matches Ok(k) ==> resolve_class(old(self).loader().files(), class_name@, old(self).loader().id_for(class_name@))
                == Ok::<KlassView, Seq<char>>(k@),
            final(self).heap_state() == old(self).heap_state(),
            final(self).statics() == old(self).statics(),
            final(self).builders() == old(self).builders(),
            final(self).strings() == old(self).strings(),
            final(self).natives() == old(self).natives(),
            final(self).clock() == old(self).clock(),
            final(self).printed() == old(self).printed(),
    {
        self.class_loader.load(class_name, &mut self.heap)
    }

    /// Allocates an object of an ordinary class; an array class is refused.
    pub fn alloc_object(&mut self, klass: &Klass) -> (r: Result<RawPtr, AllocError>)
        requires
            old(self).wf(),
            klass@ matches KlassView::Instance(k) ==> {
                &&& k.class_id < 1024
                &&& object_size(k.i_fields.len() as int) + old(self).heap_state().cur_used() <= usize::MAX
                &&& object_size(k.i_fields.len() as int) < 0x80_0000 || old(self).heap_state().cur_used()
                    + object_size(k.i_fields.len() as int) > old(self).heap_state().cur_capacity()
            },
        ensures
            final(self).wf(),
            final(self).loader() == old(self).loader(),
            final(self).statics() == old(self).statics(),
            final(self).builders() == old(self).builders(),
            final(self).strings() == old(self).strings(),
            final(self).natives() == old(self).natives(),
            final(self).clock() == old(self).clock(),
            final(self).printed() == old(self).printed(),
            klass@ is Array ==> r == Err::<RawPtr, AllocError>(AllocError::BadRequest) && final(self).heap_state() == old(self).heap_state(),
            klass@ matches KlassView::Instance(k) ==> {
                &&& final(self).heap_state().cur_start() == old(self).heap_state().cur_start()
                &&& final(self).heap_state().cur_capacity() == old(self).heap_state().cur_capacity()
                &&& (final(self).heap_state().cur_used(), r.ok()) == crate::heap::chunk_alloc(
                    old(self).heap_state().cur_start(),
                    old(self).heap_state().cur_used(),
                    old(self).heap_state().cur_capacity(),
                    object_size(k.i_fields.len() as int),
                )
                &&& match r {
                    Ok(p) => final(self).heap_state().bytes() == write_bytes(
                        old(self).heap_state().bytes(),
                        p.0 as int,
                        u64_bytes(crate::heap::fresh_header(k.class_id as u64, object_size(k.i_fields.len() as int) as u64)),
                    ),
                    Err(e) => e == AllocError::OOM && final(self).heap_state().bytes() == old(self).heap_state().bytes(),
                }
            },
    {
        match klass {
            Klass::Instance(k) => self.heap.alloc_object(k),
            Klass::Array(_) => Err(AllocError::BadRequest),
        }
    }

    /// Allocates an array of an array class; an ordinary class is refused.
    pub fn alloc_array(&mut self, klass: &Klass, length: usize) -> (r: Result<RawPtr, AllocError>)
        requires
            old(self).wf(),
            klass@ matches KlassView::Array(a) ==> {
                &&& a.class_id < 1024
                &&& array_size(length as int) + old(self).heap_state().cur_used() <= usize::MAX
                &&& array_size(length as int) < 0x80_0000 || old(self).heap_state().cur_used() + array_size(
                    length as int,
                ) > old(self).heap_state().cur_capacity()
            },
        ensures
            final(self).wf(),
            final(self).loader() == old(self).loader(),
            final(self).statics() == old(self).statics(),
            final(self).builders() == old(self).builders(),
            final(self).strings() == old(self).strings(),
            final(self).natives() == old(self).natives(),
            final(self).clock() == old(self).clock(),
            final(self).printed() == old(self).printed(),
            klass@ is Instance ==> r == Err::<RawPtr, AllocError>(AllocError::BadRequest) && final(self).heap_state() == old(self).heap_state(),
            klass@ matches KlassView::Array(a) ==> {
                &&& final(self).heap_state().cur_start() == old(self).heap_state().cur_start()
                &&& final(self).heap_state().cur_capacity() == old(self).heap_state().cur_capacity()
                &&& (final(self).heap_state().cur_used(), r.ok()) == crate::heap::chunk_alloc(
                    old(self).heap_state().cur_start(),
                    old(self).heap_state().cur_used(),
                    old(self).heap_state().cur_capacity(),
                    array_size(length as int),
                )
                &&& match r {
                    Ok(p) => final(self).heap_state().bytes() == write_bytes(
                        write_bytes(
                            old(self).heap_state().bytes(),
                            p.0 as int,
                            u64_bytes(crate::heap::fresh_header(a.class_id as u64, array_size(length as int) as u64)),
                        ),
                        p.0 + 8,
                        u64_bytes(length as u64),
                    ),
                    Err(e) => e == AllocError::OOM && final(self).heap_state().bytes() == old(self).heap_state().bytes(),
                }
            },
    {
        match klass {
            Klass::Array(k) => self.heap.alloc_array(k, length),
            Klass::Instance(_) => Err(AllocError::BadRequest),
        }
    }

    /// Sets the value of a static field.
    pub fn set_static_field(&mut self, class_name: &str, field_name: &str, value: JvmValue)
        ensures
            final(self).statics() == old(self).statics().insert((class_name@, field_name@), value),
            final(self).heap_state() == old(self).heap_state(),
            final(self).loader() == old(self).loader(),
            final(self).builders() == old(self).builders(),
            final(self).strings() == old(self).strings(),
            final(self).natives() == old(self).natives(),
            final(self).clock() == old(self).clock(),
            final(self).printed() == old(self).printed(),
    {
        let ghost l = self.static_fields@.map_values(|e: (String, String, JvmValue)| ((e.0@, e.1@), e.2));
        let ghost key = (class_name@, field_name@);
        match self.find_static(class_name, field_name) {
            Some(j) => {
                self.static_fields.set(j, (String::from_str(class_name), String::from_str(field_name), value));
                proof {
                    lemma_assoc_update(l, key, value);
                    assert(self.static_fields@.map_values(|e: (String, String, JvmValue)| ((e.0@, e.1@), e.2))
                        =~= l.update(j as int, (key, value)));
                }
            },
            None => {
                self.static_fields.push((String::from_str(class_name), String::from_str(field_name), value));
                proof {
                    lemma_assoc_push(l, key, value);
                    assert(self.static_fields@.map_values(|e: (String, String, JvmValue)| ((e.0@, e.1@), e.2))
                        =~= l.push((key, value)));
                }
            },
        }
    }

    /// The value of a static field, if one was set.
    pub fn get_static_field(&self, class_name: &str, field_name: &str) -> (r: Option<JvmValue>)
        ensures
            r == (if self.statics().contains_key((class_name@, field_name@)) {
                Some(self.statics()[(class_name@, field_name@)])
            } else {
                None
            }),
    {
        let ghost l = self.static_fields@.map_values(|e: (String, String, JvmValue)| ((e.0@, e.1@), e.2));
        proof {
            lemma_assoc_lookup(l, (class_name@, field_name@));
        }
        match self.find_static(class_name, field_name) {
            Some(j) => Some(self.static_fields[j].2),
            None => None,
        }
    }

    /// The position of the last entry for a static field.
    fn find_static(&self, class_name: &str, field_name: &str) -> (r: Option<usize>)
        ensures
            match r {
                Some(j) => last_key_index(
                    self.static_fields@.map_values(|e: (String, String, JvmValue)| ((e.0@, e.1@), e.2)),
                    (class_name@, field_name@),
                ) == Some(j as int),
                None => last_key_index(
                    self.static_fields@.map_values(|e: (String, String, JvmValue)| ((e.0@, e.1@), e.2)),
                    (class_name@, field_name@),
                ) is None,
            },
            r matches Some(j) ==> j < self.static_fields@.len(),
    {
        let ghost l = self.static_fields@.map_values(|e: (String, String, JvmValue)| ((e.0@, e.1@), e.2));
        let ghost key = (class_name@, field_name@);
        let mut i = self.static_fields.len();
        assert(l.subrange(0, i as int) =~= l);
        while i > 0
            invariant
                i <= self.static_fields@.len(),
                key == (class_name@, field_name@),
                l == self.static_fields@.map_values(|e: (String, String, JvmValue)| ((e.0@, e.1@), e.2)),
                last_key_index(l, key) == last_key_index(l.subrange(0, i as int), key),
            decreases i,
        {
            let e = &self.static_fields[i - 1];
            assert(l.subrange(0, i as int).drop_last() =~= l.subrange(0, i - 1));
            assert(l.subrange(0, i as int).last() == ((e.0@, e.1@), e.2));
            let same_class = str_eq(e.0.as_str(), class_name);
            let same_field = str_eq(e.1.as_str(), field_name);
            if same_class && same_field {
                return Some(i - 1);
            }
            assert((e.0@, e.1@) != key);
            i = i - 1;
        }
        None
    }

    /// The position of the last entry for an address in a text list.
    fn find_text(list: &Vec<(u64, String)>, key: u64) -> (r: Option<usize>)
        ensures
            match r {
                Some(j) => last_key_index(list@.map_values(|e: (u64, String)| (e.0, e.1@)), key) == Some(j as int),
                None => last_key_index(list@.map_values(|e: (u64, String)| (e.0, e.1@)), key) is None,
            },
            r matches Some(j) ==> j < list@.len(),
    {
        let ghost l = list@.map_values(|e: (u64, String)| (e.0, e.1@));
        let mut i = list.len();
        assert(l.subrange(0, i as int) =~= l);
        while i > 0
            invariant
                i <= list@.len(),
                l == list@.map_values(|e: (u64, String)| (e.0, e.1@)),
                last_key_index(l, key) == last_key_index(l.subrange(0, i as int), key),
            decreases i,
        {
            assert(l.subrange(0, i as int).drop_last() =~= l.subrange(0, i - 1));
            assert(l.subrange(0, i as int).last() == (list@[i - 1].0, list@[i - 1].1@));
            if list[i - 1].0 == key {
                return Some(i - 1);
            }
            i = i - 1;
        }
        None
    }

    /// Sets the text kept for an address in a text list.
    fn put_text(list: &mut Vec<(u64, String)>, key: u64, text: String)
        ensures
            assoc_map(final(list)@.map_values(|e: (u64, String)| (e.0, e.1@))) == assoc_map(
                old(list)@.map_values(|e: (u64, String)| (e.0, e.1@)),
            ).insert(key, text@),
    {
        let ghost l = list@.map_values(|e: (u64, String)| (e.0, e.1@));
        let ghost t = text@;
        match Self::find_text(list, key) {
            Some(j) => {
                list.set(j, (key, text));
                proof {
                    lemma_assoc_update(l, key, t);
                    assert(list@.map_values(|e: (u64, String)| (e.0, e.1@)) =~= l.update(j as int, (key, t)));
                }
            },
            None => {
                list.push((key, text));
                proof {
                    lemma_assoc_push(l, key, t);
                    assert(list@.map_values(|e: (u64, String)| (e.0, e.1@)) =~= l.push((key, t)));
                }
            },
        }
    }

    /// The text of a `StringBuilder` object; empty for one not seen before.
    pub fn string_builder_text(&self, builder: RawPtr) -> (s: String)
        ensures
            s@ == (if self.builders().contains_key(builder.0) { self.builders()[builder.0] } else { Seq::empty() }),
    {
        proof {
            lemma_assoc_lookup(self.string_builder_map@.map_values(|e: (u64, String)| (e.0, e.1@)), builder.0);
        }
        match Self::find_text(&self.string_builder_map, builder.0) {
            Some(j) => self.string_builder_map[j].1.clone(),
            None => String::new(),
        }
    }

    /// Appends text to a `StringBuilder` object.
    pub fn append_to_string_builder(&mut self, builder: RawPtr, text: &str)
        ensures
            final(self).builders() == old(self).builders().insert(
                builder.0,
                (if old(self).builders().contains_key(builder.0) { old(self).builders()[builder.0] } else { Seq::empty() })
                    + text@,
            ),
            final(self).heap_state() == old(self).heap_state(),
            final(self).loader() == old(self).loader(),
            final(self).statics() == old(self).statics(),
            final(self).strings() == old(self).strings(),
            final(self).natives() == old(self).natives(),
            final(self).clock() == old(self).clock(),
            final(self).printed() == old(self).printed(),
    {
        let mut current = self.string_builder_text(builder);
        current.append(text);
        Self::put_text(&mut self.string_builder_map, builder.0, current);
    }

    /// The text recorded for a string object made by the virtual machine.
    pub fn string_text(&self, string: RawPtr) -> (r: Option<String>)
        ensures
            match r {
                Some(s) => self.strings().contains_key(string.0) && s@ == self.strings()[string.0],
                None => !self.strings().contains_key(string.0),
            },
    {
        proof {
            lemma_assoc_lookup(self.string_map@.map_values(|e: (u64, String)| (e.0, e.1@)), string.0);
        }
        match Self::find_text(&self.string_map, string.0) {
            Some(j) => Some(self.string_map[j].1.clone()),
            None => None,
        }
    }

    /// The lines printed so far.
    pub fn output(&self) -> (r: &Vec<PrintItem>)
        ensures
            r@.map_values(|p: PrintItem| p@) == self.printed(),
    {
        &self.output
    }

    /// Hands over the lines printed so far and forgets them.
    pub fn take_output(&mut self) -> (r: Vec<PrintItem>)
        ensures
            r@.map_values(|p: PrintItem| p@) == old(self).printed(),
            final(self).printed() == Seq::<PrintView>::empty(),
            final(self).heap_state() == old(self).heap_state(),
            final(self).loader() == old(self).loader(),
            final(self).statics() == old(self).statics(),
            final(self).builders() == old(self).builders(),
            final(self).strings() == old(self).strings(),
            final(self).natives() == old(self).natives(),
            final(self).clock() == old(self).clock(),
    {
        let mut r: Vec<PrintItem> = Vec::new();
        std::mem::swap(&mut r, &mut self.output);
        assert(self.printed() =~= Seq::<PrintView>::empty());
        r
    }

    /// Makes a `char[]` object outside the semi-spaces: a header for class
    /// id 1, a length word, then the UTF-16 code units.
    fn create_char_array(&mut self, chars: &[u16]) -> (r: Result<RawPtr, AllocError>)
        requires
            old(self).wf(),
            16 + 2 * chars@.len() < 0x80_0000,
        ensures
            final(self).wf(),
            final(self).heap_state().same_layout(&old(self).heap_state()),
            final(self).loader() == old(self).loader(),
            final(self).statics() == old(self).statics(),
            final(self).builders() == old(self).builders(),
            final(self).strings() == old(self).strings(),
            final(self).natives() == old(self).natives(),
            final(self).clock() == old(self).clock(),
            final(self).printed() == old(self).printed(),
            char_array_made(old(self).heap_state().bytes(), final(self).heap_state().bytes(), chars@, r),
    {
        new_char_array(&mut self.heap, chars)
    }

    /// Whether a string is short enough for a string object: its `char[]`
    /// must fit the 23-bit size field of a header.
    pub fn fits_string_object(content: &str) -> (b: bool)
        ensures
            b == (16 + 2 * utf16_encode(content@).len() < 0x80_0000),
    {
        let units = encode_utf16(content);
        units.len() < 0x3F_FFF8
    }

    /// Makes a string object for a text: a `char[]` with its UTF-16 code
    /// units, then an object of class id 0 whose field points to it. The
    /// object is recorded with its text.
    pub fn create_string_object(&mut self, string_content: &str) -> (r: Result<RawPtr, AllocError>)
        requires
            old(self).wf(),
            16 + 2 * utf16_encode(string_content@).len() < 0x80_0000,
        ensures
            final(self).wf(),
            final(self).heap_state().same_layout(&old(self).heap_state()),
            final(self).loader() == old(self).loader(),
            final(self).statics() == old(self).statics(),
            final(self).builders() == old(self).builders(),
            final(self).natives() == old(self).natives(),
            final(self).clock() == old(self).clock(),
            final(self).printed() == old(self).printed(),
            match r {
                Ok(p) => {
                    let mem = final(self).heap_state().bytes();
                    &&& p.0 == string_at(old(self).heap_state().bytes(), utf16_encode(string_content@))
                    &&& mem == with_string(old(self).heap_state().bytes(), utf16_encode(string_content@))
                    &&& p.0 >= old(self).heap_state().bytes().len()
                    &&& mem.len() == p.0 + 16
                    &&& forall|j: int| 0 <= j < old(self).heap_state().bytes().len() ==> mem[j] == old(self).heap_state().bytes()[j]
                    &&& read_u64(mem, p.0 as int) == plain_header(0, 16)
                    &&& crate::native_method::string_content(mem, p) == Some(string_content@)
                    &&& final(self).strings() == old(self).strings().insert(p.0, string_content@)
                },
                Err(e) => {
                    &&& e == AllocError::OOM
                    &&& final(self).strings() == old(self).strings()
                    &&& final(self).heap_state().bytes() == (if align8(old(self).heap_state().bytes().len() as int) + 16 + 2
                        * utf16_encode(string_content@).len() <= isize::MAX {
                        with_char_array(old(self).heap_state().bytes(), utf16_encode(string_content@))
                    } else {
                        old(self).heap_state().bytes()
                    })
                },
            },
            old(self).heap_state().bytes().len() + 2 * utf16_encode(string_content@).len() + 48 <= isize::MAX ==> r is Ok,
            r is Ok <==> string_fits(old(self).heap_state().bytes(), utf16_encode(string_content@)),
    {
        self.create_simple_string_object(string_content)
    }

    fn create_simple_string_object(&mut self, string_content: &str) -> (r: Result<RawPtr, AllocError>)
        requires
            old(self).wf(),
            16 + 2 * utf16_encode(string_content@).len() < 0x80_0000,
        ensures
            final(self).wf(),
            final(self).heap_state().same_layout(&old(self).heap_state()),
            final(self).loader() == old(self).loader(),
            final(self).statics() == old(self).statics(),
            final(self).builders() == old(self).builders(),
            final(self).natives() == old(self).natives(),
            final(self).clock() == old(self).clock(),
            final(self).printed() == old(self).printed(),
            match r {
                Ok(p) => {
                    let mem = final(self).heap_state().bytes();
                    &&& p.0 == string_at(old(self).heap_state().bytes(), utf16_encode(string_content@))
                    &&& mem == with_string(old(self).heap_state().bytes(), utf16_encode(string_content@))
                    &&& p.0 >= old(self).heap_state().bytes().len()
                    &&& mem.len() == p.0 + 16
                    &&& forall|j: int| 0 <= j < old(self).heap_state().bytes().len() ==> mem[j] == old(self).heap_state().bytes()[j]
                    &&& read_u64(mem, p.0 as int) == plain_header(0, 16)
                    &&& crate::native_method::string_content(mem, p) == Some(string_content@)
                    &&& final(self).strings() == old(self).strings().insert(p.0, string_content@)
                },
                Err(e) => {
                    &&& e == AllocError::OOM
                    &&& final(self).strings() == old(self).strings()
                    &&& final(self).heap_state().bytes() == (if align8(old(self).heap_state().bytes().len() as int) + 16 + 2
                        * utf16_encode(string_content@).len() <= isize::MAX {
                        with_char_array(old(self).heap_state().bytes(), utf16_encode(string_content@))
                    } else {
                        old(self).heap_state().bytes()
                    })
                },
            },
            old(self).heap_state().bytes().len() + 2 * utf16_encode(string_content@).len() + 48 <= isize::MAX ==> r is Ok,
            r is Ok <==> string_fits(old(self).heap_state().bytes(), utf16_encode(string_content@)),
    {
        let chars = encode_utf16(string_content);
        let ghost mem0 = self.heap.bytes();
        let arr = match self.create_char_array(chars.as_slice()) {
            Ok(a) => a,
            Err(e) => {
                proof {
                    old(self).heap.lemma_same_layout(&self.heap, &self.heap);
                }
                return Err(e);
            },
        };
        let ghost mem1 = self.heap.bytes();
        let ghost h1 = self.heap;
        proof {
            old(self).heap.lemma_same_layout(&h1, &h1);
        }
        let p = match self.heap.alloc_outside(16) {
            Ok(p) => p,
            Err(e) => {
                proof {
                    old(self).heap.lemma_same_layout(&h1, &self.heap);
                    h1.lemma_wf_bounds();
                }
                return Err(e);
            },
        };
        let ghost mem2 = self.heap.bytes();
        let ghost h2 = self.heap;
        proof {
            self.heap.lemma_wf_bounds();
            old(self).heap.lemma_same_layout(&h1, &h2);
        }
        let header = Header::new().with_class_id(0).with_state(GcState::Unmarked).with_size(16);
        self.heap.write_u64(p.0, header.0);
        let ghost mem3 = self.heap.bytes();
        let ghost h3 = self.heap;
        self.heap.write_u64(p.0 + 8, arr.0);
        let ghost mem4 = self.heap.bytes();
        proof {
            old(self).heap.lemma_same_layout(&h2, &h3);
            old(self).heap.lemma_same_layout(&h3, &self.heap);
            let n = chars@.len();
            let a = arr.0 as int;
            law_read_after_write_u64(mem2, p.0 as int, header.0);
            lemma_write_frame(mem3, p.0 + 8, u64_bytes(arr.0), p.0 as int, 8);
            law_read_after_write_u64(mem3, p.0 + 8, arr.0);
            // the char[] lies below the string object and is left as it was
            assert(mem2 == mem1 + Seq::new((p.0 + 16 - mem1.len()) as nat, |i: int| 0u8));
            lemma_extend_frame(mem1, Seq::new((p.0 + 16 - mem1.len()) as nat, |i: int| 0u8), a + 8, 8);
            lemma_write_frame(mem2, p.0 as int, u64_bytes(header.0), a + 8, 8);
            lemma_write_frame(mem3, p.0 + 8, u64_bytes(arr.0), a + 8, 8);
            assert(read_u64(mem4, a + 8) == n as u64);
            assert forall|k: int| 0 <= k < n implies #[trigger] read_u16(mem4, a + 16 + 2 * k) == read_u16(mem1, a + 16 + 2 * k) by {
                lemma_extend_frame(mem1, Seq::new((p.0 + 16 - mem1.len()) as nat, |i: int| 0u8), a + 16 + 2 * k, 2);
                lemma_write_frame(mem2, p.0 as int, u64_bytes(header.0), a + 16 + 2 * k, 2);
                lemma_write_frame(mem3, p.0 + 8, u64_bytes(arr.0), a + 16 + 2 * k, 2);
            }
            assert(char_array_units(mem1, a) == Some(chars@));
            assert(Seq::new(n as nat, |k: int| read_u16(mem4, a + 16 + 2 * k)) =~= Seq::new(
                n as nat,
                |k: int| read_u16(mem1, a + 16 + 2 * k),
            ));
            assert(char_array_units(mem4, a) == Some(chars@));
            lemma_utf16_roundtrip(string_content@);
            assert forall|j: int| 0 <= j < mem0.len() implies mem4[j] == mem0[j] by {
                assert(mem1[j] == mem0[j]);
            }
        }
        let ghost strings0 = self.strings();
        Self::put_text(&mut self.string_map, p.0, String::from_str(string_content));
        Ok(p)
    }

    /// Makes an array of a primitive type outside the semi-spaces: a header
    /// whose class id is the type code, a length word, then zeroed elements.
    /// A type code other than 4 to 11 is refused.
    pub fn create_simple_array(&mut self, length: usize, array_type: u8) -> (r: Result<RawPtr, AllocError>)
        requires
            old(self).wf(),
            element_size(array_type) matches Some(sz) ==> 16 + length * sz < 0x80_0000,
        ensures
            final(self).wf(),
            final(self).heap_state().same_layout(&old(self).heap_state()),
            final(self).loader() == old(self).loader(),
            final(self).statics() == old(self).statics(),
            final(self).builders() == old(self).builders(),
            final(self).strings() == old(self).strings(),
            final(self).natives() == old(self).natives(),
            final(self).clock() == old(self).clock(),
            final(self).printed() == old(self).printed(),
            element_size(array_type) is None ==> r == Err::<RawPtr, AllocError>(AllocError::BadRequest)
                && final(self).heap_state().bytes() == old(self).heap_state().bytes(),
            element_size(array_type) matches Some(sz) ==> (r is Ok <==> align8(old(self).heap_state().bytes().len() as int) + 16
                + length * sz <= isize::MAX),
            element_size(array_type) matches Some(sz) ==> match r {
                Ok(p) => {
                    let mem = final(self).heap_state().bytes();
                    &&& p.0 == align8(old(self).heap_state().bytes().len() as int)
                    &&& mem == with_array(old(self).heap_state().bytes(), array_type, length as int, sz as int)
                    &&& p.0 != 0
                    &&& mem.len() == p.0 + 16 + length * sz
                    &&& forall|j: int| 0 <= j < old(self).heap_state().bytes().len() ==> mem[j] == old(self).heap_state().bytes()[j]
                    &&& read_u64(mem, p.0 as int) == plain_header(array_type as u64, (16 + length * sz) as u64)
                    &&& read_u64(mem, p.0 + 8) == length as u64
                    &&& forall|j: int| p.0 + 16 <= j < mem.len() ==> mem[j] == 0
                },
                Err(e) => e == AllocError::OOM && final(self).heap_state().bytes() == old(self).heap_state().bytes(),
            },
    {
        proof {
            self.heap.lemma_same_layout(&self.heap, &self.heap);
        }
        let element_size: usize = match array_type {
            4 => 1,
            5 => 2,
            6 => 4,
            7 => 8,
            8 => 1,
            9 => 2,
            10 => 4,
            11 => 8,
            _ => return Err(AllocError::BadRequest),
        };
        let total = 16 + length * element_size;
        let ghost mem0 = self.heap.bytes();
        let p = match self.heap.alloc_outside(total) {
            Ok(p) => p,
            Err(e) => return Err(e),
        };
        let ghost mem1 = self.heap.bytes();
        let ghost h1 = self.heap;
        proof {
            self.heap.lemma_wf_bounds();
        }
        let header = Header::new().with_class_id(array_type as usize).with_state(GcState::Unmarked).with_size(total);
        self.heap.write_u64(p.0, header.0);
        let ghost mem2 = self.heap.bytes();
        let ghost h2 = self.heap;
        self.heap.write_u64(p.0 + 8, length as u64);
        proof {
            old(self).heap.lemma_same_layout(&h1, &h2);
            old(self).heap.lemma_same_layout(&h2, &self.heap);
            law_read_after_write_u64(mem1, p.0 as int, header.0);
            lemma_write_frame(mem2, p.0 + 8, u64_bytes(length as u64), p.0 as int, 8);
            law_read_after_write_u64(mem2, p.0 + 8, length as u64);
            old(self).heap.lemma_same_layout(&h1, &self.heap);
            let mem = self.heap.bytes();
            assert forall|j: int| p.0 + 16 <= j < mem.len() implies mem[j] == 0 by {
                assert(mem1[j] == 0);
            }
        }
        Ok(p)
    }

    /// Calls the native method registered as `class_name.method_name`; the
    /// lines it prints are added to the output.
    pub fn call_native_method(&mut self, class_name: &str, method_name: &str, args: Vec<JvmValue>) -> (r: Result<Option<JvmValue>, JvmError>)
        ensures
            final(self).heap_state() == old(self).heap_state(),
            final(self).loader() == old(self).loader(),
            final(self).statics() == old(self).statics(),
            final(self).builders() == old(self).builders(),
            final(self).strings() == old(self).strings(),
            final(self).natives() == old(self).natives(),
            final(self).clock() == old(self).clock(),
            !old(self).natives().contains_key(class_name@ + "."@ + method_name@) ==> {
                &&& r matches Err(e) && e is IllegalStateError
                    && e.message() == "Native method not found: "@ + class_name@ + "."@ + method_name@
                &&& final(self).printed() == old(self).printed()
            },
            old(self).natives().contains_key(class_name@ + "."@ + method_name@) ==> {
                &&& r == Ok::<Option<JvmValue>, JvmError>(None)
                &&& final(self).printed() == old(self).printed().push(println_line(args@, old(self).heap_state().bytes()))
            },
    {
        let full_name = join3(class_name, ".", method_name);
        let found = self.native_methods.get(full_name.as_str());
        let result = match found {
            Some(NativeEntry::SystemOut(m)) => m.invoke(args, &self.heap),
            Some(NativeEntry::Other(m)) => m.invoke(args, &self.heap),
            None => {
                let mut msg = String::from_str("Native method not found: ");
                msg.append(full_name.as_str());
                assert(msg@ =~= "Native method not found: "@ + class_name@ + "."@ + method_name@);
                return Err(JvmError::IllegalStateError(msg));
            },
        };
        match result {
            Ok(res) => {
                append_lines(&mut self.output, res.printed);
                Ok(res.value)
            },
            Err(e) => Err(e),
        }
    }
}

/// What making a `char[]` leaves: on success, the array at the next
/// address aligned to 8 past the old memory, which is kept as it was.
/// The heap after a primitive array of type `t`, with `count` elements of
/// `sz` bytes each, is made past its end: a header, the length, zeroes.
pub open spec fn with_array(mem: Seq<u8>, t: u8, count: int, sz: int) -> Seq<u8> {
    let p = align8(mem.len() as int);
    let total = 16 + count * sz;
    write_bytes(
        write_bytes(grown(mem, total), p, u64_bytes(plain_header(t as u64, total as u64))),
        p + 8,
        u64_bytes(count as u64),
    )
}

/// The heap after a `char[]` holding the UTF-16 code units `units` is made
/// past its end.
pub open spec fn with_char_array(mem: Seq<u8>, units: Seq<u16>) -> Seq<u8> {
    write_units(with_array(mem, 1, units.len() as int, 2), align8(mem.len() as int) + 16, units)
}

/// Whether a string object for the code units `units` can be made past the
/// end of the heap: its `char[]` and then the object fit below the largest
/// size an allocation can reach.
pub open spec fn string_fits(mem: Seq<u8>, units: Seq<u16>) -> bool {
    let end = align8(mem.len() as int) + 16 + 2 * units.len();
    end <= isize::MAX && align8(end) + 16 <= isize::MAX
}

/// Where the string object for the code units `units` starts when it is
/// made past the end of the heap: after its `char[]`.
pub open spec fn string_at(mem: Seq<u8>, units: Seq<u16>) -> int {
    align8(with_char_array(mem, units).len() as int)
}

/// The heap after a string object for the code units `units` is made past
/// its end: its `char[]`, then the object, whose field points to the array.
pub open spec fn with_string(mem: Seq<u8>, units: Seq<u16>) -> Seq<u8> {
    let p = string_at(mem, units);
    write_bytes(
        write_bytes(grown(with_char_array(mem, units), 16), p, u64_bytes(plain_header(0, 16))),
        p + 8,
        u64_bytes(align8(mem.len() as int) as u64),
    )
}

pub open spec fn char_array_made(mem0: Seq<u8>, mem: Seq<u8>, chars: Seq<u16>, r: Result<RawPtr, AllocError>) -> bool {
    match r {
        Ok(p) => {
            &&& p.0 == align8(mem0.len() as int)
            &&& p.0 != 0
            &&& mem == with_char_array(mem0, chars)
            &&& mem.len() == p.0 + 16 + 2 * chars.len()
            &&& forall|j: int| 0 <= j < mem0.len() ==> mem[j] == mem0[j]
            &&& read_u64(mem, p.0 as int) == plain_header(1, (16 + 2 * chars.len()) as u64)
            &&& char_array_units(mem, p.0 as int) == Some(chars)
        },
        Err(e) => e == AllocError::OOM && mem == mem0 && align8(mem0.len() as int) + 16 + 2 * chars.len() > isize::MAX,
    }
}

fn new_char_array(heap: &mut Heap, chars: &[u16]) -> (r: Result<RawPtr, AllocError>)
    requires
        old(heap).wf(),
        16 + 2 * chars@.len() < 0x80_0000,
    ensures
        final(heap).wf(),
        final(heap).same_layout(&*old(heap)),
        char_array_made(old(heap).bytes(), final(heap).bytes(), chars@, r),
{
    let n = chars.len();
    let total = 16 + 2 * n;
    let ghost mem0 = heap.bytes();
    let ghost h0 = *heap;
    proof {
        h0.lemma_same_layout(&h0, &h0);
    }
    let p = match heap.alloc_outside(total) {
        Ok(p) => p,
        Err(e) => return Err(e),
    };
    let ghost mem1 = heap.bytes();
    let ghost h1 = *heap;
    proof {
        heap.lemma_wf_bounds();
    }
    let header = Header::new().with_class_id(1).with_state(GcState::Unmarked).with_size(total);
    heap.write_u64(p.0, header.0);
    let ghost h2 = *heap;
    heap.write_u64(p.0 + 8, n as u64);
    proof {
        let m2 = write_bytes(mem1, p.0 as int, u64_bytes(header.0));
        law_read_after_write_u64(mem1, p.0 as int, header.0);
        lemma_write_frame(m2, p.0 + 8, u64_bytes(n as u64), p.0 as int, 8);
        law_read_after_write_u64(m2, p.0 + 8, n as u64);
        h0.lemma_same_layout(&h1, &h2);
        h0.lemma_same_layout(&h2, &*heap);
    }
    let ghost m2 = heap.bytes();
    assert(m2 == with_array(mem0, 1, n as int, 2));
    assert(chars@.take(0) =~= Seq::<u16>::empty());
    let mut i: usize = 0;
    while i < n
        invariant
            heap.wf(),
            heap.same_layout(&h0),
            heap.bytes() == write_units(m2, p.0 + 16, chars@.take(i as int)),
            n == chars@.len(),
            16 + 2 * n < 0x80_0000,
            i <= n,
            p.0 == align8(mem0.len() as int),
            p.0 != 0,
            heap.bytes().len() == p.0 + 16 + 2 * n,
            heap.bytes().len() <= isize::MAX,
            forall|j: int| 0 <= j < mem0.len() ==> #[trigger] heap.bytes()[j] == mem0[j],
            read_u64(heap.bytes(), p.0 as int) == plain_header(1, total as u64),
            read_u64(heap.bytes(), p.0 + 8) == n as u64,
            forall|k: int| 0 <= k < i ==> #[trigger] read_u16(heap.bytes(), p.0 + 16 + 2 * k) == chars@[k],
        decreases n - i,
    {
        let ghost before = heap.bytes();
        let ghost hb = *heap;
        let addr = p.0 + 16 + 2 * (i as u64);
        heap.write_u16(addr, chars[i]);
        proof {
            assert(chars@.take(i + 1).drop_last() =~= chars@.take(i as int));
            assert(chars@.take(i + 1).last() == chars@[i as int]);
            h0.lemma_same_layout(&hb, &*heap);
            hb.lemma_same_layout(&*heap, &h0);
            heap.lemma_same_layout(&hb, &h0);
            law_read_after_write_u16(before, addr as int, chars@[i as int]);
            lemma_write_frame(before, addr as int, u16_bytes(chars@[i as int]), p.0 as int, 8);
            lemma_write_frame(before, addr as int, u16_bytes(chars@[i as int]), p.0 + 8, 8);
            assert forall|k: int| 0 <= k < i + 1 implies #[trigger] read_u16(heap.bytes(), p.0 + 16 + 2 * k) == chars@[k] by {
                if k < i {
                    lemma_write_frame(before, addr as int, u16_bytes(chars@[i as int]), p.0 + 16 + 2 * k, 2);
                }
            }
        }
        i = i + 1;
    }
    proof {
        let mem = heap.bytes();
        assert(Seq::new(n as nat, |k: int| read_u16(mem, p.0 + 16 + 2 * k)) =~= chars@);
        assert(chars@.take(n as int) =~= chars@);
        heap.lemma_same_layout(&h0, &h0);
    }
    Ok(p)
}

/// The size in bytes of an element of a primitive array, by the type code
/// of `newarray`: 4 boolean, 5 char, 6 float, 7 double, 8 byte, 9 short,
/// 10 int, 11 long.
pub open spec fn element_size(array_type: u8) -> Option<nat> {
    if array_type == 4 || array_type == 8 {
        Some(1)
    } else if array_type == 5 || array_type == 9 {
        Some(2)
    } else if array_type == 6 || array_type == 10 {
        Some(4)
    } else if array_type == 7 || array_type == 11 {
        Some(8)
    } else {
        None
    }
}

/// Moves printed lines to the end of an output list.
fn append_lines(output: &mut Vec<PrintItem>, lines: Vec<PrintItem>)
    ensures
        final(output)@.map_values(|p: PrintItem| p@) == old(output)@.map_values(|p: PrintItem| p@) + lines@.map_values(
            |p: PrintItem| p@,
        ),
{
    let ghost before = output@.map_values(|p: PrintItem| p@);
    let ghost all = lines@.map_values(|p: PrintItem| p@);
    let mut rest = lines;
    let total = rest.len();
    let mut i: usize = 0;
    while rest.len() > 0
        invariant
            total == all.len(),
            i <= all.len(),
            rest@.len() == all.len() - i,
            output@.map_values(|p: PrintItem| p@) == before + all.subrange(0, i as int),
            rest@.map_values(|p: PrintItem| p@) == all.subrange(i as int, all.len() as int),
        decreases rest@.len(),
    {
        let ghost out0 = output@;
        let ghost r0 = rest@;
        let line = rest.remove(0);
        assert(rest@ =~= r0.subrange(1, r0.len() as int));
        assert(rest@.map_values(|p: PrintItem| p@) =~= r0.map_values(|p: PrintItem| p@).subrange(1, r0.len() as int));
        assert(all.subrange(i as int, all.len() as int)[0] == line@);
        assert(all[i as int] == line@);
        output.push(line);
        assert(output@ == out0.push(line));
        assert(output@.map_values(|p: PrintItem| p@) =~= out0.map_values(|p: PrintItem| p@).push(line@));
        assert(before + all.subrange(0, i + 1) =~= (before + all.subrange(0, i as int)).push(all[i as int]));
        i = i + 1;
        assert(output@.map_values(|p: PrintItem| p@) =~= before + all.subrange(0, i as int));
        assert(rest@.map_values(|p: PrintItem| p@) =~= all.subrange(i as int, all.len() as int));
    }
    assert(all.subrange(0, i as int) =~= all);
}

/// How deeply the calls a dispatched method makes may nest.
pub const CALL_DEPTH: u64 = 256;

/// How many instructions a dispatched method may execute.
pub const DISPATCH_STEPS: u64 = 10000;

impl Vm {
    /// Calls a method by class, name and descriptor: loads the class, finds
    /// the method up its superclasses, calls a native method through the
    /// native registry, and runs any other on a fresh frame (with room for
    /// 65536 values on each stack) with the arguments in its locals, for at
    /// most `DISPATCH_STEPS` instructions. Gives the int or reference an
    /// `ireturn` or `areturn` hands back.
    pub fn dispatch_method_call(&mut self, class_name: &str, method_name: &str, descriptor: &str, args: Vec<JvmValue>)
        -> (r: Result<Option<JvmValue>, JvmError>)
        requires
            old(self).wf(),
        ensures
            final(self).wf(),
            dispatch_outcome(*old(self), *final(self), class_name@, method_name@, descriptor@, args@, CALL_DEPTH as int, r),
    {
        self.dispatch_within(class_name, method_name, descriptor, args, CALL_DEPTH)
    }

    /// `dispatch_method_call` with at most `depth` nested calls.
    pub fn dispatch_within(
        &mut self,
        class_name: &str,
        method_name: &str,
        descriptor: &str,
        args: Vec<JvmValue>,
        depth: u64,
    ) -> (r: Result<Option<JvmValue>, JvmError>)
        requires
            old(self).wf(),
        ensures
            final(self).wf(),
            dispatch_outcome(*old(self), *final(self), class_name@, method_name@, descriptor@, args@, depth as int, r),
        decreases depth, 3int,
    {
        let ghost vm0 = *self;
        proof {
            assert forall|vm1: Vm, r: Result<Option<JvmValue>, JvmError>|
                #[trigger] dispatch_outcome(vm0, vm1, class_name@, method_name@, descriptor@, args@, depth as int, r)
                    == dispatch_body(vm0, vm1, class_name@, method_name@, descriptor@, args@, depth as int, calls_below(depth as int), r) by {
                lemma_dispatch_outcome_unfold(vm0, vm1, class_name@, method_name@, descriptor@, args@, depth as int, r);
            }
            crate::class_loader::lemma_resolve_ids(
                self.loader().files(),
                class_name@,
                self.loader().class_id(),
                self.loader().id_for(class_name@),
            );
        }
        let klass = match self.load(class_name) {
            Ok(k) => k,
            Err(e) => {
                let mut msg = join3("Failed to load class ", class_name, ": ");
                let detail = e.to_text();
                msg.append(detail.as_str());
                return Err(JvmError::ClassNotFoundError(msg));
            },
        };
        let method = match klass.lookup_method(method_name, descriptor, self) {
            Some(m) => m,
            None => {
                let mut msg = join3("Method ", class_name, ".");
                msg.append(method_name);
                msg.append(descriptor);
                msg.append(" not found");
                return Err(JvmError::IllegalStateError(msg));
            },
        };
        if method.is_native() {
            assert(self.natives() == vm0.natives());
            return self.call_native_method(class_name, method_name, args);
        }
        let param_types = parse_method_descriptor(descriptor);
        let is_static = (method.access_flags & 0x0008) != 0;
        let mut frame = Frame {
            local_vars: LocalVars::new(method.max_locals),
            stack: OperandStack::new(65536),
            method: method.clone(),
            pc: 0,
        };
        match place_arguments(&mut frame, &param_types, &args, is_static) {
            Ok(()) => {},
            Err(e) => return Err(e),
        }
        let code = method.get_code();
        if code.len() > usize::MAX - 65538 {
            return Err(JvmError::IllegalStateError(String::from_str("Method code too long")));
        }
        let mut ret: Option<JvmValue> = None;
        let mut step_count: u64 = 0;
        let mut returned = false;
        let ghost f0 = frame@;
        let ghost whole = table_run(code@, f0, DISPATCH_STEPS as nat);
        let ghost mut tr: Seq<(FrameView, Vm)> = seq![(f0, *self)];
        while !returned && frame.pc < code.len() && step_count < DISPATCH_STEPS
            invariant
                1 <= tr.len(),
                tr[0].0 == f0,
                starts_from(*old(self), tr[0].1),
                forall|i: int| 0 <= i < tr.len() - 1 ==> #[trigger] trace_link(code@, tr, i, depth as int, calls_below(depth as int)),
                !returned ==> tr.len() == step_count + 1 && tr.last() == (frame@, *self),
                tr.last().1 == *self,
                frame@.method == method@,
                returned ==> tr.len() == step_count && 0 <= tr.last().0.pc < code@.len() && table_step(code@, tr.last().0)
                    == TableStep::Return(ret),
                self.wf(),
                frame@.bounded(),
                code.len() + 65538 <= usize::MAX,
                step_count <= DISPATCH_STEPS,
                ret matches Some(v) ==> (v is Int || v is ObjRef),
                whole == table_run(code@, f0, DISPATCH_STEPS as nat),
                !returned ==> ret is None,
                !returned ==> (whole is Escaped || whole == table_run(code@, frame@, (DISPATCH_STEPS - step_count) as nat)),
                returned ==> (whole is Escaped || whole == (if step_count >= DISPATCH_STEPS {
                    TableRun::Limit
                } else {
                    TableRun::Finished(ret)
                })),
                interpreted_start(*old(self), class_name@, method_name@, descriptor@, args@) == Some((code@, f0)),
            decreases DISPATCH_STEPS - step_count,
        {
            let ghost g = frame@;
            let ghost fuel = (DISPATCH_STEPS - step_count) as nat;
            step_count = step_count + 1;
            let opcode = code[frame.pc];
            frame.pc = frame.pc + 1;
            assert(frame@.at(frame.pc - 1) == g);
            if opcode == 0xac {
                if !frame.stack.is_values_empty() {
                    let v = frame.stack.pop_int();
                    ret = Some(JvmValue::Int(#[verifier::truncate] (v as u32)));
                }
                returned = true;
            } else if opcode == 0xad || opcode == 0xae || opcode == 0xaf || opcode == 0xb1 {
                returned = true;
            } else if opcode == 0xb0 {
                if !frame.stack.is_obj_refs_empty() {
                    let v = frame.stack.pop_obj_ref();
                    ret = Some(JvmValue::ObjRef(v));
                }
                returned = true;
            } else {
                let res = run_instruction(&mut frame, code.as_slice(), opcode, &method, self, depth);
                proof {
                    assert(fuel > 0);
                    assert(0 <= g.pc < code@.len());
                    assert(table_run(code@, g, fuel) == match table_step(code@, g) {
                        TableStep::Return(v) => if fuel == 1 { TableRun::Limit } else { TableRun::Finished(v) },
                        TableStep::Next(h) => table_run(code@, h, (fuel - 1) as nat),
                        TableStep::Fail => TableRun::Failed,
                        TableStep::Vm => TableRun::Escaped,
                    });
                }
                match res {
                    Ok(()) => {
                        proof {
                            let t0 = tr;
                            tr = tr.push((frame@, *self));
                            assert(trace_link(code@, tr, t0.len() - 1, depth as int, calls_below(depth as int)));
                            assert forall|i: int| 0 <= i < tr.len() - 1 implies #[trigger] trace_link(code@, tr, i, depth as int, calls_below(depth as int)) by {
                                if i < t0.len() - 1 {
                                    assert(trace_link(code@, t0, i, depth as int, calls_below(depth as int)));
                                    assert(tr[i] == t0[i] && tr[i + 1] == t0[i + 1]);
                                }
                            }
                        }
                    },
                    Err(e) => {
                        assert(whole is Failed || whole is Escaped);
                        assert(trace_gives(code@, f0, *old(self), *self, tr, depth as int, calls_below(depth as int), Err::<Option<JvmValue>, JvmError>(e)));
                        return Err(e);
                    },
                }
            }
        }
        if step_count >= DISPATCH_STEPS {
            let r = Err(JvmError::IllegalStateError(String::from_str("Method execution exceeded maximum steps: 10000")));
            assert(trace_gives(code@, f0, *old(self), *self, tr, depth as int, calls_below(depth as int), r));
            return r;
        }
        assert(trace_gives(code@, f0, *old(self), *self, tr, depth as int, calls_below(depth as int), Ok::<Option<JvmValue>, JvmError>(ret)));
        Ok(ret)
    }
}

/// Where an instruction that needs the virtual machine leaves the frame
/// when it succeeds: in the same method, on the instruction after it
/// (`ldc` and `newarray` take two bytes, the others three).
pub open spec fn vm_moves(code: Seq<u8>, f: FrameView, g: FrameView) -> bool {
    &&& g.method == f.method
    &&& g.pc == f.pc + (if code[f.pc] == 0x12 || code[f.pc] == 0xbc { 2int } else { 3int })
}

/// Machine `vm` is machine `vm0` but for what the class loader keeps of
/// the classes it loaded and for the lines printed.
pub open spec fn kept_but_printed(vm0: Vm, vm: Vm) -> bool {
    &&& vm.loader().files() == vm0.loader().files()
    &&& vm.heap_state() == vm0.heap_state()
    &&& vm.statics() == vm0.statics()
    &&& vm.builders() == vm0.builders()
    &&& vm.strings() == vm0.strings()
    &&& vm.natives() == vm0.natives()
    &&& vm.clock() == vm0.clock()
}

/// Machine `vm` is machine `vm0` but for what the class loader keeps of
/// the classes it loaded: loading a class and looking a method up change
/// nothing else.
pub open spec fn starts_from(vm0: Vm, vm: Vm) -> bool {
    kept_but_printed(vm0, vm) && vm.printed() == vm0.printed()
}

/// What an instruction that needs the virtual machine does when it
/// succeeds, at frame `f` (its pc at the opcode) and with machine `a`,
/// leaving frame `g` and machine `b`. `getstatic`, `putstatic`, `getfield`,
/// `putfield`, `new`, `newarray`, `ldc` and `ldc_w` go as their
/// instructions state; a call (`invokespecial`, `invokestatic`) takes its
/// arguments off and is answered as `init_with` and `call_with` say, with
/// at most `depth` nested calls, a dispatched one coming to what `calls`
/// allows.
pub open spec fn vm_link(code: Seq<u8>, f: FrameView, a: Vm, g: FrameView, b: Vm, depth: int, calls: DispatchRel) -> bool {
    let op = code[f.pc];
    let f1 = f.at(f.pc + 1);
    let index = code_u2(code, f.pc + 1) as int;
    let same_rest = {
        &&& b.loader().files() == a.loader().files()
        &&& b.statics() == a.statics()
        &&& b.strings() == a.strings()
        &&& b.builders() == a.builders()
        &&& b.printed() == a.printed()
    };
    &&& vm_moves(code, f, g)
    &&& if op == 0xb2 {
        &&& b == a
        &&& match fieldref_at(f.method.constant_pool, index) {
            None => false,
            Some((c, n, d)) => push_slots(f.at(f.pc + 3), getstatic_slots(a.statics(), c, n, d)) == Some(g),
        }
    } else if op == 0xb3 {
        &&& b.heap_state() == a.heap_state()
        &&& b.loader() == a.loader()
        &&& b.strings() == a.strings()
        &&& b.builders() == a.builders()
        &&& b.printed() == a.printed()
        &&& match fieldref_at(f.method.constant_pool, index) {
            None => false,
            Some((c, n, d)) => match putstatic_field_value(d, f.at(f.pc + 3)) {
                Some((v, h)) => g == h && b.statics() == a.statics().insert((c, n), v),
                None => false,
            },
        }
    } else if op == 0xb4 {
        &&& same_rest
        &&& b.heap_state() == a.heap_state()
        &&& getfield_outcome(f1, index, a) == Ok::<FrameView, Seq<char>>(g)
    } else if op == 0xb5 {
        &&& same_rest
        &&& match putfield_outcome(f1, index, a) {
            Ok((h, None)) => g == h && b.heap_state() == a.heap_state(),
            Ok((h, Some((x, y)))) => g == h && b.heap_state().bytes() == write_bytes(a.heap_state().bytes(), x, y),
            Err(_) => false,
        }
    } else if op == 0xbb {
        &&& same_rest
        &&& match new_outcome(f1, index, a) {
            Ok(k) => {
                let h = a.heap_state();
                let (used, p) = chunk_alloc(h.cur_start(), h.cur_used(), h.cur_capacity(), object_size(k.i_fields.len() as int));
                &&& g == f1.push_ref(p->0).at(f.pc + 3)
                &&& b.heap_state().cur_used() == used
                &&& b.heap_state().bytes() == write_bytes(
                    h.bytes(),
                    (p->0).0 as int,
                    u64_bytes(fresh_header(k.class_id as u64, object_size(k.i_fields.len() as int) as u64)),
                )
            },
            Err(_) => false,
        }
    } else if op == 0xbc {
        &&& same_rest
        &&& b.loader() == a.loader()
        &&& match newarray_outcome(f1, code[f.pc + 1], a) {
            Ok(sz) => {
                let count = f1.top_int();
                let t = code[f.pc + 1];
                let p = g.top_ref();
                let mem = b.heap_state().bytes();
                &&& p.0 == align8(a.heap_state().bytes().len() as int)
                &&& g == f1.pop_int().push_ref(p).at(f.pc + 2)
                &&& read_u64(mem, p.0 as int) == plain_header(t as u64, (16 + count * sz) as u64)
                &&& read_u64(mem, p.0 + 8) == count as u64
                &&& mem.len() == p.0 + 16 + count * sz
                &&& forall|j: int| p.0 + 16 <= j < mem.len() ==> mem[j] == 0
                &&& forall|j: int| 0 <= j < a.heap_state().bytes().len() ==> mem[j] == a.heap_state().bytes()[j]
            },
            Err(_) => false,
        }
    } else if op == 0xb8 {
        match methodref_at(f.method.constant_pool, index) {
            None => false,
            Some((c, n, d)) => {
                let (args, f2) = pop_args(f.at(f.pc + 3), descriptor_params(d));
                call_with(a, b, f2, g, c, n, d, args, depth, calls, Ok(()))
            },
        }
    } else if op == 0xb7 {
        match methodref_at(f.method.constant_pool, index) {
            None => false,
            Some((c, n, d)) => {
                let (args, f2) = pop_args(f.at(f.pc + 3), descriptor_params(d));
                if n == "<init>"@ {
                    init_with(a, b, f2, g, c, d, args, depth, calls, Ok(()))
                } else {
                    call_with(a, b, drop_receiver(f2), g, c, n, d, args, depth, calls, Ok(()))
                }
            },
        }
    } else if op == 0x12 {
        ldc_done(f1, code[f.pc + 1] as int, f.pc + 2, Ok(()), g, a, b)
    } else if op == 0x13 {
        ldc_done(f1, index, f.pc + 3, Ok(()), g, a, b)
    } else {
        true
    }
}

/// Whether step `tr[i + 1]` follows step `tr[i]` in a run of a dispatched
/// method, each a frame and the virtual machine: by a step of the table,
/// which leaves the machine as it was, or by an instruction that needs the
/// virtual machine and succeeds.
pub open spec fn trace_link(code: Seq<u8>, tr: Seq<(FrameView, Vm)>, i: int, depth: int, calls: DispatchRel) -> bool {
    let (f, a) = tr[i];
    let (g, b) = tr[i + 1];
    &&& 0 <= f.pc < code.len()
    &&& match table_step(code, f) {
        TableStep::Next(h) => g == h && b == a,
        TableStep::Vm => vm_link(code, f, a, g, b, depth, calls),
        _ => false,
    }
}

/// How a run of a dispatched method at frame `f`, with `fuel` steps left,
/// ends with `r`: no step left is the limit; a pc past the code gives no
/// value; a return gives its value (the limit when it takes the last
/// step); an instruction that fails, or one that needs the virtual machine
/// and fails, gives an error.
pub open spec fn trace_end(code: Seq<u8>, f: FrameView, fuel: int, r: Result<Option<JvmValue>, JvmError>) -> bool {
    if fuel <= 0 {
        table_outcome(TableRun::Limit, r)
    } else if !(0 <= f.pc < code.len()) {
        r == Ok::<Option<JvmValue>, JvmError>(None)
    } else {
        match table_step(code, f) {
            TableStep::Return(v) => if fuel == 1 {
                table_outcome(TableRun::Limit, r)
            } else {
                r == Ok::<Option<JvmValue>, JvmError>(v)
            },
            TableStep::Next(_) => false,
            _ => r is Err,
        }
    }
}

/// Whether a run of a dispatched method that stops at frame `f` with
/// machine `a`, `fuel` steps left, leaves machine `vm1`: the machine it
/// stopped with, unless it stopped on an instruction that needs the virtual
/// machine and failed there; such an instruction, but for a call, leaves
/// the lines printed and the static fields as they were.
pub open spec fn trace_leaves(code: Seq<u8>, f: FrameView, a: Vm, fuel: int, vm1: Vm) -> bool {
    if fuel <= 0 || !(0 <= f.pc < code.len()) || !(table_step(code, f) is Vm) {
        vm1 == a
    } else if code[f.pc] != 0xb7 && code[f.pc] != 0xb8 {
        vm1.printed() == a.printed() && vm1.statics() == a.statics()
    } else {
        true
    }
}

/// Steps `tr` are a run of a dispatched method from frame `f0`, the call
/// having found machine `vm0`, that ends with `r` and machine `vm1` within
/// `DISPATCH_STEPS` instructions, with at most `depth` nested calls, a
/// dispatched one coming to what `calls` allows.
pub open spec fn trace_gives(
    code: Seq<u8>,
    f0: FrameView,
    vm0: Vm,
    vm1: Vm,
    tr: Seq<(FrameView, Vm)>,
    depth: int,
    calls: DispatchRel,
    r: Result<Option<JvmValue>, JvmError>,
) -> bool {
    &&& 1 <= tr.len() <= DISPATCH_STEPS + 1
    &&& tr[0].0 == f0
    &&& starts_from(vm0, tr[0].1)
    &&& forall|i: int| 0 <= i < tr.len() - 1 ==> #[trigger] trace_link(code, tr, i, depth, calls)
    &&& trace_end(code, tr.last().0, DISPATCH_STEPS - (tr.len() - 1), r)
    &&& trace_leaves(code, tr.last().0, tr.last().1, DISPATCH_STEPS - (tr.len() - 1), vm1)
}

/// Whether some run of a dispatched method from frame `f0`, the call having
/// found machine `vm0`, ends with `r` and machine `vm1`.
pub open spec fn traced(
    code: Seq<u8>,
    f0: FrameView,
    vm0: Vm,
    vm1: Vm,
    depth: int,
    calls: DispatchRel,
    r: Result<Option<JvmValue>, JvmError>,
) -> bool {
    exists|tr: Seq<(FrameView, Vm)>| #[trigger] trace_gives(code, f0, vm0, vm1, tr, depth, calls, r)
}

/// What a run of a dispatched method gives: the value it returned, an
/// `IllegalStateError` "Method execution exceeded maximum steps: 10000" when
/// its steps ran out, an error when an instruction
/// failed; after an instruction that needs more than the frame, only that a
/// returned value is an int or a reference.
pub open spec fn table_outcome(run: TableRun, r: Result<Option<JvmValue>, JvmError>) -> bool {
    match run {
        TableRun::Finished(v) => r == Ok::<Option<JvmValue>, JvmError>(v),
        TableRun::Limit => r matches Err(e) && e is IllegalStateError && e.message() == "Method execution exceeded maximum steps: 10000"@,
        TableRun::Failed => r is Err,
        TableRun::Escaped => r matches Ok(Some(v)) ==> (v is Int || v is ObjRef),
    }
}

/// The frame a dispatched call of method `m` starts with: empty stacks
/// with room for 65536 values each, the given locals, pc 0.
pub open spec fn start_frame(m: MethodView, locals: Seq<JvmValue>) -> FrameView {
    FrameView { ints: Seq::empty(), refs: Seq::empty(), cap: 65536, locals, pc: 0, method: m }
}

/// The code and the start frame of an interpreted method, when the call
/// reaches one: its class loads as an ordinary class, the lookup finds a
/// method that is not native, its arguments fit in its locals and its code
/// is not too long.
pub open spec fn interpreted_start(
    vm: Vm,
    c: Seq<char>,
    m: Seq<char>,
    d: Seq<char>,
    args: Seq<JvmValue>,
) -> Option<(Seq<u8>, FrameView)> {
    match resolve_class(vm.loader().files(), c, vm.loader().id_for(c)) {
        Ok(KlassView::Instance(k)) => match chain_lookup(
            vm.loader().files(),
            k,
            m,
            d,
            vm.loader().files().len(),
        ) {
            Some(mv) => if mv.is_native() {
                None
            } else {
                match arg_locals(
                    descriptor_params(d),
                    args,
                    (mv.access_flags & 0x0008) != 0,
                    Seq::new(mv.max_locals as nat, |i: int| JvmValue::Null),
                ) {
                    Some(locals) => if mv.code.len() + 65538 <= usize::MAX {
                        Some((mv.code, start_frame(mv, locals)))
                    } else {
                        None
                    },
                    None => None,
                }
            },
            None => None,
        },
        _ => None,
    }
}

/// What a dispatched call ends in, given the state before it: a class that
/// does not load gives `ClassNotFoundError`; an array class, or a class
/// where the lookup up its superclasses finds no such method, an
/// `IllegalStateError` "Method `c`.`m``d` not found"; a native method answers through the native registry
/// (nothing back when it is registered, an `IllegalStateError` when not);
/// any other method runs on its start frame, its arguments placed in its
/// locals (an `IllegalStateError` when they do not fit), as `table_run`
/// describes, for at most `DISPATCH_STEPS` instructions; where it meets an
/// instruction that needs the virtual machine, it ends as one of the runs
/// `traced` allows.
pub open spec fn dispatch_body(
    vm: Vm,
    vm1: Vm,
    c: Seq<char>,
    m: Seq<char>,
    d: Seq<char>,
    args: Seq<JvmValue>,
    depth: int,
    calls: DispatchRel,
    r: Result<Option<JvmValue>, JvmError>,
) -> bool {
    match resolve_class(vm.loader().files(), c, vm.loader().id_for(c)) {
        Err(_) => r matches Err(e) && e is ClassNotFoundError && starts_from(vm, vm1),
        Ok(KlassView::Array(_)) => r matches Err(e) && e is IllegalStateError && e.message() == "Method "@ + c + "."@
            + m + d + " not found"@ && starts_from(vm, vm1),
        Ok(KlassView::Instance(k)) => match chain_lookup(
            vm.loader().files(),
            k,
            m,
            d,
            vm.loader().files().len(),
        ) {
            None => r matches Err(e) && e is IllegalStateError && e.message() == "Method "@ + c + "."@ + m + d
                + " not found"@ && starts_from(vm, vm1),
            Some(mv) => if mv.is_native() {
                if vm.natives().contains_key(c + "."@ + m) {
                    &&& r == Ok::<Option<JvmValue>, JvmError>(None)
                    &&& kept_but_printed(vm, vm1)
                    &&& vm1.printed() == vm.printed().push(println_line(args, vm.heap_state().bytes()))
                } else {
                    r matches Err(e) && e is IllegalStateError && starts_from(vm, vm1)
                }
            } else {
                match arg_locals(
                    descriptor_params(d),
                    args,
                    (mv.access_flags & 0x0008) != 0,
                    Seq::new(mv.max_locals as nat, |i: int| JvmValue::Null),
                ) {
                    None => r matches Err(e) && e is IllegalStateError && starts_from(vm, vm1),
                    Some(locals) => if mv.code.len() + 65538 > usize::MAX {
                        r matches Err(e) && e is IllegalStateError && starts_from(vm, vm1)
                    } else {
                        table_outcome(table_run(mv.code, start_frame(mv, locals), DISPATCH_STEPS as nat), r)
                            && traced(mv.code, start_frame(mv, locals), vm, vm1, depth, calls, r)
                    },
                }
            },
        },
    }
}

/// What a dispatched call may come to: the machine it found, the machine it
/// leaves, the class, method and descriptor, the arguments and the answer.
pub type DispatchRel = spec_fn(Vm, Vm, Seq<char>, Seq<char>, Seq<char>, Seq<JvmValue>, Result<Option<JvmValue>, JvmError>) -> bool;

/// No dispatched call at all: what a method may call with no nesting depth
/// left.
pub open spec fn no_calls() -> DispatchRel {
    |vm: Vm, vm1: Vm, c: Seq<char>, m: Seq<char>, d: Seq<char>, args: Seq<JvmValue>, r: Result<Option<JvmValue>, JvmError>|
        false
}

/// Whether relation `calls` allows a dispatched call to come to answer `r`
/// and machine `vm1`.
pub open spec fn call_allowed(
    calls: DispatchRel,
    vm: Vm,
    vm1: Vm,
    c: Seq<char>,
    m: Seq<char>,
    d: Seq<char>,
    args: Seq<JvmValue>,
    r: Result<Option<JvmValue>, JvmError>,
) -> bool {
    calls(vm, vm1, c, m, d, args, r)
}

/// What a dispatched call with at most `depth` nested calls may come to,
/// as `dispatch_body` says, the calls it makes in turn having one level of
/// nesting less.
pub open spec fn dispatch_rel(depth: int) -> DispatchRel
    decreases depth,
{
    let calls = if depth > 0 { dispatch_rel(depth - 1) } else { no_calls() };
    |vm: Vm, vm1: Vm, c: Seq<char>, m: Seq<char>, d: Seq<char>, args: Seq<JvmValue>, r: Result<Option<JvmValue>, JvmError>|
        dispatch_body(vm, vm1, c, m, d, args, depth, calls, r)
}

/// What the calls a dispatched method makes with nesting depth `depth` may
/// come to: dispatched calls with one level of nesting less.
pub open spec fn calls_below(depth: int) -> DispatchRel {
    if depth > 0 { dispatch_rel(depth - 1) } else { no_calls() }
}

/// What a dispatched call comes to, from machine `vm` to machine `vm1`,
/// with at most `depth` nested calls: as `dispatch_body` says.
pub open spec fn dispatch_outcome(
    vm: Vm,
    vm1: Vm,
    c: Seq<char>,
    m: Seq<char>,
    d: Seq<char>,
    args: Seq<JvmValue>,
    depth: int,
    r: Result<Option<JvmValue>, JvmError>,
) -> bool {
    call_allowed(dispatch_rel(depth), vm, vm1, c, m, d, args, r)
}

/// `dispatch_outcome` is `dispatch_body` with the calls below.
pub proof fn lemma_dispatch_outcome_unfold(
    vm: Vm,
    vm1: Vm,
    c: Seq<char>,
    m: Seq<char>,
    d: Seq<char>,
    args: Seq<JvmValue>,
    depth: int,
    r: Result<Option<JvmValue>, JvmError>,
)
    ensures
        dispatch_outcome(vm, vm1, c, m, d, args, depth, r) == dispatch_body(vm, vm1, c, m, d, args, depth, calls_below(depth), r),
{
}

/// What a dispatched call comes to depends on the machine it finds only
/// through its views: two machines that agree on them give the call the
/// same ends.
pub proof fn lemma_dispatch_outcome_same(
    vm0: Vm,
    vm1: Vm,
    c: Seq<char>,
    m: Seq<char>,
    d: Seq<char>,
    args: Seq<JvmValue>,
    depth: int,
)
    requires
        vm0.loader() == vm1.loader(),
        vm0.natives() == vm1.natives(),
        vm0.heap_state() == vm1.heap_state(),
        vm0.statics() == vm1.statics(),
        vm0.builders() == vm1.builders(),
        vm0.strings() == vm1.strings(),
        vm0.printed() == vm1.printed(),
        vm0.clock() == vm1.clock(),
    ensures
        forall|vm2: Vm, r: Result<Option<JvmValue>, JvmError>|
            dispatch_outcome(vm0, vm2, c, m, d, args, depth, r) == #[trigger] dispatch_outcome(vm1, vm2, c, m, d, args, depth, r),
{
    assert forall|vm2: Vm, r: Result<Option<JvmValue>, JvmError>|
        dispatch_outcome(vm0, vm2, c, m, d, args, depth, r) == #[trigger] dispatch_outcome(vm1, vm2, c, m, d, args, depth, r) by {
        assert forall|code: Seq<u8>, f0: FrameView|
            #![trigger traced(code, f0, vm0, vm2, depth, calls_below(depth), r)]
            #![trigger traced(code, f0, vm1, vm2, depth, calls_below(depth), r)]
            traced(code, f0, vm0, vm2, depth, calls_below(depth), r) == traced(code, f0, vm1, vm2, depth, calls_below(depth), r) by {
            let calls = calls_below(depth);
            if traced(code, f0, vm0, vm2, depth, calls, r) {
                let tr = choose|tr: Seq<(FrameView, Vm)>| #[trigger] trace_gives(code, f0, vm0, vm2, tr, depth, calls, r);
                assert(trace_gives(code, f0, vm1, vm2, tr, depth, calls, r));
            }
            if traced(code, f0, vm1, vm2, depth, calls, r) {
                let tr = choose|tr: Seq<(FrameView, Vm)>| #[trigger] trace_gives(code, f0, vm1, vm2, tr, depth, calls, r);
                assert(trace_gives(code, f0, vm0, vm2, tr, depth, calls, r));
            }
        }
        lemma_dispatch_outcome_unfold(vm0, vm2, c, m, d, args, depth, r);
        lemma_dispatch_outcome_unfold(vm1, vm2, c, m, d, args, depth, r);
    }
}

/// Whether a descriptor names a type whose argument is stored as an int.
pub open spec fn int_param(p: Seq<char>) -> bool {
    p == "I"@ || p == "Z"@ || p == "B"@ || p == "C"@ || p == "S"@
}

/// The locals after storing argument `arg` of parameter type `p` at `slot`:
/// an int-sized value, a float's bits or a reference in the slot, a long or
/// double as its low then its high half in two slots; a value whose kind
/// does not match the parameter is skipped. `None` when a slot it needs is
/// past the locals.
pub open spec fn place_one(p: Seq<char>, arg: JvmValue, slot: int, locals: Seq<JvmValue>) -> Option<Seq<JvmValue>> {
    if int_param(p) {
        match arg {
            JvmValue::Int(v) => if slot < locals.len() {
                Some(locals.update(slot, JvmValue::Int(((v as i32) as u32))))
            } else {
                None
            },
            _ => Some(locals),
        }
    } else if p == "J"@ || p == "D"@ {
        let bits: Option<u64> = match arg {
            JvmValue::Long(v) => if p == "J"@ { Some(v) } else { None },
            JvmValue::Double(v) => if p == "D"@ { Some(v) } else { None },
            _ => None,
        };
        match bits {
            Some(v) => if slot + 1 < locals.len() {
                Some(
                    locals.update(slot, JvmValue::Int((((v % 0x1_0000_0000) as i32) as u32))).update(
                        slot + 1,
                        JvmValue::Int((((v / 0x1_0000_0000) as i32) as u32)),
                    ),
                )
            } else {
                None
            },
            None => Some(locals),
        }
    } else if p == "F"@ {
        match arg {
            JvmValue::Float(v) => if slot < locals.len() {
                Some(locals.update(slot, JvmValue::Int(((v as i32) as u32))))
            } else {
                None
            },
            _ => Some(locals),
        }
    } else if p.len() > 0 && (p[0] == 'L' || p[0] == '[') {
        match arg {
            JvmValue::ObjRef(ptr) => if slot < locals.len() {
                Some(locals.update(slot, JvmValue::ObjRef(ptr)))
            } else {
                None
            },
            _ => Some(locals),
        }
    } else {
        Some(locals)
    }
}

/// The locals after storing the arguments of parameters `i` onwards, the
/// argument of parameter `k` at slot `base + k` (null past the arguments).
pub open spec fn place_from(
    params: Seq<Seq<char>>,
    args: Seq<JvmValue>,
    base: int,
    i: nat,
    locals: Seq<JvmValue>,
) -> Option<Seq<JvmValue>>
    decreases params.len() - i,
{
    if i >= params.len() {
        Some(locals)
    } else {
        let slot = base + i;
        let arg = if slot < args.len() { args[slot] } else { JvmValue::Null };
        match place_one(params[i as int], arg, slot, locals) {
            Some(l) => place_from(params, args, base, i + 1, l),
            None => None,
        }
    }
}

/// Whether the first argument is the receiver: an instance method called
/// with a reference first.
pub open spec fn has_receiver(args: Seq<JvmValue>, is_static: bool) -> bool {
    !is_static && args.len() > 0 && args[0] is ObjRef
}

/// The locals of a dispatched call's frame: the receiver in slot 0 for an
/// instance method, then the arguments of the parameters; `None` when one
/// does not fit.
pub open spec fn arg_locals(
    params: Seq<Seq<char>>,
    args: Seq<JvmValue>,
    is_static: bool,
    locals: Seq<JvmValue>,
) -> Option<Seq<JvmValue>> {
    if has_receiver(args, is_static) {
        if locals.len() == 0 {
            None
        } else {
            place_from(params, args, 1, 0, locals.update(0, args[0]))
        }
    } else {
        place_from(params, args, 0, 0, locals)
    }
}

/// Puts the arguments of a dispatched call into the new frame's locals.
fn place_arguments(frame: &mut Frame, param_types: &Vec<String>, args: &Vec<JvmValue>, is_static: bool) -> (r: Result<(), JvmError>)
    ensures
        match arg_locals(param_types@.map_values(|t: String| t@), args@, is_static, old(frame)@.locals) {
            Some(l) => r is Ok && final(frame)@ == (FrameView { locals: l, ..old(frame)@ }),
            None => r matches Err(e) && e is IllegalStateError,
        },
{
    let ghost params = param_types@.map_values(|t: String| t@);
    let max = frame.local_vars.max_locals();
    let mut arg_index: usize = 0;
    if !is_static && args.len() > 0 {
        match args[0] {
            JvmValue::ObjRef(this_ref) => {
                if max == 0 {
                    return Err(JvmError::IllegalStateError(String::from_str("Local variable index out of bounds")));
                }
                frame.local_vars.set_obj_ref(0, this_ref);
                arg_index = 1;
            },
            _ => {},
        }
    }
    let ghost f1 = frame@;
    proof {
        reveal_strlit("I");
        reveal_strlit("Z");
        reveal_strlit("B");
        reveal_strlit("C");
        reveal_strlit("S");
        reveal_strlit("J");
        reveal_strlit("D");
        reveal_strlit("F");
        reveal_strlit("L");
        reveal_strlit("[");
        assert("L"@ =~= seq!['L']);
        assert("["@ =~= seq!['[']);
    }
    let mut i: usize = 0;
    while i < param_types.len()
        invariant
            arg_index == (if has_receiver(args@, is_static) { 1usize } else { 0usize }),
            max == frame@.locals.len(),
            params == param_types@.map_values(|t: String| t@),
            i <= param_types@.len(),
            frame@ == (FrameView { locals: frame@.locals, ..f1 }),
            arg_locals(params, args@, is_static, old(frame)@.locals) == place_from(params, args@, arg_index as int, i as nat, frame@.locals),
            "L"@ =~= seq!['L'],
            "["@ =~= seq!['['],
        decreases param_types@.len() - i,
    {
        let slot = arg_index + i;
        let arg = if slot < args.len() { args[slot] } else { JvmValue::Null };
        let p = param_types[i].as_str();
        assert(p@ == params[i as int]);
        proof {
            if p@.len() > 0 {
                assert(p@.subrange(0, 1) =~= seq![p@[0]]);
                if p@[0] != 'L' {
                    assert(seq![p@[0]][0] != seq!['L'][0]);
                }
                if p@[0] != '[' {
                    assert(seq![p@[0]][0] != seq!['['][0]);
                }
            }
        }
        if str_eq(p, "I") || str_eq(p, "Z") || str_eq(p, "B") || str_eq(p, "C") || str_eq(p, "S") {
            if let JvmValue::Int(v) = arg {
                if slot >= max {
                    return Err(JvmError::IllegalStateError(String::from_str("Local variable index out of bounds")));
                }
                frame.local_vars.set_int(slot, v as i32);
            }
        } else if str_eq(p, "J") || str_eq(p, "D") {
            let bits: Option<u64> = match arg {
                JvmValue::Long(v) => if str_eq(p, "J") { Some(v) } else { None },
                JvmValue::Double(v) => if str_eq(p, "D") { Some(v) } else { None },
                _ => None,
            };
            if let Some(v) = bits {
                if slot >= max || slot + 1 >= max {
                    return Err(JvmError::IllegalStateError(String::from_str("Local variable index out of bounds")));
                }
                frame.local_vars.set_int(slot, (v % 0x1_0000_0000) as i32);
                frame.local_vars.set_int(slot + 1, (v / 0x1_0000_0000) as i32);
            }
        } else if str_eq(p, "F") {
            if let JvmValue::Float(v) = arg {
                if slot >= max {
                    return Err(JvmError::IllegalStateError(String::from_str("Local variable index out of bounds")));
                }
                frame.local_vars.set_int(slot, v as i32);
            }
        } else if starts_with(p, "L") || starts_with(p, "[") {
            if let JvmValue::ObjRef(ptr) = arg {
                if slot >= max {
                    return Err(JvmError::IllegalStateError(String::from_str("Local variable index out of bounds")));
                }
                frame.local_vars.set_obj_ref(slot, ptr);
            }
        }
        i = i + 1;
    }
    Ok(())
}

/// Whether the slot holds an int.
fn int_local(frame: &Frame, index: usize) -> (b: bool)
    ensures
        b == int_slot(frame@.locals, index as int) is Some,
{
    if index >= frame.local_vars.max_locals() {
        return false;
    }
    match frame.local_vars.get(index) {
        JvmValue::Int(_) => true,
        _ => false,
    }
}

/// Whether the slot holds a reference or null.
fn ref_local(frame: &Frame, index: usize) -> (b: bool)
    ensures
        b == ref_slot(frame@.locals, index as int) is Some,
{
    if index >= frame.local_vars.max_locals() {
        return false;
    }
    match frame.local_vars.get(index) {
        JvmValue::ObjRef(_) => true,
        JvmValue::Null => true,
        _ => false,
    }
}

/// The error for a missing stack value.
fn underflow() -> (e: JvmError)
    ensures
        e is IllegalStateError,
        e.message() == "Stack underflow"@,
{
    JvmError::IllegalStateError(String::from_str("Stack underflow"))
}

/// The error for a full stack.
fn full_stack() -> (e: JvmError)
    ensures
        e is StackOverflowError,
        e.message() == "Stack overflow"@,
{
    JvmError::StackOverflowError(String::from_str("Stack overflow"))
}

/// The error for an instruction cut off by the end of the code.
fn cut_off() -> (e: JvmError)
    ensures
        e is IllegalStateError,
        e.message() == "Bytecode ends inside an instruction"@,
{
    JvmError::IllegalStateError(String::from_str("Bytecode ends inside an instruction"))
}

/// The error for a local variable that does not hold what is read.
fn bad_local() -> (e: JvmError)
    ensures
        e is IllegalStateError,
        e.message() == "Invalid local variable"@,
{
    JvmError::IllegalStateError(String::from_str("Invalid local variable"))
}

/// `if_icmpge` for the dispatch table.
fn branch_if_ge(frame: &mut Frame, code: &[u8]) -> (r: Result<(), JvmError>)
    requires
        old(frame).pc + 1 < code@.len(),
        old(frame).pc + 65538 <= usize::MAX,
        old(frame)@.ints.len() >= 2,
        old(frame)@.bounded(),
    ensures
        final(frame)@.bounded(),
        r is Ok,
        final(frame)@ == old(frame)@.pop_int().pop_int().at(
            if old(frame)@.second_int() >= old(frame)@.top_int() {
                branch_target(old(frame).pc + 2, offset_at(code@, old(frame).pc))
            } else {
                old(frame).pc + 2
            },
        ),
{
    exec_if_icmpge(frame, code, None)
}

/// Whether a frame step of the dispatch table is what the instruction did.
pub open spec fn step_done(code: Seq<u8>, f: FrameView, r: Result<(), JvmError>, g: FrameView) -> bool {
    match table_step(code, f) {
        TableStep::Next(h) => r is Ok && g == h,
        TableStep::Fail => r is Err,
        _ => true,
    }
}

/// The constants: `aconst_null`, `iconst_<n>`, `bipush`, `sipush`.
fn run_constant(frame: &mut Frame, code: &[u8], op: u8) -> (r: Result<(), JvmError>)
    requires
        old(frame)@.bounded(),
        1 <= old(frame).pc <= code@.len(),
        code@[old(frame).pc - 1] == op,
        op == 0x01 || (0x02 <= op && op <= 0x08) || op == 0x10 || op == 0x11,
        code@.len() + 65538 <= usize::MAX,
    ensures
        final(frame)@.bounded(),
        step_done(code@, old(frame)@.at(old(frame).pc - 1), r, final(frame)@),
{
    let pc = frame.pc;
    if op == 0x10 && pc >= code.len() || op == 0x11 && pc + 1 >= code.len() {
        return Err(cut_off());
    }
    if frame.stack.values_len() >= frame.stack.max_size() {
        return Err(full_stack());
    }
    if op == 0x01 {
        exec_aconst_null(frame, code, None)
    } else if op == 0x02 {
        exec_iconst_m1(frame, code, None)
    } else if op == 0x03 {
        exec_iconst_0(frame, code, None)
    } else if op == 0x04 {
        exec_iconst_1(frame, code, None)
    } else if op == 0x05 {
        exec_iconst_2(frame, code, None)
    } else if op == 0x06 {
        exec_iconst_3(frame, code, None)
    } else if op == 0x07 {
        exec_iconst_4(frame, code, None)
    } else if op == 0x08 {
        exec_iconst_5(frame, code, None)
    } else if op == 0x10 {
        exec_bipush(frame, code, None)
    } else {
        exec_sipush(frame, code, None)
    }
}

/// The loads: `iload`, `iload_<n>`, `aload_<n>`.
fn run_load(frame: &mut Frame, code: &[u8], op: u8) -> (r: Result<(), JvmError>)
    requires
        old(frame)@.bounded(),
        1 <= old(frame).pc <= code@.len(),
        code@[old(frame).pc - 1] == op,
        op == 0x15 || (0x1a <= op && op <= 0x1d) || (0x2a <= op && op <= 0x2d),
    ensures
        final(frame)@.bounded(),
        step_done(code@, old(frame)@.at(old(frame).pc - 1), r, final(frame)@),
{
    let pc = frame.pc;
    if op == 0x15 && pc >= code.len() {
        return Err(cut_off());
    }
    if 0x2a <= op {
        let index = (op - 0x2a) as usize;
        if !ref_local(frame, index) {
            return Err(bad_local());
        }
        if frame.stack.obj_refs_len() >= frame.stack.max_size() {
            return Err(full_stack());
        }
        if op == 0x2a {
            exec_aload_0(frame, code, None)
        } else if op == 0x2b {
            exec_aload_1(frame, code, None)
        } else if op == 0x2c {
            exec_aload_2(frame, code, None)
        } else {
            exec_aload_3(frame, code, None)
        }
    } else {
        let index: usize = if op == 0x15 { code[pc] as usize } else { (op - 0x1a) as usize };
        if !int_local(frame, index) {
            return Err(bad_local());
        }
        if frame.stack.values_len() >= frame.stack.max_size() {
            return Err(full_stack());
        }
        if op == 0x15 {
            exec_iload(frame, code, None)
        } else if op == 0x1a {
            exec_iload_0(frame, code, None)
        } else if op == 0x1b {
            exec_iload_1(frame, code, None)
        } else if op == 0x1c {
            exec_iload_2(frame, code, None)
        } else {
            exec_iload_3(frame, code, None)
        }
    }
}

/// The stores: `istore`, `istore_<n>`, `astore_<n>`.
fn run_store(frame: &mut Frame, code: &[u8], op: u8) -> (r: Result<(), JvmError>)
    requires
        old(frame)@.bounded(),
        1 <= old(frame).pc <= code@.len(),
        code@[old(frame).pc - 1] == op,
        op == 0x36 || (0x3b <= op && op <= 0x42) || (0x4b <= op && op <= 0x4e),
    ensures
        final(frame)@.bounded(),
        step_done(code@, old(frame)@.at(old(frame).pc - 1), r, final(frame)@),
{
    let pc = frame.pc;
    if op == 0x36 && pc >= code.len() {
        return Err(cut_off());
    }
    if 0x4b <= op {
        let index = (op - 0x4b) as usize;
        if frame.stack.obj_refs_len() == 0 {
            return Err(underflow());
        }
        if index >= frame.local_vars.max_locals() {
            return Err(bad_local());
        }
        if op == 0x4b {
            exec_astore_0(frame, code, None)
        } else if op == 0x4c {
            exec_astore_1(frame, code, None)
        } else if op == 0x4d {
            exec_astore_2(frame, code, None)
        } else {
            exec_astore_3(frame, code, None)
        }
    } else {
        let index: usize = if op == 0x36 {
            code[pc] as usize
        } else if op <= 0x3e {
            (op - 0x3b) as usize
        } else {
            (op - 0x3f) as usize
        };
        if frame.stack.values_len() == 0 {
            return Err(underflow());
        }
        if index >= frame.local_vars.max_locals() {
            return Err(bad_local());
        }
        if op == 0x36 {
            exec_istore(frame, code, None)
        } else if op == 0x3b || op == 0x3f {
            exec_istore_0(frame, code, None)
        } else if op == 0x3c || op == 0x40 {
            exec_istore_1(frame, code, None)
        } else if op == 0x3d || op == 0x41 {
            exec_istore_2(frame, code, None)
        } else {
            exec_istore_3(frame, code, None)
        }
    }
}

/// `dup` and the int arithmetic: `iadd`, `isub`, `imul`, `idiv`.
fn run_arithmetic(frame: &mut Frame, code: &[u8], op: u8) -> (r: Result<(), JvmError>)
    requires
        old(frame)@.bounded(),
        1 <= old(frame).pc <= code@.len(),
        code@[old(frame).pc - 1] == op,
        op == 0x59 || op == 0x60 || op == 0x64 || op == 0x68 || op == 0x6c,
    ensures
        final(frame)@.bounded(),
        step_done(code@, old(frame)@.at(old(frame).pc - 1), r, final(frame)@),
{
    let ints = frame.stack.values_len();
    let refs = frame.stack.obj_refs_len();
    let cap = frame.stack.max_size();
    if op == 0x59 {
        if refs > 0 {
            if refs >= cap {
                return Err(full_stack());
            }
        } else if ints > 0 {
            if ints >= cap {
                return Err(full_stack());
            }
        }
        return exec_dup(frame, code, None);
    }
    if ints < 2 {
        return Err(underflow());
    }
    if op == 0x60 {
        exec_iadd(frame, code, None)
    } else if op == 0x64 {
        exec_isub(frame, code, None)
    } else if op == 0x68 {
        exec_imul(frame, code, None)
    } else {
        exec_idiv(frame, code, None)
    }
}

/// `iinc` and the branches: `goto`, `ifeq`, `ifne`, `ifge`, `if_icmpge`.
fn run_jump(frame: &mut Frame, code: &[u8], op: u8) -> (r: Result<(), JvmError>)
    requires
        old(frame)@.bounded(),
        1 <= old(frame).pc <= code@.len(),
        code@[old(frame).pc - 1] == op,
        code@.len() + 65538 <= usize::MAX,
        op == 0x84 || op == 0x99 || op == 0x9a || op == 0x9f || op == 0xa7 || op == 0xa2,
    ensures
        final(frame)@.bounded(),
        step_done(code@, old(frame)@.at(old(frame).pc - 1), r, final(frame)@),
{
    let pc = frame.pc;
    if pc + 1 >= code.len() {
        return Err(cut_off());
    }
    let ints = frame.stack.values_len();
    if op == 0x84 {
        let index = code[pc] as usize;
        if !int_local(frame, index) {
            return Err(bad_local());
        }
        exec_iinc(frame, code, None)
    } else if op == 0xa7 {
        exec_goto(frame, code, None)
    } else if op == 0xa2 {
        if ints < 2 {
            return Err(underflow());
        }
        branch_if_ge(frame, code)
    } else {
        if ints == 0 {
            return Err(underflow());
        }
        if op == 0x99 {
            exec_ifeq(frame, code, None)
        } else if op == 0x9a {
            exec_ifne(frame, code, None)
        } else {
            exec_ifge(frame, code, None)
        }
    }
}

/// Executes one instruction of a dispatched method, the frame's pc just
/// past the opcode. What an instruction would need and does not find (a
/// stack value, room on a stack, the rest of the instruction, a local of
/// the right kind, a constant) fails with an error.
fn run_instruction(frame: &mut Frame, code: &[u8], op: u8, method: &Method, vm: &mut Vm, depth: u64) -> (r: Result<(), JvmError>)
    requires
        old(frame)@.bounded(),
        1 <= old(frame).pc <= code@.len(),
        code@[old(frame).pc - 1] == op,
        code@.len() + 65538 <= usize::MAX,
        old(vm).wf(),
        old(frame)@.method == method@,
    ensures
        final(frame)@.bounded(),
        final(vm).wf(),
        step_done(code@, old(frame)@.at(old(frame).pc - 1), r, final(frame)@),
        !(table_step(code@, old(frame)@.at(old(frame).pc - 1)) is Vm) ==> *final(vm) == *old(vm),
        r is Err && op != 0xb7 && op != 0xb8 ==> final(vm).printed() == old(vm).printed() && final(vm).statics()
            == old(vm).statics(),
        r is Ok && table_step(code@, old(frame)@.at(old(frame).pc - 1)) is Vm ==> vm_link(
            code@,
            old(frame)@.at(old(frame).pc - 1),
            *old(vm),
            final(frame)@,
            *final(vm),
            depth as int,
            calls_below(depth as int),
        ),
    decreases depth, 2int,
{
    let pc = frame.pc;
    let ints = frame.stack.values_len();
    let refs = frame.stack.obj_refs_len();
    let cap = frame.stack.max_size();
    let has1 = pc < code.len();
    let has2 = pc + 1 < code.len();
    proof {
        vm.lemma_wf();
    }
    if op == 0x00 {
        frame.pc = pc;
        Ok(())
    } else if op == 0x01 || (0x02 <= op && op <= 0x08) || op == 0x10 || op == 0x11 {
        run_constant(frame, code, op)
    } else if op == 0x15 || (0x1a <= op && op <= 0x1d) || (0x2a <= op && op <= 0x2d) {
        run_load(frame, code, op)
    } else if op == 0x36 || (0x3b <= op && op <= 0x42) || (0x4b <= op && op <= 0x4e) {
        run_store(frame, code, op)
    } else if op == 0x59 || op == 0x60 || op == 0x64 || op == 0x68 || op == 0x6c {
        run_arithmetic(frame, code, op)
    } else if op == 0x84 || op == 0x99 || op == 0x9a || op == 0x9f || op == 0xa7 || op == 0xa2 {
        run_jump(frame, code, op)
    } else if op == 0x12 {
        if !has1 {
            return Err(cut_off());
        }
        let index = code[pc] as usize;
        if index == 0 || index > frame.method.constant_pool.len() {
            return Err(JvmError::IllegalStateError(String::from_str("ldc: no such constant")));
        }
        if !ldc_has_room(frame, index) {
            return Err(full_stack());
        }
        exec_ldc(frame, code, vm)
    } else if op == 0x13 || op == 0x14 {
        if !has2 {
            return Err(cut_off());
        }
        let index = read_u2(code, pc) as usize;
        if index == 0 || index > frame.method.constant_pool.len() {
            return Err(JvmError::IllegalStateError(String::from_str("ldc: no such constant")));
        }
        if op == 0x13 {
            if !ldc_has_room(frame, index) {
                return Err(full_stack());
            }
            exec_ldc_w(frame, code, vm)
        } else {
            if ints >= cap || cap - ints < 2 {
                return Err(full_stack());
            }
            exec_ldc2_w(frame, code, None)
        }
    } else if op == 0xb2 || op == 0xb3 || op == 0xb4 || op == 0xb5 || op == 0xb6 || op == 0xb7 || op == 0xb8 || op == 0xbb {
        if !has2 {
            return Err(cut_off());
        }
        if op == 0xb2 {
            exec_getstatic(frame, code, vm, method)
        } else if op == 0xb3 {
            exec_putstatic(frame, code, vm, method)
        } else if op == 0xb4 {
            exec_getfield(frame, code, vm)
        } else if op == 0xb5 {
            exec_putfield(frame, code, vm)
        } else if op == 0xb6 {
            exec_invokevirtual(frame, code, None)
        } else if op == 0xb7 {
            invoke_special_within(frame, code, vm, depth)
        } else if op == 0xb8 {
            invoke_static_within(frame, code, vm, depth)
        } else {
            exec_new(frame, code, vm)
        }
    } else if op == 0xbc {
        if !has1 {
            return Err(cut_off());
        }
        if ints == 0 {
            return Err(underflow());
        }
        exec_newarray(frame, code, vm)
    } else if op == 0xbe {
        if refs == 0 {
            return Err(underflow());
        }
        if ints >= cap {
            return Err(full_stack());
        }
        exec_arraylength(frame, code, None)
    } else if op == 0x4f {
        if ints < 2 || refs == 0 {
            return Err(underflow());
        }
        exec_iastore(frame, code, None)
    } else if op == 0x2e {
        if ints == 0 || refs == 0 {
            return Err(underflow());
        }
        exec_iaload(frame, code, None)
    } else {
        Err(unknown_opcode(op))
    }
}

/// Whether there is room for what loading a constant pushes.
fn ldc_has_room(frame: &Frame, index: usize) -> (b: bool)
    requires
        frame@.bounded(),
    ensures
        b == ldc_room(frame@, index as int),
{
    match cp_get(&frame.method.constant_pool, index) {
        Some(CpInfo::Integer { .. }) | Some(CpInfo::Float { .. }) => frame.stack.values_len() < frame.stack.max_size(),
        Some(CpInfo::String { .. }) => frame.stack.obj_refs_len() < frame.stack.max_size(),
        _ => true,
    }
}


/// A static field reads back the last value written to it, and writing
/// one field leaves every other as it was.
pub proof fn law_static_field_read_after_write(
    statics: Map<(Seq<char>, Seq<char>), JvmValue>,
    class_name: Seq<char>,
    field_name: Seq<char>,
    value: JvmValue,
    other_class: Seq<char>,
    other_field: Seq<char>,
)
    ensures
        statics.insert((class_name, field_name), value).contains_key((class_name, field_name)),
        statics.insert((class_name, field_name), value)[(class_name, field_name)] == value,
        (other_class, other_field) != (class_name, field_name) ==> (
            statics.insert((class_name, field_name), value).contains_key((other_class, other_field))
                == statics.contains_key((other_class, other_field))
            && (statics.contains_key((other_class, other_field)) ==> statics.insert((class_name, field_name), value)[(
            other_class,
            other_field,
        )] == statics[(other_class, other_field)])),
{
}

/// Text appended to a string builder follows the text it had: appending
/// `a` and then `b` leaves the builder's text followed by `a` and `b`.
pub proof fn law_builder_appends_in_order(builders: Map<u64, Seq<char>>, b: u64, a: Seq<char>, c: Seq<char>)
    ensures
        ({
            let t0 = if builders.contains_key(b) { builders[b] } else { Seq::empty() };
            let m1 = builders.insert(b, t0 + a);
            let t1 = if m1.contains_key(b) { m1[b] } else { Seq::empty() };
            let m2 = m1.insert(b, t1 + c);
            m2[b] == t0 + a + c
        }),
{
    let t0 = if builders.contains_key(b) { builders[b] } else { Seq::<char>::empty() };
    assert(t0 + a + c =~= (t0 + a) + c);
}

} // verus!

