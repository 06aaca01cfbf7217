use vstd::prelude::*;
use crate::JvmValue;
use crate::error::JvmError;
use crate::heap::{RawPtr, read_u32, read_u64, object_size, fresh_header, slot_bytes, write_bytes, chunk_alloc, u64_bytes};
use crate::classfile::{class_name_at, fieldref_at, get_class_name, get_fieldref_info};
use crate::class::{Klass, KlassView, InstanceKlassView};
use crate::class_loader::resolve_class;
use crate::field::{Field, FieldView};
use crate::instructions::method_utils::long_bits;
use crate::jvm_thread::{Frame, FrameView, code_u2, read_u2, illegal_state, null_pointer, overflow};
use crate::text::{str_eq, starts_with};
use crate::vm::Vm;

verus! {

/// The position of the first field named `name`.
pub open spec fn first_field_named(fs: Seq<FieldView>, name: Seq<char>) -> Option<int>
    decreases fs.len(),
{
    if fs.len() == 0 {
        None
    } else if fs[0].name == name {
        Some(0)
    } else {
        match first_field_named(fs.drop_first(), name) {
            Some(i) => Some(i + 1),
            None => None,
        }
    }
}

/// The position `first_field_named` gives is that of a field with the name.
pub proof fn lemma_first_field_named(fs: Seq<FieldView>, name: Seq<char>)
    ensures
        first_field_named(fs, name) matches Some(i) ==> 0 <= i < fs.len() && fs[i].name == name,
    decreases fs.len(),
{
    if fs.len() > 0 && fs[0].name != name {
        lemma_first_field_named(fs.drop_first(), name);
    }
}

/// The offset of the first field named `name`.
fn field_offset(fields: &Vec<Field>, name: &str) -> (r: Option<usize>)
    ensures
        match first_field_named(fields@.map_values(|f: Field| f@), name@) {
            Some(i) => r == Some(fields@[i]@.offset),
            None => r is None,
        },
{
    let ghost fs = fields@.map_values(|f: Field| f@);
    let mut i: usize = 0;
    assert(fs.subrange(0, fs.len() as int) =~= fs);
    proof {
        lemma_first_field_named(fs, name@);
    }
    while i < fields.len()
        invariant
            i <= fields@.len(),
            fs == fields@.map_values(|f: Field| f@),
            first_field_named(fs, name@) == (match first_field_named(fs.subrange(i as int, fs.len() as int), name@) {
                Some(j) => Some(j + i),
                None => None,
            }),
        decreases fields@.len() - i,
    {
        let ghost rest = fs.subrange(i as int, fs.len() as int);
        assert(rest.drop_first() =~= fs.subrange(i + 1, fs.len() as int));
        assert(rest[0] == fields@[i as int]@);
        let n = fields[i].get_name();
        if str_eq(n.as_str(), name) {
            return Some(fields[i].get_offset());
        }
        i = i + 1;
    }
    assert(fs.subrange(i as int, fs.len() as int) =~= Seq::<FieldView>::empty());
    None
}

/// What `new` comes to on frame `f`, whose pc is at the instruction's
/// operand, with the class reference at constant `index`, over virtual
/// machine `vm`: the class of the new object, or the kind of error.
pub open spec fn new_outcome(f: FrameView, index: int, vm: Vm) -> Result<InstanceKlassView, Seq<char>> {
    let h = vm.heap_state();
    match class_name_at(f.method.constant_pool, index) {
        None => Err(illegal_state()),
        Some(name) => if !f.ref_room(1) {
            Err(overflow())
        } else {
            match vm.load_failure(name) {
                Some(kind) => Err(kind),
                None => match resolve_class(vm.loader().files(), name, vm.loader().id_for(name)) {
                    Ok(KlassView::Instance(k)) => if k.i_fields.len() >= 0xF_0000 || k.class_id >= 1024 {
                        Err(illegal_state())
                    } else if chunk_alloc(h.cur_start(), h.cur_used(), h.cur_capacity(), object_size(k.i_fields.len() as int)).1 is None {
                        Err(illegal_state())
                    } else {
                        Ok(k)
                    },
                    _ => Err(illegal_state()),
                },
            }
        },
    }
}

/// `new` with the class whose index follows: loads the class and pushes a
/// new object of it, its fields left as the heap holds them.
pub fn exec_new(frame: &mut Frame, code: &[u8], vm: &mut Vm) -> (r: Result<(), JvmError>)
    requires
        old(frame).pc + 1 < code@.len(),
        old(frame)@.bounded(),
        old(vm).wf(),
    ensures
        r is Ok ==> final(frame)@.method == old(frame)@.method && final(frame)@.pc == old(frame).pc + 2,
        final(frame)@.bounded(),
        final(vm).wf(),
        final(vm).statics() == old(vm).statics(),
        final(vm).strings() == old(vm).strings(),
        final(vm).builders() == old(vm).builders(),
        final(vm).printed() == old(vm).printed(),
        final(vm).loader().files() == old(vm).loader().files(),
        match new_outcome(old(frame)@, code_u2(code@, old(frame).pc as int) as int, *old(vm)) {
            Ok(k) => {
                let h = old(vm).heap_state();
                let (used, p) = chunk_alloc(h.cur_start(), h.cur_used(), h.cur_capacity(), object_size(k.i_fields.len() as int));
                &&& r is Ok
                &&& final(frame)@ == old(frame)@.push_ref(p->0).at(old(frame).pc + 2)
                &&& final(vm).heap_state().cur_used() == used
                &&& final(vm).heap_state().bytes() == write_bytes(
                    h.bytes(),
                    (p->0).0 as int,
                    u64_bytes(fresh_header(k.class_id as u64, object_size(k.i_fields.len() as int) as u64)),
                )
                &&& read_u64(final(vm).heap_state().bytes(), (p->0).0 as int) == fresh_header(
                    k.class_id as u64,
                    object_size(k.i_fields.len() as int) as u64,
                )
            },
            Err(kind) => r matches Err(e) && e.kind_text() == kind,
        },
{
    let index = read_u2(code, frame.pc);
    frame.pc = frame.pc + 2;
    let class_name = match get_class_name(&frame.method.constant_pool, index) {
        Some(n) => n,
        None => return Err(JvmError::IllegalStateError(String::from_str("new: the constant is no class reference"))),
    };
    if frame.stack.obj_refs_len() >= frame.stack.max_size() {
        return Err(JvmError::StackOverflowError(String::from_str("Stack overflow")));
    }
    let klass = match vm.load(class_name.as_str()) {
        Ok(k) => k,
        Err(e) => return Err(e),
    };
    let instance = match &klass {
        Klass::Instance(k) => k,
        Klass::Array(_) => return Err(JvmError::IllegalStateError(String::from_str("new: not an instance class"))),
    };
    let n = instance.instance_field_count();
    if n >= 0xF_0000 || instance.get_class_id() >= 1024 {
        return Err(JvmError::IllegalStateError(String::from_str("alloc_object failed: too large")));
    }
    proof {
        vm.lemma_wf();
        vm.heap_state().lemma_wf_bounds();
    }
    let ghost h0 = vm.heap_state();
    assert(klass@ == KlassView::Instance(instance@));
    assert(object_size(n as int) < 0x80_0000);
    assert(object_size(n as int) + h0.cur_used() <= usize::MAX);
    let obj = match vm.alloc_object(&klass) {
        Ok(p) => p,
        Err(_) => return Err(JvmError::IllegalStateError(String::from_str("alloc_object failed"))),
    };
    proof {
        vm.lemma_wf();
        vm.heap_state().lemma_wf_bounds();
        assert(obj.0 == h0.cur_start() + h0.cur_used());
        assert(h0.cur_used() + object_size(n as int) <= h0.cur_capacity());
        crate::heap::law_read_after_write_u64(h0.bytes(), obj.0 as int, fresh_header(instance@.class_id as u64, object_size(n as int) as u64));
    }
    frame.stack.push_obj_ref(obj);
    Ok(())
}

/// What `getfield` comes to on frame `f`, whose pc is at the instruction's
/// operand, with the field reference at constant `index`, over virtual
/// machine `vm`: the frame after it, or the kind of error.
pub open spec fn getfield_outcome(f: FrameView, index: int, vm: Vm) -> Result<FrameView, Seq<char>> {
    let g = f.pop_ref().at(f.pc + 2);
    let p = f.top_ref();
    let mem = vm.heap_state().bytes();
    if f.refs.len() == 0 {
        Err(illegal_state())
    } else {
        match fieldref_at(f.method.constant_pool, index) {
            None => Err(illegal_state()),
            Some((c, n, d)) => if p.0 == 0 {
                Err(null_pointer())
            } else {
                match vm.load_failure(c) {
                    Some(kind) => Err(kind),
                    None => match resolve_class(vm.loader().files(), c, vm.loader().id_for(c)) {
                        Ok(KlassView::Instance(k)) => match first_field_named(k.i_fields, n) {
                            None => Err(illegal_state()),
                            Some(i) => if p.0 + 12 + k.i_fields[i].offset > mem.len() {
                                Err(illegal_state())
                            } else if !g.int_room(1) {
                                Err(overflow())
                            } else {
                                Ok(g.push_int(read_u32(mem, p.0 + 8 + k.i_fields[i].offset) as i32))
                            },
                        },
                        Ok(KlassView::Array(_)) => Ok(g),
                        Err(_) => Err(illegal_state()),
                    },
                }
            },
        }
    }
}

/// `getfield` with the field reference whose index follows: pops an object
/// and pushes the int in the slot of the first field of its class with the
/// referenced name. No object, an unknown reference, null, an unknown field
/// or a slot outside the heap fails; with an array class nothing is pushed.
pub fn exec_getfield(frame: &mut Frame, code: &[u8], vm: &mut Vm) -> (r: Result<(), JvmError>)
    requires
        old(frame).pc + 1 < code@.len(),
        old(frame)@.bounded(),
        old(vm).wf(),
    ensures
        r is Ok ==> final(frame)@.method == old(frame)@.method && final(frame)@.pc == old(frame).pc + 2,
        final(frame)@.bounded(),
        final(vm).wf(),
        final(vm).heap_state() == old(vm).heap_state(),
        final(vm).statics() == old(vm).statics(),
        final(vm).strings() == old(vm).strings(),
        final(vm).builders() == old(vm).builders(),
        final(vm).printed() == old(vm).printed(),
        final(vm).loader().files() == old(vm).loader().files(),
        match getfield_outcome(old(frame)@, code_u2(code@, old(frame).pc as int) as int, *old(vm)) {
            Ok(g) => r is Ok && final(frame)@ == g,
            Err(kind) => r matches Err(e) && e.kind_text() == kind,
        },
        r is Err ==> final(frame)@ == (if old(frame)@.refs.len() == 0 {
            old(frame)@.at(old(frame).pc + 2)
        } else {
            old(frame)@.pop_ref().at(old(frame).pc + 2)
        }),
{
    let index = read_u2(code, frame.pc);
    frame.pc = frame.pc + 2;
    if frame.stack.is_obj_refs_empty() {
        return Err(JvmError::IllegalStateError(String::from_str("getfield: no object reference on the stack")));
    }
    let obj_ref = frame.stack.pop_obj_ref();
    let (class_name, field_name, _field_desc) = match get_fieldref_info(&frame.method.constant_pool, index) {
        Some(t) => t,
        None => return Err(JvmError::IllegalStateError(String::from_str("getfield: the constant is no field reference"))),
    };
    if obj_ref.is_null() {
        return Err(JvmError::NullPointerError(String::from_str("getfield: the object reference is null")));
    }
    let klass = match vm.load(class_name.as_str()) {
        Ok(k) => k,
        Err(e) => return Err(e),
    };
    match &klass {
        Klass::Instance(instance) => {
            assert(klass@ == KlassView::Instance(instance@));
            proof {
                lemma_first_field_named(instance@.i_fields, field_name@);
            }
            let offset = match field_offset(instance.get_instance_fields(), field_name.as_str()) {
                Some(o) => o,
                None => return Err(JvmError::IllegalStateError(String::from_str("getfield: no such field"))),
            };
            let len = vm.heap().memory_len();
            if obj_ref.0 >= len as u64 || offset >= len || (len as u64) - obj_ref.0 < 12 || ((len as u64) - obj_ref.0 - 12) < offset as u64 {
                return Err(JvmError::IllegalStateError(String::from_str("getfield: the field lies outside the heap")));
            }
            let value = vm.heap().get_field(obj_ref, offset);
            if frame.stack.values_len() >= frame.stack.max_size() {
                return Err(JvmError::StackOverflowError(String::from_str("Stack overflow")));
            }
            match value {
                JvmValue::Int(v) => frame.stack.push_int(v as i32),
                _ => {},
            }
            Ok(())
        },
        Klass::Array(_) => Ok(()),
    }
}

/// The value `putfield` takes off the frame for a field of descriptor `d`,
/// and the frame left: an empty stack gives the type's zero, and a long or
/// double with one int on the stack has 0 as its high half.
pub open spec fn putfield_value(d: Seq<char>, f: FrameView) -> (JvmValue, FrameView) {
    if d == "I"@ || d == "S"@ || d == "B"@ || d == "Z"@ {
        if f.ints.len() == 0 { (JvmValue::Int(0), f) } else { (JvmValue::Int(f.top_int() as u32), f.pop_int()) }
    } else if d == "J"@ || d == "D"@ {
        let (bits, g) = if f.ints.len() == 0 {
            (0u64, f)
        } else if f.ints.len() == 1 {
            (long_bits(0, f.top_int()), f.pop_int())
        } else {
            (long_bits(f.second_int(), f.top_int()), f.pop_int().pop_int())
        };
        (if d == "J"@ { JvmValue::Long(bits) } else { JvmValue::Double(bits) }, g)
    } else if d == "F"@ {
        if f.ints.len() == 0 { (JvmValue::Float(0), f) } else { (JvmValue::Float((f.top_int() as u32) as u64), f.pop_int()) }
    } else if d == "C"@ {
        if f.ints.len() == 0 { (JvmValue::Char(0), f) } else { (JvmValue::Char(f.top_int() as u16), f.pop_int()) }
    } else if d.len() > 0 && (d[0] == 'L' || d[0] == '[') {
        if f.refs.len() == 0 { (JvmValue::Null, f) } else { (JvmValue::ObjRef(f.top_ref()), f.pop_ref()) }
    } else {
        (JvmValue::Null, f)
    }
}

/// Takes the value of a field of descriptor `d` off the frame.
fn take_putfield_value(frame: &mut Frame, d: &str) -> (v: JvmValue)
    ensures
        (v, final(frame)@) == putfield_value(d@, old(frame)@),
{
    proof {
        reveal_strlit("I");
        reveal_strlit("S");
        reveal_strlit("B");
        reveal_strlit("Z");
        reveal_strlit("J");
        reveal_strlit("D");
        reveal_strlit("F");
        reveal_strlit("C");
        reveal_strlit("L");
        reveal_strlit("[");
        assert("L"@ =~= seq!['L']);
        assert("["@ =~= seq!['[']);
        if d@.len() > 0 {
            assert(d@.subrange(0, 1) =~= seq![d@[0]]);
            if d@[0] != 'L' {
                assert(seq![d@[0]][0] != seq!['L'][0]);
            }
            if d@[0] != '[' {
                assert(seq![d@[0]][0] != seq!['['][0]);
            }
        }
    }
    if str_eq(d, "I") || str_eq(d, "S") || str_eq(d, "B") || str_eq(d, "Z") {
        if frame.stack.is_values_empty() { JvmValue::Int(0) } else { JvmValue::Int(frame.stack.pop_int() as u32) }
    } else if str_eq(d, "J") || str_eq(d, "D") {
        let is_long = str_eq(d, "J");
        let bits: u64 = if frame.stack.is_values_empty() {
            0
        } else {
            let low = frame.stack.pop_int();
            let high: i32 = if !frame.stack.is_values_empty() { frame.stack.pop_int() } else { 0 };
            (high as u32) as u64 * 0x1_0000_0000 + (low as u32) as u64
        };
        if is_long { JvmValue::Long(bits) } else { JvmValue::Double(bits) }
    } else if str_eq(d, "F") {
        if frame.stack.is_values_empty() { JvmValue::Float(0) } else { JvmValue::Float((frame.stack.pop_int() as u32) as u64) }
    } else if str_eq(d, "C") {
        if frame.stack.is_values_empty() { JvmValue::Char(0) } else { JvmValue::Char(frame.stack.pop_int() as u16) }
    } else if starts_with(d, "L") || starts_with(d, "[") {
        if frame.stack.is_obj_refs_empty() { JvmValue::Null } else { JvmValue::ObjRef(frame.stack.pop_obj_ref()) }
    } else {
        JvmValue::Null
    }
}

/// What `putfield` comes to on frame `f`, whose pc is at the instruction's
/// operand, with the field reference at constant `index`, over virtual
/// machine `vm`: the frame after it and the bytes written to the heap, with
/// their address, if any; or the kind of error.
pub open spec fn putfield_outcome(f: FrameView, index: int, vm: Vm) -> Result<(FrameView, Option<(int, Seq<u8>)>), Seq<char>> {
    let p = f.top_ref();
    let mem = vm.heap_state().bytes();
    match fieldref_at(f.method.constant_pool, index) {
        None => Err(illegal_state()),
        Some((c, n, d)) => if f.refs.len() == 0 || p.0 == 0 {
            Err(null_pointer())
        } else {
            let (v, g) = putfield_value(d, f.pop_ref().at(f.pc + 2));
            match vm.load_failure(c) {
                Some(kind) => Err(kind),
                None => match resolve_class(vm.loader().files(), c, vm.loader().id_for(c)) {
                    Ok(KlassView::Instance(k)) => match first_field_named(k.i_fields, n) {
                        None => Err(illegal_state()),
                        Some(i) => if !(v is Int || v is ObjRef) {
                            Err("Unimplemented"@)
                        } else if p.0 + 8 + slot_bytes(v).len() + k.i_fields[i].offset > mem.len() {
                            Err(illegal_state())
                        } else {
                            Ok((g, Some((p.0 + 8 + k.i_fields[i].offset, slot_bytes(v)))))
                        },
                    },
                    Ok(KlassView::Array(_)) => Ok((g, None)),
                    Err(_) => Err(illegal_state()),
                },
            }
        },
    }
}

/// The frame a failed `putfield` leaves, its pc at the instruction's
/// operand, with the field reference at constant `index`: the pc moved past
/// the operand; without a field reference nothing popped; with no object or
/// a null one, that reference popped and the int stack kept; else the
/// object and the field's value popped.
pub open spec fn putfield_error_frame(f: FrameView, index: int) -> FrameView {
    let g = f.at(f.pc + 2);
    match fieldref_at(f.method.constant_pool, index) {
        None => g,
        Some((c, n, d)) => if f.refs.len() == 0 {
            g
        } else if f.top_ref().0 == 0 {
            g.pop_ref()
        } else {
            putfield_value(d, g.pop_ref()).1
        },
    }
}

/// `putfield` with the field reference whose index follows: pops the
/// object (null when there is none) and a value of the field's type, and
/// stores the value in the slot of the first field of the object's class
/// with that name. Null, an unknown reference or field, a value other than
/// an int or a reference, and a slot outside the heap fail; with an array
/// class nothing is stored.
pub fn exec_putfield(frame: &mut Frame, code: &[u8], vm: &mut Vm) -> (r: Result<(), JvmError>)
    requires
        old(frame).pc + 1 < code@.len(),
        old(frame)@.bounded(),
        old(vm).wf(),
    ensures
        r is Ok ==> final(frame)@.method == old(frame)@.method && final(frame)@.pc == old(frame).pc + 2,
        final(frame)@.bounded(),
        final(vm).wf(),
        final(vm).statics() == old(vm).statics(),
        final(vm).strings() == old(vm).strings(),
        final(vm).builders() == old(vm).builders(),
        final(vm).printed() == old(vm).printed(),
        final(vm).loader().files() == old(vm).loader().files(),
        match putfield_outcome(old(frame)@, code_u2(code@, old(frame).pc as int) as int, *old(vm)) {
            Ok((g, None)) => r is Ok && final(frame)@ == g && final(vm).heap_state() == old(vm).heap_state(),
            Ok((g, Some((a, b)))) => r is Ok && final(frame)@ == g && final(vm).heap_state().bytes() == write_bytes(
                old(vm).heap_state().bytes(),
                a,
                b,
            ),
            Err(kind) => r matches Err(e) && e.kind_text() == kind,
        },
        r is Err ==> final(vm).heap_state() == old(vm).heap_state(),
        r is Err ==> final(frame)@ == putfield_error_frame(old(frame)@, code_u2(code@, old(frame).pc as int) as int),
{
    let index = read_u2(code, frame.pc);
    frame.pc = frame.pc + 2;
    let (class_name, field_name, field_desc) = match get_fieldref_info(&frame.method.constant_pool, index) {
        Some(t) => t,
        None => return Err(JvmError::IllegalStateError(String::from_str("putfield: the constant is no field reference"))),
    };
    let obj_ref = if !frame.stack.is_obj_refs_empty() { frame.stack.pop_obj_ref() } else { RawPtr(0) };
    if obj_ref.is_null() {
        return Err(JvmError::NullPointerError(String::from_str("putfield: the object reference is null")));
    }
    let value = take_putfield_value(frame, field_desc.as_str());
    let klass = match vm.load(class_name.as_str()) {
        Ok(k) => k,
        Err(e) => return Err(e),
    };
    match &klass {
        Klass::Instance(instance) => {
            assert(klass@ == KlassView::Instance(instance@));
            proof {
                lemma_first_field_named(instance@.i_fields, field_name@);
            }
            let offset = match field_offset(instance.get_instance_fields(), field_name.as_str()) {
                Some(o) => o,
                None => return Err(JvmError::IllegalStateError(String::from_str("putfield: no such field"))),
            };
            let width: u64 = match value {
                JvmValue::Int(_) => 4,
                JvmValue::ObjRef(_) => 8,
                _ => return Err(JvmError::Unimplemented(String::from_str("putfield: this type of value cannot be stored"))),
            };
            let len = vm.heap().memory_len();
            if obj_ref.0 >= len as u64 || offset >= len || (len as u64) - obj_ref.0 < 8 + width || ((len as u64) - obj_ref.0 - 8 - width) < offset as u64 {
                return Err(JvmError::IllegalStateError(String::from_str("putfield: the field lies outside the heap")));
            }
            proof {
                vm.lemma_wf();
            }
            let ghost vm0 = *vm;
            vm.heap_mut().put_field(obj_ref, offset, value);
            proof {
                vm0.lemma_wf();
                vm.lemma_wf();
            }
            Ok(())
        },
        Klass::Array(_) => Ok(()),
    }
}

} // verus!
