use vstd::prelude::*;
use crate::JvmValue;
use crate::error::JvmError;
use crate::heap::RawPtr;
use crate::classfile::{fieldref_at, get_fieldref_info};
use crate::instructions::method_utils::long_bits;
use crate::jvm_thread::{
    Frame, FrameView, Slot, overflow, code_u2, read_u2, push_all, push_slots, getstatic_slots, slots_of_value,
    slots_of_descriptor,
};
use crate::method::Method;
use crate::text::{str_eq, starts_with};
use crate::vm::Vm;

verus! {

/// `getstatic` with the field reference whose index follows: pushes null
/// for `System.out`, else the value stored for the field or, when there is
/// none, the zero of its descriptor.
pub fn exec_getstatic(frame: &mut Frame, code: &[u8], vm: &Vm, method: &Method) -> (r: Result<(), JvmError>)
    requires
        old(frame).pc + 1 < code@.len(),
        old(frame)@.bounded(),
    ensures
        r is Ok ==> final(frame)@.method == old(frame)@.method && final(frame)@.pc == old(frame).pc + 2,
        final(frame)@.bounded(),
        match fieldref_at(method@.constant_pool, code_u2(code@, old(frame).pc as int) as int) {
            None => (r matches Err(e) && e is IllegalStateError) && final(frame)@ == old(frame)@.at(old(frame).pc + 2),
            Some((c, n, d)) => match push_slots(old(frame)@.at(old(frame).pc + 2), getstatic_slots(vm.statics(), c, n, d)) {
                Some(g) => r is Ok && final(frame)@ == g,
                None => r matches Err(e) && e.kind_text() == overflow(),
            },
        },
{
    let index = read_u2(code, frame.pc);
    frame.pc = frame.pc + 2;
    let (class_name, field_name, field_desc) = match get_fieldref_info(&method.constant_pool, index) {
        Some(t) => t,
        None => return Err(JvmError::IllegalStateError(String::from_str("getstatic: the constant is no field reference"))),
    };
    proof {
        reveal_strlit("java/lang/System");
        reveal_strlit("out");
    }
    let items = if str_eq(class_name.as_str(), "java/lang/System") && str_eq(field_name.as_str(), "out") {
        let mut v: Vec<Slot> = Vec::new();
        v.push(Slot::Ref(RawPtr(0)));
        assert(v@ =~= seq![Slot::Ref(RawPtr(0))]);
        v
    } else {
        match vm.get_static_field(class_name.as_str(), field_name.as_str()) {
            Some(value) => slots_of_value(value),
            None => slots_of_descriptor(field_desc.as_str()),
        }
    };
    push_all(frame, &items)
}

/// Whether a descriptor names one of the int-sized types `putstatic` stores
/// as an int.
pub open spec fn int_sized(d: Seq<char>) -> bool {
    d == "I"@ || d == "S"@ || d == "B"@ || d == "Z"@
}

/// The value `putstatic` takes off the frame for a field of descriptor `d`,
/// and the frame left; an empty stack gives the type's zero, and `None`
/// stands for a long or double with only one int on the stack.
pub open spec fn putstatic_field_value(d: Seq<char>, f: FrameView) -> Option<(JvmValue, FrameView)> {
    if int_sized(d) {
        if f.ints.len() == 0 { Some((JvmValue::Int(0), f)) } else { Some((JvmValue::Int(f.top_int() as u32), f.pop_int())) }
    } else if d == "J"@ || d == "D"@ {
        if f.ints.len() == 0 {
            Some((if d == "J"@ { JvmValue::Long(0) } else { JvmValue::Double(0) }, f))
        } else if f.ints.len() == 1 {
            None
        } else {
            let bits = long_bits(f.second_int(), f.top_int());
            Some((if d == "J"@ { JvmValue::Long(bits) } else { JvmValue::Double(bits) }, f.pop_int().pop_int()))
        }
    } else if d == "F"@ {
        if f.ints.len() == 0 { Some((JvmValue::Float(0), f)) } else { Some((JvmValue::Float((f.top_int() as u32) as u64), f.pop_int())) }
    } else if d == "C"@ {
        if f.ints.len() == 0 { Some((JvmValue::Char(0), f)) } else { Some((JvmValue::Char(f.top_int() as u16), f.pop_int())) }
    } else if d.len() > 0 && (d[0] == 'L' || d[0] == '[') {
        if f.refs.len() == 0 { Some((JvmValue::Null, f)) } else { Some((JvmValue::ObjRef(f.top_ref()), f.pop_ref())) }
    } else {
        Some((JvmValue::Null, f))
    }
}

/// Takes the value of a field of descriptor `d` off the frame.
fn take_field_value(frame: &mut Frame, d: &str) -> (r: Result<JvmValue, JvmError>)
    requires
        old(frame)@.bounded(),
    ensures
        final(frame)@.bounded(),
        match putstatic_field_value(d@, old(frame)@) {
            Some((v, g)) => r == Ok::<JvmValue, JvmError>(v) && final(frame)@ == g,
            None => (r matches Err(e) && e is IllegalStateError) && final(frame)@ == old(frame)@,
        },
{
    proof {
        reveal_strlit("I");
        reveal_strlit("S");
        reveal_strlit("B");
        reveal_strlit("Z");
        reveal_strlit("J");
        reveal_strlit("D");
        reveal_strlit("F");
        reveal_strlit("C");
        reveal_strlit("L");
        reveal_strlit("[");
        assert("L"@ =~= seq!['L']);
        assert("["@ =~= seq!['[']);
        if d@.len() > 0 {
            assert(d@.subrange(0, 1) =~= seq![d@[0]]);
            if d@[0] != 'L' {
                assert(seq![d@[0]][0] != seq!['L'][0]);
            }
            if d@[0] != '[' {
                assert(seq![d@[0]][0] != seq!['['][0]);
            }
        }
    }
    if str_eq(d, "I") || str_eq(d, "S") || str_eq(d, "B") || str_eq(d, "Z") {
        if frame.stack.is_values_empty() {
            Ok(JvmValue::Int(0))
        } else {
            Ok(JvmValue::Int(frame.stack.pop_int() as u32))
        }
    } else if str_eq(d, "J") || str_eq(d, "D") {
        let is_long = str_eq(d, "J");
        if frame.stack.is_values_empty() {
            Ok(if is_long { JvmValue::Long(0) } else { JvmValue::Double(0) })
        } else if frame.stack.values_len() == 1 {
            Err(JvmError::IllegalStateError(String::from_str("Stack underflow")))
        } else {
            let low = frame.stack.pop_int();
            let high = frame.stack.pop_int();
            let bits = (high as u32) as u64 * 0x1_0000_0000 + (low as u32) as u64;
            Ok(if is_long { JvmValue::Long(bits) } else { JvmValue::Double(bits) })
        }
    } else if str_eq(d, "F") {
        if frame.stack.is_values_empty() {
            Ok(JvmValue::Float(0))
        } else {
            Ok(JvmValue::Float((frame.stack.pop_int() as u32) as u64))
        }
    } else if str_eq(d, "C") {
        if frame.stack.is_values_empty() {
            Ok(JvmValue::Char(0))
        } else {
            Ok(JvmValue::Char(frame.stack.pop_int() as u16))
        }
    } else if starts_with(d, "L") || starts_with(d, "[") {
        if frame.stack.is_obj_refs_empty() {
            Ok(JvmValue::Null)
        } else {
            Ok(JvmValue::ObjRef(frame.stack.pop_obj_ref()))
        }
    } else {
        Ok(JvmValue::Null)
    }
}

/// `putstatic` with the field reference whose index follows: takes a value
/// of the field's type off the frame and stores it for the field.
pub fn exec_putstatic(frame: &mut Frame, code: &[u8], vm: &mut Vm, method: &Method) -> (r: Result<(), JvmError>)
    requires
        old(frame).pc + 1 < code@.len(),
        old(frame)@.bounded(),
    ensures
        r is Ok ==> final(frame)@.method == old(frame)@.method && final(frame)@.pc == old(frame).pc + 2,
        final(frame)@.bounded(),
        old(vm).wf() ==> final(vm).wf(),
        final(vm).heap_state() == old(vm).heap_state(),
        final(vm).loader() == old(vm).loader(),
        final(vm).builders() == old(vm).builders(),
        final(vm).strings() == old(vm).strings(),
        final(vm).natives() == old(vm).natives(),
        final(vm).printed() == old(vm).printed(),
        match fieldref_at(method@.constant_pool, code_u2(code@, old(frame).pc as int) as int) {
            None => (r matches Err(e) && e is IllegalStateError) && final(frame)@ == old(frame)@.at(old(frame).pc + 2)
                && final(vm).statics() == old(vm).statics(),
            Some((c, n, d)) => match putstatic_field_value(d, old(frame)@.at(old(frame).pc + 2)) {
                Some((v, g)) => r is Ok && final(frame)@ == g && final(vm).statics() == old(vm).statics().insert((c, n), v),
                None => (r matches Err(e) && e is IllegalStateError) && final(vm).statics() == old(vm).statics(),
            },
        },
{
    let index = read_u2(code, frame.pc);
    frame.pc = frame.pc + 2;
    let (class_name, field_name, field_desc) = match get_fieldref_info(&method.constant_pool, index) {
        Some(t) => t,
        None => return Err(JvmError::IllegalStateError(String::from_str("putstatic: the constant is no field reference"))),
    };
    let value = match take_field_value(frame, field_desc.as_str()) {
        Ok(v) => v,
        Err(e) => return Err(e),
    };
    let ghost vm0 = *vm;
    vm.set_static_field(class_name.as_str(), field_name.as_str(), value);
    proof {
        vm0.lemma_wf();
        vm.lemma_wf();
    }
    Ok(())
}

} // verus!
