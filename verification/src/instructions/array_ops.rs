use vstd::prelude::*;
use crate::error::JvmError;
use crate::heap::{RawPtr, read_u64, plain_header, align8};
use crate::jvm_thread::{Frame, FrameView, illegal_state, overflow};
use crate::vm::{Vm, element_size};

verus! {

/// What `newarray` comes to on frame `f` with type code `t` over virtual
/// machine `vm`: the size of an element, or the kind of error.
pub open spec fn newarray_outcome(f: FrameView, t: u8, vm: Vm) -> Result<nat, Seq<char>> {
    let count = f.top_int();
    if count < 0 {
        Err(illegal_state())
    } else {
        match element_size(t) {
            None => Err(illegal_state()),
            Some(sz) => if count >= 0x80_0000 || 16 + count * sz >= 0x80_0000 {
                Err(illegal_state())
            } else if !f.pop_int().ref_room(1) {
                Err(overflow())
            } else if align8(vm.heap_state().bytes().len() as int) + 16 + count * sz > isize::MAX {
                Err(illegal_state())
            } else {
                Ok(sz)
            },
        }
    }
}

/// `newarray`: pops a count and pushes a new zeroed array of the primitive
/// type whose code follows (4 to 11). A negative count, another type code
/// or an array that cannot be made fails.
pub fn exec_newarray(frame: &mut Frame, code: &[u8], vm: &mut Vm) -> (r: Result<(), JvmError>)
    requires
        old(frame).pc < code@.len(),
        old(frame)@.ints.len() > 0,
        old(frame)@.bounded(),
        old(vm).wf(),
    ensures
        r is Ok ==> final(frame)@.method == old(frame)@.method && final(frame)@.pc == old(frame).pc + 1,
        final(frame)@.bounded(),
        final(vm).wf(),
        final(vm).loader() == old(vm).loader(),
        final(vm).statics() == old(vm).statics(),
        final(vm).strings() == old(vm).strings(),
        final(vm).builders() == old(vm).builders(),
        final(vm).printed() == old(vm).printed(),
        match newarray_outcome(old(frame)@, code@[old(frame).pc as int], *old(vm)) {
            Ok(sz) => {
                let count = old(frame)@.top_int();
                let t = code@[old(frame).pc as int];
                let p = final(frame)@.top_ref();
                let mem = final(vm).heap_state().bytes();
                &&& r is Ok
                &&& p.0 == align8(old(vm).heap_state().bytes().len() as int)
                &&& final(frame)@ == old(frame)@.pop_int().push_ref(p).at(old(frame).pc + 1)
                &&& read_u64(mem, p.0 as int) == plain_header(t as u64, (16 + count * sz) as u64)
                &&& read_u64(mem, p.0 + 8) == count as u64
                &&& mem.len() == p.0 + 16 + count * sz
                &&& forall|j: int| p.0 + 16 <= j < mem.len() ==> mem[j] == 0
                &&& forall|j: int| 0 <= j < old(vm).heap_state().bytes().len() ==> mem[j] == old(vm).heap_state().bytes()[j]
            },
            Err(kind) => r matches Err(e) && e.kind_text() == kind,
        },
{
    let count = frame.stack.pop_int();
    let array_type = code[frame.pc];
    frame.pc = frame.pc + 1;
    if count < 0 {
        return Err(JvmError::IllegalStateError(String::from_str("Array size cannot be negative")));
    }
    let size: u64 = match array_type {
        4 | 8 => 1,
        5 | 9 => 2,
        6 | 10 => 4,
        7 | 11 => 8,
        _ => return Err(JvmError::IllegalStateError(String::from_str("Unsupported array type"))),
    };
    if count as u64 >= 0x80_0000 || 16 + (count as u64) * size >= 0x80_0000 {
        return Err(JvmError::IllegalStateError(String::from_str("Failed to create array: too large")));
    }
    if frame.stack.obj_refs_len() >= frame.stack.max_size() {
        return Err(JvmError::StackOverflowError(String::from_str("Stack overflow")));
    }
    match vm.create_simple_array(count as usize, array_type) {
        Ok(p) => {
            frame.stack.push_obj_ref(p);
            Ok(())
        },
        Err(_) => Err(JvmError::IllegalStateError(String::from_str("Failed to create array"))),
    }
}

/// `arraylength`: pops an array reference and pushes 10, the one length
/// this interpreter knows; null fails.
pub fn exec_arraylength(frame: &mut Frame, _code: &[u8], _vm: Option<&mut Vm>) -> (r: Result<(), JvmError>)
    requires
        old(frame)@.refs.len() > 0,
        old(frame)@.int_room(1),
    ensures
        old(frame)@.top_ref().0 == 0 ==> (r matches Err(e) && e is IllegalStateError) && final(frame)@ == old(frame)@.pop_ref(),
        old(frame)@.top_ref().0 != 0 ==> r is Ok && final(frame)@ == old(frame)@.pop_ref().push_int(10),
{
    let array_ref = frame.stack.pop_obj_ref();
    if array_ref.is_null() {
        return Err(JvmError::IllegalStateError(String::from_str("NullPointerException")));
    }
    frame.stack.push_int(10);
    Ok(())
}

/// `iastore`: pops a value, an index and an array reference; null and a
/// negative index fail. The element itself is not written.
pub fn exec_iastore(frame: &mut Frame, _code: &[u8], _vm: Option<&mut Vm>) -> (r: Result<(), JvmError>)
    requires
        old(frame)@.ints.len() >= 2,
        old(frame)@.refs.len() > 0,
    ensures
        final(frame)@ == old(frame)@.pop_int().pop_int().pop_ref(),
        old(frame)@.top_ref().0 == 0 || old(frame)@.second_int() < 0 ==> (r matches Err(e) && e is IllegalStateError),
        old(frame)@.top_ref().0 != 0 && old(frame)@.second_int() >= 0 ==> r is Ok,
{
    let _value = frame.stack.pop_int();
    let index = frame.stack.pop_int();
    let array_ref = frame.stack.pop_obj_ref();
    if array_ref.is_null() {
        return Err(JvmError::IllegalStateError(String::from_str("NullPointerException")));
    }
    if index < 0 {
        return Err(JvmError::IllegalStateError(String::from_str("Array index cannot be negative")));
    }
    Ok(())
}

/// `iaload`: pops an index and an array reference and pushes 0; null and a
/// negative index fail.
pub fn exec_iaload(frame: &mut Frame, _code: &[u8], _vm: Option<&mut Vm>) -> (r: Result<(), JvmError>)
    requires
        old(frame)@.ints.len() >= 1,
        old(frame)@.refs.len() > 0,
        old(frame)@.bounded(),
    ensures
        old(frame)@.top_ref().0 == 0 || old(frame)@.top_int() < 0 ==> (r matches Err(e) && e is IllegalStateError)
            && final(frame)@ == old(frame)@.pop_int().pop_ref(),
        old(frame)@.top_ref().0 != 0 && old(frame)@.top_int() >= 0 ==> r is Ok && final(frame)@ == old(frame)@.pop_int().pop_ref().push_int(0),
{
    let index = frame.stack.pop_int();
    let array_ref = frame.stack.pop_obj_ref();
    if array_ref.is_null() {
        return Err(JvmError::IllegalStateError(String::from_str("NullPointerException")));
    }
    if index < 0 {
        return Err(JvmError::IllegalStateError(String::from_str("Array index cannot be negative")));
    }
    frame.stack.push_int(0);
    Ok(())
}

} // verus!
