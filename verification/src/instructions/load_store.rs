use vstd::prelude::*;
use crate::JvmValue;
use crate::error::JvmError;
use crate::jvm_thread::{Frame, FrameView};
use crate::local_vars::{int_slot, ref_slot};
use crate::vm::Vm;

verus! {

/// Pushes the int in a local variable.
pub fn load_int(frame: &mut Frame, index: usize) -> (r: Result<(), JvmError>)
    requires
        int_slot(old(frame)@.locals, index as int) is Some,
        old(frame)@.int_room(1),
    ensures
        r is Ok,
        final(frame)@ == old(frame)@.push_int(int_slot(old(frame)@.locals, index as int)->0),
{
    let value = frame.local_vars.get_int(index);
    frame.stack.push_int(value);
    Ok(())
}

/// Pops an int into a local variable.
pub fn store_int(frame: &mut Frame, index: usize) -> (r: Result<(), JvmError>)
    requires
        old(frame)@.ints.len() > 0,
        index < old(frame)@.locals.len(),
    ensures
        r is Ok,
        final(frame)@ == old(frame)@.pop_int().set_local(index as int, JvmValue::Int(old(frame)@.top_int() as u32)),
{
    let value = frame.stack.pop_int();
    frame.local_vars.set_int(index, value);
    Ok(())
}

/// Pushes the reference in a local variable; null reads as address 0.
pub fn load_ref(frame: &mut Frame, index: usize) -> (r: Result<(), JvmError>)
    requires
        ref_slot(old(frame)@.locals, index as int) is Some,
        old(frame)@.ref_room(1),
    ensures
        r is Ok,
        final(frame)@ == old(frame)@.push_ref(ref_slot(old(frame)@.locals, index as int)->0),
{
    let value = frame.local_vars.get_obj_ref(index);
    frame.stack.push_obj_ref(value);
    Ok(())
}

/// Pops a reference into a local variable.
pub fn store_ref(frame: &mut Frame, index: usize) -> (r: Result<(), JvmError>)
    requires
        old(frame)@.refs.len() > 0,
        index < old(frame)@.locals.len(),
    ensures
        r is Ok,
        final(frame)@ == old(frame)@.pop_ref().set_local(index as int, JvmValue::ObjRef(old(frame)@.top_ref())),
{
    let value = frame.stack.pop_obj_ref();
    frame.local_vars.set_obj_ref(index, value);
    Ok(())
}

/// `iload`: pushes the int in the local variable the next byte names.
pub fn exec_iload(frame: &mut Frame, code: &[u8], _vm: Option<&mut Vm>) -> (r: Result<(), JvmError>)
    requires
        old(frame).pc < code@.len(),
        int_slot(old(frame)@.locals, code@[old(frame).pc as int] as int) is Some,
        old(frame)@.int_room(1),
    ensures
        r is Ok,
        final(frame)@ == old(frame)@.push_int(int_slot(old(frame)@.locals, code@[old(frame).pc as int] as int)->0).at(
            old(frame).pc + 1,
        ),
{
    let _n = code.len();
    let index = code[frame.pc] as usize;
    frame.pc = frame.pc + 1;
    load_int(frame, index)
}

/// `istore`: pops an int into the local variable the next byte names.
pub fn exec_istore(frame: &mut Frame, code: &[u8], _vm: Option<&mut Vm>) -> (r: Result<(), JvmError>)
    requires
        old(frame).pc < code@.len(),
        old(frame)@.ints.len() > 0,
        code@[old(frame).pc as int] < old(frame)@.locals.len(),
    ensures
        r is Ok,
        final(frame)@ == old(frame)@.pop_int().set_local(
            code@[old(frame).pc as int] as int,
            JvmValue::Int(old(frame)@.top_int() as u32),
        ).at(old(frame).pc + 1),
{
    let _n = code.len();
    let index = code[frame.pc] as usize;
    frame.pc = frame.pc + 1;
    store_int(frame, index)
}

/// `aload`: pushes the reference in the local variable the next byte names.
pub fn exec_aload(frame: &mut Frame, code: &[u8], _vm: Option<&mut Vm>) -> (r: Result<(), JvmError>)
    requires
        old(frame).pc < code@.len(),
        ref_slot(old(frame)@.locals, code@[old(frame).pc as int] as int) is Some,
        old(frame)@.ref_room(1),
    ensures
        r is Ok,
        final(frame)@ == old(frame)@.push_ref(ref_slot(old(frame)@.locals, code@[old(frame).pc as int] as int)->0).at(
            old(frame).pc + 1,
        ),
{
    let _n = code.len();
    let index = code[frame.pc] as usize;
    frame.pc = frame.pc + 1;
    load_ref(frame, index)
}

/// `astore`: pops a reference into the local variable the next byte names.
pub fn exec_astore(frame: &mut Frame, code: &[u8], _vm: Option<&mut Vm>) -> (r: Result<(), JvmError>)
    requires
        old(frame).pc < code@.len(),
        old(frame)@.refs.len() > 0,
        code@[old(frame).pc as int] < old(frame)@.locals.len(),
    ensures
        r is Ok,
        final(frame)@ == old(frame)@.pop_ref().set_local(
            code@[old(frame).pc as int] as int,
            JvmValue::ObjRef(old(frame)@.top_ref()),
        ).at(old(frame).pc + 1),
{
    let _n = code.len();
    let index = code[frame.pc] as usize;
    frame.pc = frame.pc + 1;
    store_ref(frame, index)
}

/// `iload_0`: pushes the int in local variable 0.
pub fn exec_iload_0(frame: &mut Frame, _code: &[u8], _vm: Option<&mut Vm>) -> (r: Result<(), JvmError>)
    requires
        int_slot(old(frame)@.locals, 0) is Some,
        old(frame)@.int_room(1),
    ensures
        r is Ok,
        final(frame)@ == old(frame)@.push_int(int_slot(old(frame)@.locals, 0)->0),
{
    load_int(frame, 0)
}

/// `iload_1`: pushes the int in local variable 1.
pub fn exec_iload_1(frame: &mut Frame, _code: &[u8], _vm: Option<&mut Vm>) -> (r: Result<(), JvmError>)
    requires
        int_slot(old(frame)@.locals, 1) is Some,
        old(frame)@.int_room(1),
    ensures
        r is Ok,
        final(frame)@ == old(frame)@.push_int(int_slot(old(frame)@.locals, 1)->0),
{
    load_int(frame, 1)
}

/// `iload_2`: pushes the int in local variable 2.
pub fn exec_iload_2(frame: &mut Frame, _code: &[u8], _vm: Option<&mut Vm>) -> (r: Result<(), JvmError>)
    requires
        int_slot(old(frame)@.locals, 2) is Some,
        old(frame)@.int_room(1),
    ensures
        r is Ok,
        final(frame)@ == old(frame)@.push_int(int_slot(old(frame)@.locals, 2)->0),
{
    load_int(frame, 2)
}

/// `iload_3`: pushes the int in local variable 3.
pub fn exec_iload_3(frame: &mut Frame, _code: &[u8], _vm: Option<&mut Vm>) -> (r: Result<(), JvmError>)
    requires
        int_slot(old(frame)@.locals, 3) is Some,
        old(frame)@.int_room(1),
    ensures
        r is Ok,
        final(frame)@ == old(frame)@.push_int(int_slot(old(frame)@.locals, 3)->0),
{
    load_int(frame, 3)
}

/// `istore_0`: pops an int into local variable 0.
pub fn exec_istore_0(frame: &mut Frame, _code: &[u8], _vm: Option<&mut Vm>) -> (r: Result<(), JvmError>)
    requires
        old(frame)@.ints.len() > 0,
        0 < old(frame)@.locals.len(),
    ensures
        r is Ok,
        final(frame)@ == old(frame)@.pop_int().set_local(0, JvmValue::Int(old(frame)@.top_int() as u32)),
{
    store_int(frame, 0)
}

/// `istore_1`: pops an int into local variable 1.
pub fn exec_istore_1(frame: &mut Frame, _code: &[u8], _vm: Option<&mut Vm>) -> (r: Result<(), JvmError>)
    requires
        old(frame)@.ints.len() > 0,
        1 < old(frame)@.locals.len(),
    ensures
        r is Ok,
        final(frame)@ == old(frame)@.pop_int().set_local(1, JvmValue::Int(old(frame)@.top_int() as u32)),
{
    store_int(frame, 1)
}

/// `istore_2`: pops an int into local variable 2.
pub fn exec_istore_2(frame: &mut Frame, _code: &[u8], _vm: Option<&mut Vm>) -> (r: Result<(), JvmError>)
    requires
        old(frame)@.ints.len() > 0,
        2 < old(frame)@.locals.len(),
    ensures
        r is Ok,
        final(frame)@ == old(frame)@.pop_int().set_local(2, JvmValue::Int(old(frame)@.top_int() as u32)),
{
    store_int(frame, 2)
}

/// `istore_3`: pops an int into local variable 3.
pub fn exec_istore_3(frame: &mut Frame, _code: &[u8], _vm: Option<&mut Vm>) -> (r: Result<(), JvmError>)
    requires
        old(frame)@.ints.len() > 0,
        3 < old(frame)@.locals.len(),
    ensures
        r is Ok,
        final(frame)@ == old(frame)@.pop_int().set_local(3, JvmValue::Int(old(frame)@.top_int() as u32)),
{
    store_int(frame, 3)
}

/// `aload_1`: pushes the reference in local variable 1.
pub fn exec_aload_1(frame: &mut Frame, _code: &[u8], _vm: Option<&mut Vm>) -> (r: Result<(), JvmError>)
    requires
        ref_slot(old(frame)@.locals, 1) is Some,
        old(frame)@.ref_room(1),
    ensures
        r is Ok,
        final(frame)@ == old(frame)@.push_ref(ref_slot(old(frame)@.locals, 1)->0),
{
    load_ref(frame, 1)
}

/// `aload_2`: pushes the reference in local variable 2.
pub fn exec_aload_2(frame: &mut Frame, _code: &[u8], _vm: Option<&mut Vm>) -> (r: Result<(), JvmError>)
    requires
        ref_slot(old(frame)@.locals, 2) is Some,
        old(frame)@.ref_room(1),
    ensures
        r is Ok,
        final(frame)@ == old(frame)@.push_ref(ref_slot(old(frame)@.locals, 2)->0),
{
    load_ref(frame, 2)
}

/// `aload_3`: pushes the reference in local variable 3.
pub fn exec_aload_3(frame: &mut Frame, _code: &[u8], _vm: Option<&mut Vm>) -> (r: Result<(), JvmError>)
    requires
        ref_slot(old(frame)@.locals, 3) is Some,
        old(frame)@.ref_room(1),
    ensures
        r is Ok,
        final(frame)@ == old(frame)@.push_ref(ref_slot(old(frame)@.locals, 3)->0),
{
    load_ref(frame, 3)
}

/// `astore_0`: pops a reference into local variable 0.
pub fn exec_astore_0(frame: &mut Frame, _code: &[u8], _vm: Option<&mut Vm>) -> (r: Result<(), JvmError>)
    requires
        old(frame)@.refs.len() > 0,
        0 < old(frame)@.locals.len(),
    ensures
        r is Ok,
        final(frame)@ == old(frame)@.pop_ref().set_local(0, JvmValue::ObjRef(old(frame)@.top_ref())),
{
    store_ref(frame, 0)
}

/// `astore_1`: pops a reference into local variable 1.
pub fn exec_astore_1(frame: &mut Frame, _code: &[u8], _vm: Option<&mut Vm>) -> (r: Result<(), JvmError>)
    requires
        old(frame)@.refs.len() > 0,
        1 < old(frame)@.locals.len(),
    ensures
        r is Ok,
        final(frame)@ == old(frame)@.pop_ref().set_local(1, JvmValue::ObjRef(old(frame)@.top_ref())),
{
    store_ref(frame, 1)
}

/// `astore_2`: pops a reference into local variable 2.
pub fn exec_astore_2(frame: &mut Frame, _code: &[u8], _vm: Option<&mut Vm>) -> (r: Result<(), JvmError>)
    requires
        old(frame)@.refs.len() > 0,
        2 < old(frame)@.locals.len(),
    ensures
        r is Ok,
        final(frame)@ == old(frame)@.pop_ref().set_local(2, JvmValue::ObjRef(old(frame)@.top_ref())),
{
    store_ref(frame, 2)
}

/// `astore_3`: pops a reference into local variable 3.
pub fn exec_astore_3(frame: &mut Frame, _code: &[u8], _vm: Option<&mut Vm>) -> (r: Result<(), JvmError>)
    requires
        old(frame)@.refs.len() > 0,
        3 < old(frame)@.locals.len(),
    ensures
        r is Ok,
        final(frame)@ == old(frame)@.pop_ref().set_local(3, JvmValue::ObjRef(old(frame)@.top_ref())),
{
    store_ref(frame, 3)
}

} // verus!
