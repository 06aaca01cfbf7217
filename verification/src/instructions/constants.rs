use vstd::prelude::*;
use crate::error::JvmError;
use crate::jvm_thread::{Frame, code_s1, read_s1};
use crate::vm::Vm;

verus! {

/// Pushes the int constant `v`.
fn push_const(frame: &mut Frame, v: i32) -> (r: Result<(), JvmError>)
    requires
        old(frame)@.int_room(1),
    ensures
        r is Ok,
        final(frame)@ == old(frame)@.push_int(v),
{
    frame.stack.push_int(v);
    Ok(())
}

/// `iconst_m1`: pushes -1.
pub fn exec_iconst_m1(frame: &mut Frame, _code: &[u8], _vm: Option<&mut Vm>) -> (r: Result<(), JvmError>)
    requires
        old(frame)@.int_room(1),
    ensures
        r is Ok,
        final(frame)@ == old(frame)@.push_int(-1i32),
{
    push_const(frame, -1)
}

/// `iconst_0`: pushes 0.
pub fn exec_iconst_0(frame: &mut Frame, _code: &[u8], _vm: Option<&mut Vm>) -> (r: Result<(), JvmError>)
    requires
        old(frame)@.int_room(1),
    ensures
        r is Ok,
        final(frame)@ == old(frame)@.push_int(0),
{
    push_const(frame, 0)
}

/// `iconst_1`: pushes 1.
pub fn exec_iconst_1(frame: &mut Frame, _code: &[u8], _vm: Option<&mut Vm>) -> (r: Result<(), JvmError>)
    requires
        old(frame)@.int_room(1),
    ensures
        r is Ok,
        final(frame)@ == old(frame)@.push_int(1),
{
    push_const(frame, 1)
}

/// `iconst_2`: pushes 2.
pub fn exec_iconst_2(frame: &mut Frame, _code: &[u8], _vm: Option<&mut Vm>) -> (r: Result<(), JvmError>)
    requires
        old(frame)@.int_room(1),
    ensures
        r is Ok,
        final(frame)@ == old(frame)@.push_int(2),
{
    push_const(frame, 2)
}

/// `iconst_3`: pushes 3.
pub fn exec_iconst_3(frame: &mut Frame, _code: &[u8], _vm: Option<&mut Vm>) -> (r: Result<(), JvmError>)
    requires
        old(frame)@.int_room(1),
    ensures
        r is Ok,
        final(frame)@ == old(frame)@.push_int(3),
{
    push_const(frame, 3)
}

/// `iconst_4`: pushes 4.
pub fn exec_iconst_4(frame: &mut Frame, _code: &[u8], _vm: Option<&mut Vm>) -> (r: Result<(), JvmError>)
    requires
        old(frame)@.int_room(1),
    ensures
        r is Ok,
        final(frame)@ == old(frame)@.push_int(4),
{
    push_const(frame, 4)
}

/// `iconst_5`: pushes 5.
pub fn exec_iconst_5(frame: &mut Frame, _code: &[u8], _vm: Option<&mut Vm>) -> (r: Result<(), JvmError>)
    requires
        old(frame)@.int_room(1),
    ensures
        r is Ok,
        final(frame)@ == old(frame)@.push_int(5),
{
    push_const(frame, 5)
}

/// `bipush`: pushes the signed byte that follows.
pub fn exec_bipush(frame: &mut Frame, code: &[u8], _vm: Option<&mut Vm>) -> (r: Result<(), JvmError>)
    requires
        old(frame).pc < code@.len(),
        old(frame)@.int_room(1),
    ensures
        r is Ok,
        final(frame)@ == old(frame)@.push_int(code_s1(code@, old(frame).pc as int)).at(old(frame).pc + 1),
{
    let byte = read_s1(code, frame.pc);
    frame.pc = frame.pc + 1;
    frame.stack.push_int(byte);
    Ok(())
}

/// `aconst_null`: pushes 0 as the null reference, on the int stack.
pub fn exec_aconst_null(frame: &mut Frame, _code: &[u8], _vm: Option<&mut Vm>) -> (r: Result<(), JvmError>)
    requires
        old(frame)@.int_room(1),
    ensures
        r is Ok,
        final(frame)@ == old(frame)@.push_int(0),
{
    frame.stack.push_null();
    Ok(())
}

} // verus!
