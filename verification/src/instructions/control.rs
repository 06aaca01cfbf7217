use vstd::prelude::*;
use crate::error::JvmError;
use crate::jvm_thread::{Frame, branch_target, code_s2, jump_target, read_s2};
use crate::vm::Vm;

verus! {

/// `goto`: jumps by the signed 16-bit offset that follows.
pub fn exec_goto(frame: &mut Frame, code: &[u8], _vm: Option<&mut Vm>) -> (r: Result<(), JvmError>)
    requires
        old(frame).pc + 1 < code@.len(),
        old(frame).pc + 65538 <= usize::MAX,
    ensures
        r is Ok,
        final(frame)@ == old(frame)@.at(branch_target(old(frame).pc + 2, code_s2(code@, old(frame).pc as int))),
{
    let offset = read_s2(code, frame.pc);
    frame.pc = frame.pc + 2;
    frame.pc = jump_target(frame.pc, offset);
    Ok(())
}

/// Pops an int and jumps by the offset that follows when `taken` says so
/// of the int.
fn branch_on_int(frame: &mut Frame, code: &[u8], kind: u8) -> (r: Result<(), JvmError>)
    requires
        old(frame).pc + 1 < code@.len(),
        old(frame).pc + 65538 <= usize::MAX,
        old(frame)@.ints.len() > 0,
        kind < 3,
    ensures
        r is Ok,
        final(frame)@ == old(frame)@.pop_int().at(
            if int_branch_taken(kind, old(frame)@.top_int()) {
                branch_target(old(frame).pc + 2, code_s2(code@, old(frame).pc as int))
            } else {
                old(frame).pc + 2
            },
        ),
{
    let offset = read_s2(code, frame.pc);
    frame.pc = frame.pc + 2;
    let value = frame.stack.pop_int();
    let taken = if kind == 0 {
        value == 0
    } else if kind == 1 {
        value != 0
    } else {
        value >= 0
    };
    if taken {
        frame.pc = jump_target(frame.pc, offset);
    }
    Ok(())
}

/// Whether a one-int branch is taken: kind 0 on zero, kind 1 on non-zero,
/// kind 2 on a non-negative int.
pub open spec fn int_branch_taken(kind: u8, v: i32) -> bool {
    if kind == 0 {
        v == 0
    } else if kind == 1 {
        v != 0
    } else {
        v >= 0
    }
}

/// `ifeq`: pops an int and jumps when it is zero.
pub fn exec_ifeq(frame: &mut Frame, code: &[u8], _vm: Option<&mut Vm>) -> (r: Result<(), JvmError>)
    requires
        old(frame).pc + 1 < code@.len(),
        old(frame).pc + 65538 <= usize::MAX,
        old(frame)@.ints.len() > 0,
    ensures
        r is Ok,
        final(frame)@ == old(frame)@.pop_int().at(
            if old(frame)@.top_int() == 0 {
                branch_target(old(frame).pc + 2, code_s2(code@, old(frame).pc as int))
            } else {
                old(frame).pc + 2
            },
        ),
{
    branch_on_int(frame, code, 0)
}

/// `ifne`: pops an int and jumps when it is not zero.
pub fn exec_ifne(frame: &mut Frame, code: &[u8], _vm: Option<&mut Vm>) -> (r: Result<(), JvmError>)
    requires
        old(frame).pc + 1 < code@.len(),
        old(frame).pc + 65538 <= usize::MAX,
        old(frame)@.ints.len() > 0,
    ensures
        r is Ok,
        final(frame)@ == old(frame)@.pop_int().at(
            if old(frame)@.top_int() != 0 {
                branch_target(old(frame).pc + 2, code_s2(code@, old(frame).pc as int))
            } else {
                old(frame).pc + 2
            },
        ),
{
    branch_on_int(frame, code, 1)
}

/// `ifge`: pops an int and jumps when it is not negative.
pub fn exec_ifge(frame: &mut Frame, code: &[u8], _vm: Option<&mut Vm>) -> (r: Result<(), JvmError>)
    requires
        old(frame).pc + 1 < code@.len(),
        old(frame).pc + 65538 <= usize::MAX,
        old(frame)@.ints.len() > 0,
    ensures
        r is Ok,
        final(frame)@ == old(frame)@.pop_int().at(
            if old(frame)@.top_int() >= 0 {
                branch_target(old(frame).pc + 2, code_s2(code@, old(frame).pc as int))
            } else {
                old(frame).pc + 2
            },
        ),
{
    branch_on_int(frame, code, 2)
}

/// `return`: leaves the frame as it is; the caller leaves the method.
pub fn exec_return(frame: &mut Frame, _code: &[u8], _vm: Option<&mut Vm>) -> (r: Result<(), JvmError>)
    ensures
        r is Ok,
        final(frame)@ == old(frame)@,
{
    Ok(())
}

} // verus!
