use vstd::prelude::*;
use crate::error::JvmError;
use crate::jvm_thread::{Frame, branch_target, offset_at, jump_target, read_s2};
use crate::vm::Vm;

verus! {

/// `if_icmpge`: pops two ints and jumps when the lower one is at least the
/// top one.
pub fn exec_if_icmpge(frame: &mut Frame, code: &[u8], _vm: Option<&mut Vm>) -> (r: Result<(), JvmError>)
    requires
        old(frame).pc + 1 < code@.len(),
        old(frame).pc + 65538 <= usize::MAX,
        old(frame)@.ints.len() >= 2,
    ensures
        r is Ok,
        final(frame)@ == old(frame)@.pop_int().pop_int().at(
            if old(frame)@.second_int() >= old(frame)@.top_int() {
                branch_target(old(frame).pc + 2, offset_at(code@, old(frame).pc))
            } else {
                old(frame).pc + 2
            },
        ),
{
    let offset = read_s2(code, frame.pc);
    frame.pc = frame.pc + 2;
    let v2 = frame.stack.pop_int();
    let v1 = frame.stack.pop_int();
    if v1 >= v2 {
        frame.pc = jump_target(frame.pc, offset);
    }
    Ok(())
}

/// `areturn`: pops the reference to return; the caller leaves the method.
/// Fails when there is no reference on the stack.
pub fn exec_areturn(frame: &mut Frame, _code: &[u8], _vm: Option<&mut Vm>) -> (r: Result<(), JvmError>)
    ensures
        old(frame)@.refs.len() > 0 ==> r is Ok && final(frame)@ == old(frame)@.pop_ref(),
        old(frame)@.refs.len() == 0 ==> (r matches Err(e) && e is IllegalStateError) && final(frame)@ == old(frame)@,
{
    if !frame.stack.is_obj_refs_empty() {
        let _obj_ref = frame.stack.pop_obj_ref();
        Ok(())
    } else {
        Err(JvmError::IllegalStateError(String::from_str("areturn: no object reference on the stack")))
    }
}

} // verus!
