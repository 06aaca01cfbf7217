use vstd::prelude::*;
use crate::error::JvmError;
use crate::classfile::{methodref_at, get_methodref_info};
use crate::jvm_thread::{Frame, code_u2, read_u2};
use crate::vm::Vm;

verus! {

/// `invokevirtual` as the instruction table runs it: reads the method
/// reference whose index follows and moves past it; the call itself is
/// left to the interpreter loop.
pub fn exec_invokevirtual(frame: &mut Frame, code: &[u8], _vm: Option<&mut Vm>) -> (r: Result<(), JvmError>)
    requires
        old(frame).pc + 1 < code@.len(),
    ensures
        final(frame)@ == old(frame)@.at(old(frame).pc + 2),
        methodref_at(old(frame)@.method.constant_pool, code_u2(code@, old(frame).pc as int) as int) is Some ==> r is Ok,
        methodref_at(old(frame)@.method.constant_pool, code_u2(code@, old(frame).pc as int) as int) is None ==> (r matches Err(
            e,
        ) && e is IllegalStateError),
{
    let index = read_u2(code, frame.pc);
    frame.pc = frame.pc + 2;
    match get_methodref_info(&frame.method.constant_pool, index) {
        Some(_) => Ok(()),
        None => Err(JvmError::IllegalStateError(String::from_str("invokevirtual: the constant is no method reference"))),
    }
}

} // verus!
