use vstd::prelude::*;
use crate::JvmValue;
use crate::error::JvmError;
use crate::jvm_thread::{Frame, code_s1, read_s1};
use crate::local_vars::int_slot;
use crate::vm::Vm;

verus! {

/// `iinc`: adds the signed byte that follows the index byte to the int in
/// the local variable the index names, wrapping around on overflow.
pub fn exec_iinc(frame: &mut Frame, code: &[u8], _vm: Option<&mut Vm>) -> (r: Result<(), JvmError>)
    requires
        old(frame).pc + 1 < code@.len(),
        int_slot(old(frame)@.locals, code@[old(frame).pc as int] as int) is Some,
    ensures
        r is Ok,
        final(frame)@ == old(frame)@.set_local(
            code@[old(frame).pc as int] as int,
            JvmValue::Int(
                int_slot(old(frame)@.locals, code@[old(frame).pc as int] as int)->0.wrapping_add(
                    code_s1(code@, old(frame).pc + 1),
                ) as u32,
            ),
        ).at(old(frame).pc + 2),
{
    let index = code[frame.pc] as usize;
    let const_val = read_s1(code, frame.pc + 1);
    frame.pc = frame.pc + 2;
    let value = frame.local_vars.get_int(index);
    frame.local_vars.set_int(index, value.wrapping_add(const_val));
    Ok(())
}

} // verus!
