use vstd::prelude::*;
use crate::error::JvmError;
use crate::jvm_thread::Frame;
use crate::instructions::load_store::load_ref;
use crate::local_vars::ref_slot;
use crate::vm::Vm;

verus! {

/// `aload_0`: pushes the reference in local variable 0, the receiver of an instance method.
pub fn exec_aload_0(frame: &mut Frame, _code: &[u8], _vm: Option<&mut Vm>) -> (r: Result<(), JvmError>)
    requires
        ref_slot(old(frame)@.locals, 0) is Some,
        old(frame)@.ref_room(1),
    ensures
        r is Ok,
        final(frame)@ == old(frame)@.push_ref(ref_slot(old(frame)@.locals, 0)->0),
{
    load_ref(frame, 0)
}

} // verus!
