use vstd::prelude::*;
use crate::error::JvmError;
use crate::jvm_thread::Frame;
use crate::vm::Vm;

verus! {

/// `pop`: drops the top int, or the top reference when there is no int;
/// does nothing on empty stacks.
pub fn exec_pop(frame: &mut Frame, _code: &[u8], _vm: Option<&mut Vm>) -> (r: Result<(), JvmError>)
    ensures
        r is Ok,
        final(frame)@ == (if old(frame)@.ints.len() > 0 {
            old(frame)@.pop_int()
        } else if old(frame)@.refs.len() > 0 {
            old(frame)@.pop_ref()
        } else {
            old(frame)@
        }),
{
    if !frame.stack.is_values_empty() {
        frame.stack.pop_int();
    } else if !frame.stack.is_obj_refs_empty() {
        frame.stack.pop_obj_ref();
    }
    Ok(())
}

/// `pop2`: drops up to two ints, or up to two references when there is no
/// int.
pub fn exec_pop2(frame: &mut Frame, _code: &[u8], _vm: Option<&mut Vm>) -> (r: Result<(), JvmError>)
    ensures
        r is Ok,
        final(frame)@ == (if old(frame)@.ints.len() >= 2 {
            old(frame)@.pop_int().pop_int()
        } else if old(frame)@.ints.len() == 1 {
            old(frame)@.pop_int()
        } else if old(frame)@.refs.len() >= 2 {
            old(frame)@.pop_ref().pop_ref()
        } else if old(frame)@.refs.len() == 1 {
            old(frame)@.pop_ref()
        } else {
            old(frame)@
        }),
{
    if !frame.stack.is_values_empty() {
        frame.stack.pop_int();
        if !frame.stack.is_values_empty() {
            frame.stack.pop_int();
        }
    } else if !frame.stack.is_obj_refs_empty() {
        frame.stack.pop_obj_ref();
        if !frame.stack.is_obj_refs_empty() {
            frame.stack.pop_obj_ref();
        }
    }
    Ok(())
}

/// `dup`: pushes a copy of the top reference, or of the top int when there
/// is no reference; fails on empty stacks.
pub fn exec_dup(frame: &mut Frame, _code: &[u8], _vm: Option<&mut Vm>) -> (r: Result<(), JvmError>)
    requires
        old(frame)@.refs.len() > 0 ==> old(frame)@.ref_room(1),
        old(frame)@.refs.len() == 0 && old(frame)@.ints.len() > 0 ==> old(frame)@.int_room(1),
    ensures
        old(frame)@.refs.len() > 0 ==> r is Ok && final(frame)@ == old(frame)@.push_ref(old(frame)@.top_ref()),
        old(frame)@.refs.len() == 0 && old(frame)@.ints.len() > 0 ==> r is Ok && final(frame)@ == old(
            frame,
        )@.push_int(old(frame)@.top_int()),
        old(frame)@.refs.len() == 0 && old(frame)@.ints.len() == 0 ==> (r matches Err(e) && e is IllegalStateError)
            && final(frame)@ == old(frame)@,
{
    if !frame.stack.is_obj_refs_empty() {
        let val = frame.stack.peek_obj_ref();
        frame.stack.push_obj_ref(val);
    } else if !frame.stack.is_values_empty() {
        let val = frame.stack.peek_int();
        frame.stack.push_int(val);
    } else {
        return Err(JvmError::IllegalStateError(String::from_str("dup: the stack is empty")));
    }
    Ok(())
}

/// `dup_x1`: copies the top value below the one under it, on the int stack
/// when it holds ints, else on the reference stack.
pub fn exec_dup_x1(frame: &mut Frame, _code: &[u8], _vm: Option<&mut Vm>) -> (r: Result<(), JvmError>)
    requires
        old(frame)@.bounded(),
        old(frame)@.ints.len() > 0 ==> old(frame)@.ints.len() >= 2 && old(frame)@.int_room(1),
        old(frame)@.ints.len() == 0 && old(frame)@.refs.len() > 0 ==> old(frame)@.refs.len() >= 2
            && old(frame)@.ref_room(1),
    ensures
        r is Ok,
        old(frame)@.ints.len() > 0 ==> final(frame)@ == old(frame)@.pop_int().pop_int().push_int(
            old(frame)@.top_int(),
        ).push_int(old(frame)@.second_int()).push_int(old(frame)@.top_int()),
        old(frame)@.ints.len() == 0 && old(frame)@.refs.len() > 0 ==> final(frame)@ == old(frame)@.pop_ref().pop_ref().push_ref(
            old(frame)@.top_ref(),
        ).push_ref(old(frame)@.refs[old(frame)@.refs.len() - 2]).push_ref(old(frame)@.top_ref()),
        old(frame)@.ints.len() == 0 && old(frame)@.refs.len() == 0 ==> final(frame)@ == old(frame)@,
{
    if !frame.stack.is_values_empty() {
        let value1 = frame.stack.pop_int();
        let value2 = frame.stack.pop_int();
        frame.stack.push_int(value1);
        frame.stack.push_int(value2);
        frame.stack.push_int(value1);
    } else if !frame.stack.is_obj_refs_empty() {
        let value1 = frame.stack.pop_obj_ref();
        let value2 = frame.stack.pop_obj_ref();
        frame.stack.push_obj_ref(value1);
        frame.stack.push_obj_ref(value2);
        frame.stack.push_obj_ref(value1);
    }
    Ok(())
}

/// `dup_x2`: copies the top value below the two under it, on the int stack
/// when it holds ints, else on the reference stack.
pub fn exec_dup_x2(frame: &mut Frame, _code: &[u8], _vm: Option<&mut Vm>) -> (r: Result<(), JvmError>)
    requires
        old(frame)@.bounded(),
        old(frame)@.ints.len() > 0 ==> old(frame)@.ints.len() >= 3 && old(frame)@.int_room(1),
        old(frame)@.ints.len() == 0 && old(frame)@.refs.len() > 0 ==> old(frame)@.refs.len() >= 3
            && old(frame)@.ref_room(1),
    ensures
        r is Ok,
        old(frame)@.ints.len() > 0 ==> final(frame)@ == old(frame)@.pop_int().pop_int().pop_int().push_int(
            old(frame)@.top_int(),
        ).push_int(old(frame)@.ints[old(frame)@.ints.len() - 3]).push_int(old(frame)@.second_int()).push_int(
            old(frame)@.top_int(),
        ),
        old(frame)@.ints.len() == 0 && old(frame)@.refs.len() > 0 ==> final(frame)@ == old(frame)@.pop_ref().pop_ref().pop_ref().push_ref(
            old(frame)@.top_ref(),
        ).push_ref(old(frame)@.refs[old(frame)@.refs.len() - 3]).push_ref(
            old(frame)@.refs[old(frame)@.refs.len() - 2],
        ).push_ref(old(frame)@.top_ref()),
        old(frame)@.ints.len() == 0 && old(frame)@.refs.len() == 0 ==> final(frame)@ == old(frame)@,
{
    if !frame.stack.is_values_empty() {
        let value1 = frame.stack.pop_int();
        let value2 = frame.stack.pop_int();
        let value3 = frame.stack.pop_int();
        frame.stack.push_int(value1);
        frame.stack.push_int(value3);
        frame.stack.push_int(value2);
        frame.stack.push_int(value1);
    } else if !frame.stack.is_obj_refs_empty() {
        let value1 = frame.stack.pop_obj_ref();
        let value2 = frame.stack.pop_obj_ref();
        let value3 = frame.stack.pop_obj_ref();
        frame.stack.push_obj_ref(value1);
        frame.stack.push_obj_ref(value3);
        frame.stack.push_obj_ref(value2);
        frame.stack.push_obj_ref(value1);
    }
    Ok(())
}

/// `dup2`: copies the two top values, or the only one twice, on the int
/// stack when it holds ints, else on the reference stack.
pub fn exec_dup2(frame: &mut Frame, _code: &[u8], _vm: Option<&mut Vm>) -> (r: Result<(), JvmError>)
    requires
        old(frame)@.bounded(),
        old(frame)@.ints.len() >= 2 ==> old(frame)@.int_room(2),
        old(frame)@.ints.len() == 1 ==> old(frame)@.int_room(1),
        old(frame)@.ints.len() == 0 && old(frame)@.refs.len() >= 2 ==> old(frame)@.ref_room(2),
        old(frame)@.ints.len() == 0 && old(frame)@.refs.len() == 1 ==> old(frame)@.ref_room(1),
    ensures
        r is Ok,
        old(frame)@.ints.len() >= 2 ==> final(frame)@ == old(frame)@.push_int(old(frame)@.second_int()).push_int(
            old(frame)@.top_int(),
        ),
        old(frame)@.ints.len() == 1 ==> final(frame)@ == old(frame)@.push_int(old(frame)@.top_int()),
        old(frame)@.ints.len() == 0 && old(frame)@.refs.len() >= 2 ==> final(frame)@ == old(frame)@.push_ref(
            old(frame)@.refs[old(frame)@.refs.len() - 2],
        ).push_ref(old(frame)@.top_ref()),
        old(frame)@.ints.len() == 0 && old(frame)@.refs.len() == 1 ==> final(frame)@ == old(frame)@.push_ref(
            old(frame)@.top_ref(),
        ),
        old(frame)@.ints.len() == 0 && old(frame)@.refs.len() == 0 ==> final(frame)@ == old(frame)@,
{
    let ghost f0 = frame@;
    if !frame.stack.is_values_empty() {
        let value1 = frame.stack.pop_int();
        if !frame.stack.is_values_empty() {
            let value2 = frame.stack.pop_int();
            frame.stack.push_int(value2);
            frame.stack.push_int(value1);
            frame.stack.push_int(value2);
            frame.stack.push_int(value1);
            assert(frame@.ints =~= f0.ints.push(value2).push(value1));
        } else {
            frame.stack.push_int(value1);
            frame.stack.push_int(value1);
            assert(frame@.ints =~= f0.ints.push(value1));
        }
    } else if !frame.stack.is_obj_refs_empty() {
        let value1 = frame.stack.pop_obj_ref();
        if !frame.stack.is_obj_refs_empty() {
            let value2 = frame.stack.pop_obj_ref();
            frame.stack.push_obj_ref(value2);
            frame.stack.push_obj_ref(value1);
            frame.stack.push_obj_ref(value2);
            frame.stack.push_obj_ref(value1);
            assert(frame@.refs =~= f0.refs.push(value2).push(value1));
        } else {
            frame.stack.push_obj_ref(value1);
            frame.stack.push_obj_ref(value1);
            assert(frame@.refs =~= f0.refs.push(value1));
        }
    }
    Ok(())
}

/// `swap`: exchanges the two top ints; does nothing with fewer than two.
pub fn exec_swap(frame: &mut Frame, _code: &[u8], _vm: Option<&mut Vm>) -> (r: Result<(), JvmError>)
    ensures
        r is Ok,
        old(frame)@.ints.len() >= 2 ==> final(frame)@ == old(frame)@.pop_int().pop_int().push_int(
            old(frame)@.top_int(),
        ).push_int(old(frame)@.second_int()),
        old(frame)@.ints.len() < 2 ==> final(frame)@ == old(frame)@,
{
    let ghost f0 = frame@;
    frame.stack.swap_top_two_ints();
    proof {
        if f0.ints.len() >= 2 {
            assert(frame@.ints =~= f0.ints.drop_last().drop_last().push(f0.ints.last()).push(
                f0.ints[f0.ints.len() - 2],
            ));
        }
    }
    Ok(())
}

} // verus!
