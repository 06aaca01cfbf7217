use vstd::prelude::*;
use crate::error::JvmError;
use crate::jvm_thread::{Frame, java_div, java_rem};
use crate::vm::Vm;

verus! {

/// Pops the two top ints: the second one, then the top one.
fn pop_two(frame: &mut Frame) -> (r: (i32, i32))
    requires
        old(frame)@.ints.len() >= 2,
        old(frame)@.bounded(),
    ensures
        r.0 == old(frame)@.second_int(),
        r.1 == old(frame)@.top_int(),
        final(frame)@ == old(frame)@.pop_int().pop_int(),
{
    let b = frame.stack.pop_int();
    let a = frame.stack.pop_int();
    (a, b)
}

/// `iadd`: adds the two top ints, wrapping around on overflow.
pub fn exec_iadd(frame: &mut Frame, _code: &[u8], _vm: Option<&mut Vm>) -> (r: Result<(), JvmError>)
    requires
        old(frame)@.ints.len() >= 2,
        old(frame)@.bounded(),
    ensures
        r is Ok,
        final(frame)@ == old(frame)@.pop_int().pop_int().push_int(old(frame)@.second_int().wrapping_add(old(frame)@.top_int())),
{
    let (v1, v2) = pop_two(frame);
    frame.stack.push_int(v1.wrapping_add(v2));
    Ok(())
}

/// `isub`: subtracts the top int from the one under it, wrapping around on overflow.
pub fn exec_isub(frame: &mut Frame, _code: &[u8], _vm: Option<&mut Vm>) -> (r: Result<(), JvmError>)
    requires
        old(frame)@.ints.len() >= 2,
        old(frame)@.bounded(),
    ensures
        r is Ok,
        final(frame)@ == old(frame)@.pop_int().pop_int().push_int(old(frame)@.second_int().wrapping_sub(old(frame)@.top_int())),
{
    let (v1, v2) = pop_two(frame);
    frame.stack.push_int(v1.wrapping_sub(v2));
    Ok(())
}

/// `imul`: multiplies the two top ints, wrapping around on overflow.
pub fn exec_imul(frame: &mut Frame, _code: &[u8], _vm: Option<&mut Vm>) -> (r: Result<(), JvmError>)
    requires
        old(frame)@.ints.len() >= 2,
        old(frame)@.bounded(),
    ensures
        r is Ok,
        final(frame)@ == old(frame)@.pop_int().pop_int().push_int(old(frame)@.second_int().wrapping_mul(old(frame)@.top_int())),
{
    let (v1, v2) = pop_two(frame);
    frame.stack.push_int(v1.wrapping_mul(v2));
    Ok(())
}

/// `idiv`: divides the int under the top by the top one, rounding toward
/// zero; a zero divisor is an arithmetic error.
pub fn exec_idiv(frame: &mut Frame, _code: &[u8], _vm: Option<&mut Vm>) -> (r: Result<(), JvmError>)
    requires
        old(frame)@.ints.len() >= 2,
        old(frame)@.bounded(),
    ensures
        old(frame)@.top_int() == 0 ==> (r matches Err(e) && e is ArithmeticError && e.message() == "Division by zero"@)
            && final(frame)@ == old(frame)@.pop_int().pop_int(),
        old(frame)@.top_int() != 0 ==> r is Ok && final(frame)@ == old(frame)@.pop_int().pop_int().push_int(java_div(old(frame)@.second_int(), old(frame)@.top_int())),
{
    let (v1, v2) = pop_two(frame);
    if v2 == 0 {
        return Err(JvmError::ArithmeticError(String::from_str("Division by zero")));
    }
    let q = match v1.checked_div(v2) {
        Some(q) => q,
        None => v1,
    };
    frame.stack.push_int(q);
    Ok(())
}

/// `irem`: the remainder of dividing the int under the top by the top one,
/// with the sign of the dividend; a zero divisor is an arithmetic error.
pub fn exec_irem(frame: &mut Frame, _code: &[u8], _vm: Option<&mut Vm>) -> (r: Result<(), JvmError>)
    requires
        old(frame)@.ints.len() >= 2,
        old(frame)@.bounded(),
    ensures
        old(frame)@.top_int() == 0 ==> (r matches Err(e) && e is ArithmeticError && e.message() == "Modulo by zero"@)
            && final(frame)@ == old(frame)@.pop_int().pop_int(),
        old(frame)@.top_int() != 0 ==> r is Ok && final(frame)@ == old(frame)@.pop_int().pop_int().push_int(java_rem(old(frame)@.second_int(), old(frame)@.top_int())),
{
    let (v1, v2) = pop_two(frame);
    if v2 == 0 {
        return Err(JvmError::ArithmeticError(String::from_str("Modulo by zero")));
    }
    let m = match v1.checked_rem(v2) {
        Some(m) => m,
        None => 0,
    };
    frame.stack.push_int(m);
    Ok(())
}

/// `ineg`: negates the top int, wrapping around for the smallest one.
pub fn exec_ineg(frame: &mut Frame, _code: &[u8], _vm: Option<&mut Vm>) -> (r: Result<(), JvmError>)
    requires
        old(frame)@.ints.len() >= 1,
        old(frame)@.bounded(),
    ensures
        r is Ok,
        final(frame)@ == old(frame)@.pop_int().push_int(0i32.wrapping_sub(old(frame)@.top_int())),
{
    let v = frame.stack.pop_int();
    frame.stack.push_int(0i32.wrapping_sub(v));
    Ok(())
}

/// `iand`: the bitwise and of the two top ints.
pub fn exec_iand(frame: &mut Frame, _code: &[u8], _vm: Option<&mut Vm>) -> (r: Result<(), JvmError>)
    requires
        old(frame)@.ints.len() >= 2,
        old(frame)@.bounded(),
    ensures
        r is Ok,
        final(frame)@ == old(frame)@.pop_int().pop_int().push_int(old(frame)@.second_int() & old(frame)@.top_int()),
{
    let (v1, v2) = pop_two(frame);
    frame.stack.push_int(v1 & v2);
    Ok(())
}

/// `ior`: the bitwise or of the two top ints.
pub fn exec_ior(frame: &mut Frame, _code: &[u8], _vm: Option<&mut Vm>) -> (r: Result<(), JvmError>)
    requires
        old(frame)@.ints.len() >= 2,
        old(frame)@.bounded(),
    ensures
        r is Ok,
        final(frame)@ == old(frame)@.pop_int().pop_int().push_int(old(frame)@.second_int() | old(frame)@.top_int()),
{
    let (v1, v2) = pop_two(frame);
    frame.stack.push_int(v1 | v2);
    Ok(())
}

/// `ixor`: the bitwise exclusive or of the two top ints.
pub fn exec_ixor(frame: &mut Frame, _code: &[u8], _vm: Option<&mut Vm>) -> (r: Result<(), JvmError>)
    requires
        old(frame)@.ints.len() >= 2,
        old(frame)@.bounded(),
    ensures
        r is Ok,
        final(frame)@ == old(frame)@.pop_int().pop_int().push_int(old(frame)@.second_int() ^ old(frame)@.top_int()),
{
    let (v1, v2) = pop_two(frame);
    frame.stack.push_int(v1 ^ v2);
    Ok(())
}

/// `ishl`: shifts the int under the top left by the low five bits of the top one.
pub fn exec_ishl(frame: &mut Frame, _code: &[u8], _vm: Option<&mut Vm>) -> (r: Result<(), JvmError>)
    requires
        old(frame)@.ints.len() >= 2,
        old(frame)@.bounded(),
    ensures
        r is Ok,
        final(frame)@ == old(frame)@.pop_int().pop_int().push_int(old(frame)@.second_int() << (old(frame)@.top_int() & 0x1f)),
{
    let (v1, v2) = pop_two(frame);
    let s = v2 & 0x1f;
    proof {
        assert(0 <= (v2 & 0x1f) < 32) by (bit_vector);
    }
    frame.stack.push_int(v1 << s);
    Ok(())
}

/// `ishr`: shifts the int under the top right, keeping its sign, by the low five bits of the top one.
pub fn exec_ishr(frame: &mut Frame, _code: &[u8], _vm: Option<&mut Vm>) -> (r: Result<(), JvmError>)
    requires
        old(frame)@.ints.len() >= 2,
        old(frame)@.bounded(),
    ensures
        r is Ok,
        final(frame)@ == old(frame)@.pop_int().pop_int().push_int(old(frame)@.second_int() >> (old(frame)@.top_int() & 0x1f)),
{
    let (v1, v2) = pop_two(frame);
    let s = v2 & 0x1f;
    proof {
        assert(0 <= (v2 & 0x1f) < 32) by (bit_vector);
    }
    frame.stack.push_int(v1 >> s);
    Ok(())
}

/// `iushr`: shifts the int under the top right, filling with zeros, by the low five bits of the top one.
pub fn exec_iushr(frame: &mut Frame, _code: &[u8], _vm: Option<&mut Vm>) -> (r: Result<(), JvmError>)
    requires
        old(frame)@.ints.len() >= 2,
        old(frame)@.bounded(),
    ensures
        r is Ok,
        final(frame)@ == old(frame)@.pop_int().pop_int().push_int(((old(frame)@.second_int() as u32) >> ((old(frame)@.top_int() & 0x1f) as u32)) as i32),
{
    let (v1, v2) = pop_two(frame);
    let s = (v2 & 0x1f) as u32;
    proof {
        assert(0 <= (v2 & 0x1f) < 32) by (bit_vector);
    }
    frame.stack.push_int(((v1 as u32) >> s) as i32);
    Ok(())
}

} // verus!
