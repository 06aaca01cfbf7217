use vstd::prelude::*;
use crate::error::JvmError;
use crate::classfile::{CpInfo, cp_entry, cp_get, utf8_at, get_utf8_string};
use crate::jvm_thread::{Frame, FrameView, code_s2, code_u2, read_s2, read_u2};
use crate::native_method::string_content;
use crate::text::utf16_encode;
use crate::vm::Vm;

verus! {

/// `sipush`: pushes the signed 16-bit value that follows.
pub fn exec_sipush(frame: &mut Frame, code: &[u8], _vm: Option<&mut Vm>) -> (r: Result<(), JvmError>)
    requires
        old(frame).pc + 1 < code@.len(),
        old(frame)@.int_room(1),
    ensures
        r is Ok,
        final(frame)@ == old(frame)@.push_int(code_s2(code@, old(frame).pc as int)).at(old(frame).pc + 2),
{
    let value = read_s2(code, frame.pc);
    frame.pc = frame.pc + 2;
    frame.stack.push_int(value);
    Ok(())
}

/// Whether the stack has room for what loading the constant at `index`
/// pushes: an int for an `Integer` or `Float`, a reference for a `String`.
pub open spec fn ldc_room(f: FrameView, index: int) -> bool {
    match cp_entry(f.method.constant_pool, index) {
        Some(CpInfo::Integer { bytes }) => f.int_room(1),
        Some(CpInfo::Float { bytes }) => f.int_room(1),
        Some(CpInfo::String { string_index }) => f.ref_room(1),
        _ => true,
    }
}

/// What loading the constant at `index` of the frame's own constant pool
/// does, `pc` being where the next instruction starts: an `Integer` or
/// `Float` pushes its bits, a `String` pushes a new string object with
/// its text (a text too long for a string object fails; a heap grown close
/// to the largest size an allocation can have may fail), anything else
/// fails.
pub open spec fn ldc_done(
    f: FrameView,
    index: int,
    pc: int,
    r: Result<(), JvmError>,
    g: FrameView,
    vm0: Vm,
    vm1: Vm,
) -> bool {
    match cp_entry(f.method.constant_pool, index) {
        Some(CpInfo::Integer { bytes }) => r is Ok && g == f.push_int(bytes as i32).at(pc) && vm1 == vm0,
        Some(CpInfo::Float { bytes }) => r is Ok && g == f.push_int(bytes as i32).at(pc) && vm1 == vm0,
        Some(CpInfo::String { string_index }) => match utf8_at(f.method.constant_pool, string_index as int) {
            None => r matches Err(e) && e is IllegalStateError && g == f.at(pc) && vm1 == vm0,
            Some(text) => if 16 + 2 * utf16_encode(text).len() >= 0x80_0000 {
                r matches Err(e) && e is IllegalStateError && g == f.at(pc) && vm1 == vm0
            } else {
                &&& vm1.loader() == vm0.loader()
                &&& vm1.statics() == vm0.statics()
                &&& vm1.builders() == vm0.builders()
                &&& vm1.printed() == vm0.printed()
                &&& vm0.heap_state().bytes().len() + 2 * utf16_encode(text).len() + 48 <= isize::MAX ==> r is Ok
                &&& r is Ok ==> {
                    let p = g.top_ref();
                    &&& g == f.push_ref(p).at(pc)
                    &&& string_content(vm1.heap_state().bytes(), p) == Some(text)
                    &&& vm1.strings() == vm0.strings().insert(p.0, text)
                }
                &&& r is Err ==> (r matches Err(e) && e is IllegalStateError) && g == f.at(pc)
            },
        },
        _ => r matches Err(e) && e is IllegalStateError && g == f.at(pc) && vm1 == vm0,
    }
}

/// Pushes the constant at `index` of the frame's constant pool.
fn push_constant(frame: &mut Frame, index: usize, vm: &mut Vm) -> (r: Result<(), JvmError>)
    requires
        1 <= index <= old(frame)@.method.constant_pool.len(),
        ldc_room(old(frame)@, index as int),
        old(vm).wf(),
    ensures
        final(vm).wf(),
        ldc_done(old(frame)@, index as int, old(frame).pc as int, r, final(frame)@, *old(vm), *final(vm)),
{
    let entry = match cp_get(&frame.method.constant_pool, index) {
        Some(e) => e.clone(),
        None => return Err(JvmError::IllegalStateError(String::from_str("ldc: no such constant"))),
    };
    match entry {
        CpInfo::Integer { bytes } => {
            frame.stack.push_int(bytes as i32);
            Ok(())
        },
        CpInfo::Float { bytes } => {
            frame.stack.push_int(bytes as i32);
            Ok(())
        },
        CpInfo::String { string_index } => {
            let text = match get_utf8_string(&frame.method.constant_pool, string_index) {
                Some(t) => t,
                None => return Err(JvmError::IllegalStateError(String::from_str("ldc: the string constant has no text"))),
            };
            if !Vm::fits_string_object(text.as_str()) {
                return Err(JvmError::IllegalStateError(String::from_str("Failed to create string object")));
            }
            match vm.create_string_object(text.as_str()) {
                Ok(p) => {
                    frame.stack.push_obj_ref(p);
                    Ok(())
                },
                Err(_) => Err(JvmError::IllegalStateError(String::from_str("Failed to create string object"))),
            }
        },
        _ => Err(JvmError::IllegalStateError(String::from_str("ldc: the constant is of an unsupported type"))),
    }
}

/// `ldc`: pushes the constant whose one-byte index follows.
pub fn exec_ldc(frame: &mut Frame, code: &[u8], vm: &mut Vm) -> (r: Result<(), JvmError>)
    requires
        old(frame).pc < code@.len(),
        1 <= code@[old(frame).pc as int] <= old(frame)@.method.constant_pool.len(),
        ldc_room(old(frame)@, code@[old(frame).pc as int] as int),
        old(vm).wf(),
    ensures
        r is Ok ==> final(frame)@.method == old(frame)@.method && final(frame)@.pc == old(frame).pc + 1,
        final(vm).wf(),
        ldc_done(old(frame)@, code@[old(frame).pc as int] as int, old(frame).pc + 1, r, final(frame)@, *old(vm), *final(vm)),
{
    let index = code[frame.pc] as usize;
    frame.pc = frame.pc + 1;
    push_constant(frame, index, vm)
}

/// `ldc_w`: pushes the constant whose two-byte index follows.
pub fn exec_ldc_w(frame: &mut Frame, code: &[u8], vm: &mut Vm) -> (r: Result<(), JvmError>)
    requires
        old(frame).pc + 1 < code@.len(),
        1 <= code_u2(code@, old(frame).pc as int) <= old(frame)@.method.constant_pool.len(),
        ldc_room(old(frame)@, code_u2(code@, old(frame).pc as int) as int),
        old(vm).wf(),
    ensures
        r is Ok ==> final(frame)@.method == old(frame)@.method && final(frame)@.pc == old(frame).pc + 2,
        final(vm).wf(),
        ldc_done(old(frame)@, code_u2(code@, old(frame).pc as int) as int, old(frame).pc + 2, r, final(frame)@, *old(vm), *final(vm)),
{
    let index = read_u2(code, frame.pc) as usize;
    frame.pc = frame.pc + 2;
    push_constant(frame, index, vm)
}

/// `ldc2_w`: pushes the high and then the low half of the `Long` or
/// `Double` constant whose two-byte index follows; fails on any other
/// constant.
pub fn exec_ldc2_w(frame: &mut Frame, code: &[u8], _vm: Option<&mut Vm>) -> (r: Result<(), JvmError>)
    requires
        old(frame).pc + 1 < code@.len(),
        1 <= code_u2(code@, old(frame).pc as int) <= old(frame)@.method.constant_pool.len(),
        old(frame)@.int_room(2),
    ensures
        match cp_entry(old(frame)@.method.constant_pool, code_u2(code@, old(frame).pc as int) as int) {
            Some(CpInfo::Long { high_bytes, low_bytes }) => r is Ok && final(frame)@ == old(frame)@.push_int(
                high_bytes as i32,
            ).push_int(low_bytes as i32).at(old(frame).pc + 2),
            Some(CpInfo::Double { high_bytes, low_bytes }) => r is Ok && final(frame)@ == old(frame)@.push_int(
                high_bytes as i32,
            ).push_int(low_bytes as i32).at(old(frame).pc + 2),
            _ => r matches Err(e) && e is IllegalStateError && final(frame)@ == old(frame)@.at(old(frame).pc + 2),
        },
{
    let index = read_u2(code, frame.pc) as usize;
    frame.pc = frame.pc + 2;
    let (high, low) = match cp_get(&frame.method.constant_pool, index) {
        Some(CpInfo::Long { high_bytes, low_bytes }) => (*high_bytes, *low_bytes),
        Some(CpInfo::Double { high_bytes, low_bytes }) => (*high_bytes, *low_bytes),
        _ => return Err(JvmError::IllegalStateError(String::from_str("ldc2_w: the constant is no long or double"))),
    };
    frame.stack.push_int(high as i32);
    frame.stack.push_int(low as i32);
    Ok(())
}

} // verus!
