use vstd::prelude::*;
use crate::JvmValue;
use crate::heap::RawPtr;
use crate::local_vars::{LocalVars, int_slot, ref_slot};
use crate::method::{Method, MethodView};
use crate::operand_stack::OperandStack;
use crate::classfile::{
    CpInfo, cp_entry, cp_get, methodref_at, fieldref_at, utf8_at, class_name_at, get_methodref_info,
    get_fieldref_info, get_utf8_string, get_class_name,
};
use crate::heap::{
    Heap, read_u32, read_u64, object_size, fresh_header, plain_header, slot_bytes, u32_bytes, u64_bytes, write_bytes,
    lemma_write_frame, law_read_after_write_u32, RawPtr as Ptr, align8, chunk_alloc, zero_fields,
};
use crate::class::{Klass, KlassView, last_method_with_key};
use crate::class_loader::{resolve_class, after_load, id_after_load, klass_id, fresh_info, ClassLoadingInfoView, ClassLoadingState};
use crate::field::{descriptor_default, FieldView, fq_key};
use crate::classfile::ClassFile;
use crate::text::utf16_encode;
use crate::vm::{element_size, builtin_natives, with_array, with_char_array, with_string, string_at, string_fits};
use crate::native_method::{println_line, string_content, object_text, extract_string_content, object_text_of, PrintView};
use crate::instructions::method_utils::long_bits;
use crate::text::{starts_with, ends_with, signed_decimal, i32_to_text, char_len, char_at, push_char, join3};
use crate::vm::Vm;
use crate::text::str_eq;
use crate::error::JvmError;
use crate::instructions::arithmetic::{exec_iadd, exec_isub, exec_imul, exec_idiv};
use crate::instructions::control::{exec_goto, exec_ifeq, exec_ifne, exec_ifge, int_branch_taken};
use crate::instructions::control_extended::exec_if_icmpge;
use crate::instructions::iinc::exec_iinc;
use crate::instructions::load_store::{load_int, store_int};
use crate::instructions::stack::{exec_pop, exec_swap};

verus! {

/// An activation of a method: its local variables, its operand stack, the
/// method and the position of the next instruction.
pub struct Frame {
    pub local_vars: LocalVars,
    pub stack: OperandStack,
    pub method: Method,
    pub pc: usize,
}

/// What a frame holds, as values.
pub ghost struct FrameView {
    pub ints: Seq<i32>,
    pub refs: Seq<RawPtr>,
    pub cap: nat,
    pub locals: Seq<JvmValue>,
    pub pc: int,
    pub method: MethodView,
}

impl View for Frame {
    type V = FrameView;

    open spec fn view(&self) -> FrameView {
        FrameView {
            ints: self.stack.ints(),
            refs: self.stack.refs(),
            cap: self.stack.capacity(),
            locals: self.local_vars@,
            pc: self.pc as int,
            method: self.method@,
        }
    }
}

impl FrameView {
    /// The frame with one more int on its stack.
    pub open spec fn push_int(self, v: i32) -> FrameView {
        FrameView { ints: self.ints.push(v), ..self }
    }

    /// The frame without its top int.
    pub open spec fn pop_int(self) -> FrameView {
        FrameView { ints: self.ints.drop_last(), ..self }
    }

    /// The frame with one more reference on its stack.
    pub open spec fn push_ref(self, p: RawPtr) -> FrameView {
        FrameView { refs: self.refs.push(p), ..self }
    }

    /// The frame without its top reference.
    pub open spec fn pop_ref(self) -> FrameView {
        FrameView { refs: self.refs.drop_last(), ..self }
    }

    /// The frame with its pc moved.
    pub open spec fn at(self, pc: int) -> FrameView {
        FrameView { pc, ..self }
    }

    /// The frame with a local variable replaced.
    pub open spec fn set_local(self, i: int, v: JvmValue) -> FrameView {
        FrameView { locals: self.locals.update(i, v), ..self }
    }

    /// The top int.
    pub open spec fn top_int(self) -> i32 {
        self.ints.last()
    }

    /// The int under the top one.
    pub open spec fn second_int(self) -> i32 {
        self.ints[self.ints.len() - 2]
    }

    /// The top reference.
    pub open spec fn top_ref(self) -> RawPtr {
        self.refs.last()
    }

    /// Neither stack holds more than the frame's maximum depth, as every
    /// frame built by pushes keeps.
    pub open spec fn bounded(self) -> bool {
        self.ints.len() <= self.cap && self.refs.len() <= self.cap
    }

    /// Whether `n` more ints fit on the int stack.
    pub open spec fn int_room(self, n: int) -> bool {
        self.ints.len() + n <= self.cap
    }

    /// Whether `n` more references fit on the reference stack.
    pub open spec fn ref_room(self, n: int) -> bool {
        self.refs.len() + n <= self.cap
    }
}

/// The signed byte at a position of the code.
pub open spec fn code_s1(code: Seq<u8>, i: int) -> i32 {
    if code[i] >= 128 {
        (code[i] - 256) as i32
    } else {
        code[i] as i32
    }
}

/// The big-endian unsigned 16-bit value at a position of the code.
pub open spec fn code_u2(code: Seq<u8>, i: int) -> u16 {
    (code[i] * 256 + code[i + 1]) as u16
}

/// The big-endian signed 16-bit value at a position of the code.
pub open spec fn code_s2(code: Seq<u8>, i: int) -> i32 {
    let v = code[i] * 256 + code[i + 1];
    if v >= 32768 {
        (v - 65536) as i32
    } else {
        v as i32
    }
}

/// The branch offset of the instruction whose opcode is just before `pc`.
pub open spec fn offset_at(code: Seq<u8>, pc: usize) -> i32 {
    code_s2(code, pc as int)
}

/// Where a branch goes: `offset` from the branch instruction, which starts
/// three bytes before `pc_after`. A target before the start of the code
/// wraps around, as an unsigned conversion does, and so lies past its end.
pub open spec fn branch_target(pc_after: int, offset: i32) -> int {
    let t = pc_after + offset - 3;
    if t >= 0 {
        t
    } else {
        t + usize::MAX + 1
    }
}

/// The quotient of Java's integer division: rounded toward zero, with
/// `MIN / -1` giving `MIN`.
pub open spec fn java_div(a: i32, b: i32) -> i32 {
    match a.checked_div(b) {
        Some(q) => q,
        None => a,
    }
}

/// The remainder of Java's integer division, with `MIN % -1` giving 0.
pub open spec fn java_rem(a: i32, b: i32) -> i32 {
    match a.checked_rem(b) {
        Some(r) => r,
        None => 0,
    }
}

/// Reads the signed byte at `i` of the code.
pub fn read_s1(code: &[u8], i: usize) -> (v: i32)
    requires
        i < code@.len(),
    ensures
        v == code_s1(code@, i as int),
        -128 <= v < 128,
        code@.len() <= usize::MAX,
{
    let _n = code.len();
    let b = code[i];
    if b >= 128 {
        b as i32 - 256
    } else {
        b as i32
    }
}

/// Reads the big-endian unsigned 16-bit value at `i` of the code.
pub fn read_u2(code: &[u8], i: usize) -> (v: u16)
    requires
        i + 1 < code@.len(),
    ensures
        v == code_u2(code@, i as int),
        code@.len() <= usize::MAX,
{
    let _n = code.len();
    (code[i] as u16) * 256 + code[i + 1] as u16
}

/// Reads the big-endian signed 16-bit value at `i` of the code.
pub fn read_s2(code: &[u8], i: usize) -> (v: i32)
    requires
        i + 1 < code@.len(),
    ensures
        v == code_s2(code@, i as int),
        -32768 <= v < 32768,
        code@.len() <= usize::MAX,
{
    let _n = code.len();
    let u = (code[i] as i32) * 256 + code[i + 1] as i32;
    if u >= 32768 {
        u - 65536
    } else {
        u
    }
}

/// The pc a branch goes to.
pub fn jump_target(pc_after: usize, offset: i32) -> (t: usize)
    requires
        pc_after + 65536 <= usize::MAX,
        -32768 <= offset < 32768,
    ensures
        t == branch_target(pc_after as int, offset),
{
    if offset >= 3 {
        pc_after + (offset - 3) as usize
    } else {
        let back = (3 - offset) as usize;
        if back <= pc_after {
            pc_after - back
        } else {
            usize::MAX - (back - pc_after) + 1
        }
    }
}

/// What one instruction does to the frame when it needs nothing but the
/// frame, the code and the constant pool; `Vm` for the instructions that
/// reach into the virtual machine.
pub ghost enum Step {
    /// Execution goes on with this frame.
    Next(FrameView),
    /// The method returns, leaving this frame.
    Ret(FrameView),
    /// Execution fails with an error of this kind.
    Fail(Seq<char>),
    /// The method returns this reference to its caller, with `areturn`.
    Give(Ptr),
    /// The instruction needs the virtual machine.
    Vm,
}

/// The kind of error raised for malformed code or misused stacks and locals.
pub open spec fn illegal_state() -> Seq<char> {
    "IllegalStateError"@
}

/// The kind of error raised for a null reference.
pub open spec fn null_pointer() -> Seq<char> {
    "NullPointerError"@
}

/// The kind of error raised when a stack is full.
pub open spec fn overflow() -> Seq<char> {
    "StackOverflowError"@
}

/// Pushing an int, when there is room.
pub open spec fn push_step(f: FrameView, v: i32, pc: int) -> Step {
    if f.int_room(1) {
        Step::Next(f.push_int(v).at(pc))
    } else {
        Step::Fail(overflow())
    }
}

/// Pushing the int of a local variable.
pub open spec fn load_step(f: FrameView, index: int, pc: int) -> Step {
    match int_slot(f.locals, index) {
        Some(v) => push_step(f, v, pc),
        None => Step::Fail(illegal_state()),
    }
}

/// Popping an int into a local variable.
pub open spec fn store_step(f: FrameView, index: int, pc: int) -> Step {
    if f.ints.len() == 0 || index >= f.locals.len() {
        Step::Fail(illegal_state())
    } else {
        Step::Next(f.pop_int().set_local(index, JvmValue::Int(f.top_int() as u32)).at(pc))
    }
}

/// A binary int operation: 0 add, 1 subtract, 2 multiply, 3 divide.
pub open spec fn arith_step(f: FrameView, kind: int, pc: int) -> Step {
    if f.ints.len() < 2 {
        Step::Fail(illegal_state())
    } else {
        let a = f.second_int();
        let b = f.top_int();
        let g = f.pop_int().pop_int();
        if kind == 0 {
            Step::Next(g.push_int(a.wrapping_add(b)).at(pc))
        } else if kind == 1 {
            Step::Next(g.push_int(a.wrapping_sub(b)).at(pc))
        } else if kind == 2 {
            Step::Next(g.push_int(a.wrapping_mul(b)).at(pc))
        } else if b == 0 {
            Step::Fail("ArithmeticError"@)
        } else {
            Step::Next(g.push_int(java_div(a, b)).at(pc))
        }
    }
}

/// A branch on one int: kind 0 on zero, 1 on non-zero, 2 on non-negative.
pub open spec fn if_step(code: Seq<u8>, f: FrameView, kind: u8) -> Step {
    if f.pc + 2 >= code.len() || f.ints.len() == 0 {
        Step::Fail(illegal_state())
    } else {
        let g = f.pop_int();
        if int_branch_taken(kind, f.top_int()) {
            Step::Next(g.at(branch_target(f.pc + 3, code_s2(code, f.pc + 1))))
        } else {
            Step::Next(g.at(f.pc + 3))
        }
    }
}

/// What one instruction at `f.pc` does when it needs only the frame.
pub open spec fn frame_step(code: Seq<u8>, cp: Seq<CpInfo>, f: FrameView) -> Step {
    let pc = f.pc;
    let op = code[pc];
    let p1 = pc + 1;
    if op == 0x00 {
        Step::Next(f.at(p1))
    } else if op == 0x01 {
        push_step(f, 0, p1)
    } else if 0x02 <= op <= 0x08 {
        push_step(f, (op - 3) as i32, p1)
    } else if op == 0x10 {
        if p1 >= code.len() { Step::Fail(illegal_state()) } else { push_step(f, code_s1(code, p1), p1 + 1) }
    } else if op == 0x11 {
        if p1 + 1 >= code.len() { Step::Fail(illegal_state()) } else { push_step(f, code_s2(code, p1), p1 + 2) }
    } else if op == 0x15 {
        if p1 >= code.len() { Step::Fail(illegal_state()) } else { load_step(f, code[p1] as int, p1 + 1) }
    } else if 0x1a <= op <= 0x1d {
        load_step(f, op - 0x1a, p1)
    } else if 0x2a <= op <= 0x2d {
        load_step(f, op - 0x2a, p1)
    } else if op == 0x36 {
        if p1 >= code.len() { Step::Fail(illegal_state()) } else { store_step(f, code[p1] as int, p1 + 1) }
    } else if 0x3b <= op <= 0x3e {
        store_step(f, op - 0x3b, p1)
    } else if 0x3f <= op <= 0x42 {
        store_step(f, op - 0x3f, p1)
    } else if 0x4b <= op <= 0x4e {
        if f.refs.len() == 0 { Step::Fail(illegal_state()) } else { Step::Next(f.pop_ref().at(p1)) }
    } else if op == 0x60 {
        arith_step(f, 0, p1)
    } else if op == 0x61 || op == 0x64 {
        arith_step(f, 1, p1)
    } else if op == 0x62 || op == 0x68 {
        arith_step(f, 2, p1)
    } else if op == 0x63 || op == 0x6c {
        arith_step(f, 3, p1)
    } else if op == 0x84 {
        if p1 + 1 >= code.len() {
            Step::Fail(illegal_state())
        } else {
            match int_slot(f.locals, code[p1] as int) {
                Some(v) => Step::Next(
                    f.set_local(code[p1] as int, JvmValue::Int(v.wrapping_add(code_s1(code, p1 + 1)) as u32)).at(p1 + 2),
                ),
                None => Step::Fail(illegal_state()),
            }
        }
    } else if op == 0x99 {
        if_step(code, f, 0)
    } else if op == 0x9a {
        if_step(code, f, 1)
    } else if op == 0x9f {
        if_step(code, f, 2)
    } else if op == 0xa2 {
        if p1 + 1 >= code.len() || f.ints.len() < 2 {
            Step::Fail(illegal_state())
        } else if f.second_int() >= f.top_int() {
            Step::Next(f.pop_int().pop_int().at(branch_target(p1 + 2, code_s2(code, p1))))
        } else {
            Step::Next(f.pop_int().pop_int().at(p1 + 2))
        }
    } else if op == 0xa7 {
        if p1 + 1 >= code.len() { Step::Fail(illegal_state()) } else { Step::Next(f.at(branch_target(p1 + 2, code_s2(code, p1)))) }
    } else if op == 0xac || op == 0xb1 {
        Step::Ret(f.at(p1))
    } else if op == 0x59 {
        if f.ints.len() > 0 {
            push_step(f, f.top_int(), p1)
        } else if f.refs.len() > 0 {
            if f.ref_room(1) { Step::Next(f.push_ref(f.top_ref()).at(p1)) } else { Step::Fail(overflow()) }
        } else {
            Step::Fail(illegal_state())
        }
    } else if op == 0x57 {
        if f.ints.len() > 0 {
            Step::Next(f.pop_int().at(p1))
        } else if f.refs.len() > 0 {
            Step::Next(f.pop_ref().at(p1))
        } else {
            Step::Next(f.at(p1))
        }
    } else if op == 0x5f {
        if f.ints.len() >= 2 {
            Step::Next(f.pop_int().pop_int().push_int(f.top_int()).push_int(f.second_int()).at(p1))
        } else {
            Step::Next(f.at(p1))
        }
    } else if op == 0xb4 {
        if p1 + 1 >= code.len() || f.refs.len() == 0 {
            Step::Fail(illegal_state())
        } else {
            push_step(f.pop_ref(), 0, p1 + 2)
        }
    } else if op == 0xb5 {
        if p1 + 1 >= code.len() || f.refs.len() == 0 || f.ints.len() == 0 {
            Step::Fail(illegal_state())
        } else {
            Step::Next(f.pop_int().pop_ref().at(p1 + 2))
        }
    } else if op == 0xbe {
        if f.refs.len() == 0 { Step::Fail(illegal_state()) } else { push_step(f.pop_ref(), 10, p1) }
    } else if op == 0x4f {
        if f.ints.len() < 2 || f.refs.len() == 0 { Step::Fail(illegal_state()) } else { Step::Next(f.pop_int().pop_int().pop_ref().at(p1)) }
    } else if op == 0x2e {
        if f.ints.len() == 0 || f.refs.len() == 0 {
            Step::Fail(illegal_state())
        } else {
            Step::Next(f.pop_int().pop_ref().push_int(f.top_int()).at(p1))
        }
    } else if op == 0xb7 {
        if p1 + 1 >= code.len() || methodref_at(cp, code_u2(code, p1) as int) is None {
            Step::Fail(illegal_state())
        } else if f.refs.len() > 0 {
            Step::Next(f.pop_ref().at(p1 + 2))
        } else {
            Step::Next(f.at(p1 + 2))
        }
    } else if op == 0x14 {
        if p1 + 1 >= code.len() {
            Step::Fail(illegal_state())
        } else {
            match cp_entry(cp, code_u2(code, p1) as int) {
                Some(CpInfo::Long { high_bytes, low_bytes }) => push_step(f, low_bytes as i32, p1 + 2),
                Some(CpInfo::Double { high_bytes, low_bytes }) => if f.int_room(2) {
                    Step::Next(f.push_int(high_bytes as i32).push_int(low_bytes as i32).at(p1 + 2))
                } else {
                    Step::Fail(overflow())
                },
                _ => Step::Fail(illegal_state()),
            }
        }
    } else if op == 0x12 || op == 0x13 {
        let n = if op == 0x12 { 1int } else { 2int };
        if p1 + n - 1 >= code.len() {
            Step::Fail(illegal_state())
        } else {
            let index = if op == 0x12 { code[p1] as int } else { code_u2(code, p1) as int };
            match cp_entry(cp, index) {
                Some(CpInfo::Integer { bytes }) => push_step(f, bytes as i32, p1 + n),
                Some(CpInfo::Float { bytes }) => push_step(f, bytes as i32, p1 + n),
                Some(CpInfo::String { string_index }) => Step::Vm,
                _ => Step::Fail(illegal_state()),
            }
        }
    } else if op == 0xb2 || op == 0xb3 || op == 0xb6 || op == 0xbb || op == 0xbc || op == 0xb0 || op == 0xb8 {
        Step::Vm
    } else {
        Step::Fail(illegal_state())
    }
}

/// How execution goes on after an instruction.
#[derive(Debug, PartialEq, Eq, Structural)]
pub enum Flow {
    /// On with the next instruction.
    Continue,
    /// The method returns.
    Return,
    /// The instruction needs the virtual machine.
    NeedsVm,
}

/// Whether a result is what `frame_step` says of a frame.
pub open spec fn step_matches(s: Step, r: Result<Flow, JvmError>, before: FrameView, after: FrameView) -> bool {
    match s {
        Step::Next(g) => r == Ok::<Flow, JvmError>(Flow::Continue) && after == g,
        Step::Ret(g) => r == Ok::<Flow, JvmError>(Flow::Return) && after == g,
        Step::Fail(k) => r matches Err(e) && e.kind_text() == k,
        Step::Vm => r == Ok::<Flow, JvmError>(Flow::NeedsVm) && after == before,
        Step::Give(_) => false,
    }
}

fn state_error(msg: &str) -> (e: JvmError)
    ensures
        e.kind_text() == illegal_state(),
        e.message() == msg@,
{
    JvmError::IllegalStateError(String::from_str(msg))
}

fn overflow_error() -> (e: JvmError)
    ensures
        e.kind_text() == overflow(),
{
    JvmError::StackOverflowError(String::from_str("Stack overflow"))
}

/// Pushes an int when there is room and moves on to `pc`.
fn push_checked(frame: &mut Frame, v: i32, pc: usize) -> (r: Result<Flow, JvmError>)
    requires
        old(frame)@.bounded(),
    ensures
        final(frame)@.bounded(),
        step_matches(push_step(old(frame)@, v, pc as int), r, old(frame)@, final(frame)@),
{
    if frame.stack.values_len() >= frame.stack.max_size() {
        return Err(overflow_error());
    }
    frame.stack.push_int(v);
    frame.pc = pc;
    Ok(Flow::Continue)
}

/// Pushes the int of a local variable and moves on to `pc`.
fn load_checked(frame: &mut Frame, index: usize, pc: usize) -> (r: Result<Flow, JvmError>)
    requires
        old(frame)@.bounded(),
    ensures
        final(frame)@.bounded(),
        step_matches(load_step(old(frame)@, index as int, pc as int), r, old(frame)@, final(frame)@),
{
    if index >= frame.local_vars.max_locals() {
        return Err(state_error("Local variable index out of bounds"));
    }
    match frame.local_vars.get(index) {
        JvmValue::Int(v) => push_checked(frame, v as i32, pc),
        _ => Err(state_error("Local variable does not hold an int")),
    }
}

/// Pops an int into a local variable and moves on to `pc`.
fn store_checked(frame: &mut Frame, index: usize, pc: usize) -> (r: Result<Flow, JvmError>)
    requires
        old(frame)@.bounded(),
    ensures
        final(frame)@.bounded(),
        step_matches(store_step(old(frame)@, index as int, pc as int), r, old(frame)@, final(frame)@),
{
    if frame.stack.is_values_empty() {
        return Err(state_error("Stack underflow"));
    }
    if index >= frame.local_vars.max_locals() {
        return Err(state_error("Local variable index out of bounds"));
    }
    let _ = store_int(frame, index);
    frame.pc = pc;
    Ok(Flow::Continue)
}

/// A binary int operation on the two top ints: 0 add, 1 subtract,
/// 2 multiply, 3 divide.
fn arith_checked(frame: &mut Frame, kind: u8, pc: usize) -> (r: Result<Flow, JvmError>)
    requires
        old(frame)@.bounded(),
        kind < 4,
    ensures
        final(frame)@.bounded(),
        step_matches(arith_step(old(frame)@, kind as int, pc as int), r, old(frame)@, final(frame)@),
{
    if frame.stack.values_len() < 2 {
        return Err(state_error("Stack underflow"));
    }
    let res = if kind == 0 {
        exec_iadd(frame, &[], None)
    } else if kind == 1 {
        exec_isub(frame, &[], None)
    } else if kind == 2 {
        exec_imul(frame, &[], None)
    } else {
        exec_idiv(frame, &[], None)
    };
    match res {
        Ok(()) => {
            frame.pc = pc;
            Ok(Flow::Continue)
        },
        Err(e) => Err(e),
    }
}

/// Executes the instruction at the frame's pc when it needs only the frame,
/// the code and the constant pool; leaves the frame alone and answers
/// `NeedsVm` for an instruction that needs the virtual machine.
pub fn step_frame(frame: &mut Frame, code: &[u8], cp: &Vec<CpInfo>) -> (r: Result<Flow, JvmError>)
    requires
        old(frame).pc < code@.len(),
        code@.len() + 65536 <= usize::MAX,
        old(frame)@.bounded(),
    ensures
        step_matches(frame_step(code@, cp@, old(frame)@), r, old(frame)@, final(frame)@),
        final(frame)@.bounded(),
{
    let len = code.len();
    let pc = frame.pc;
    let op = code[pc];
    let p1 = pc + 1;
    if op == 0x00 {
        frame.pc = p1;
        Ok(Flow::Continue)
    } else if op == 0x01 {
        push_checked(frame, 0, p1)
    } else if 0x02 <= op && op <= 0x08 {
        push_checked(frame, op as i32 - 3, p1)
    } else if op == 0x10 {
        if p1 >= len {
            return Err(state_error("Bytecode ends inside an instruction"));
        }
        let v = read_s1(code, p1);
        push_checked(frame, v, p1 + 1)
    } else if op == 0x11 {
        if p1 + 1 >= len {
            return Err(state_error("Bytecode ends inside an instruction"));
        }
        let v = read_s2(code, p1);
        push_checked(frame, v, p1 + 2)
    } else if op == 0x15 {
        if p1 >= len {
            return Err(state_error("Bytecode ends inside an instruction"));
        }
        load_checked(frame, code[p1] as usize, p1 + 1)
    } else if 0x1a <= op && op <= 0x1d {
        load_checked(frame, (op - 0x1a) as usize, p1)
    } else if 0x2a <= op && op <= 0x2d {
        load_checked(frame, (op - 0x2a) as usize, p1)
    } else if op == 0x36 {
        if p1 >= len {
            return Err(state_error("Bytecode ends inside an instruction"));
        }
        store_checked(frame, code[p1] as usize, p1 + 1)
    } else if 0x3b <= op && op <= 0x3e {
        store_checked(frame, (op - 0x3b) as usize, p1)
    } else if 0x3f <= op && op <= 0x42 {
        store_checked(frame, (op - 0x3f) as usize, p1)
    } else if 0x4b <= op && op <= 0x4e {
        if frame.stack.is_obj_refs_empty() {
            return Err(state_error("Stack underflow"));
        }
        frame.stack.pop_obj_ref();
        frame.pc = p1;
        Ok(Flow::Continue)
    } else if op == 0x60 {
        arith_checked(frame, 0, p1)
    } else if op == 0x61 || op == 0x64 {
        arith_checked(frame, 1, p1)
    } else if op == 0x62 || op == 0x68 {
        arith_checked(frame, 2, p1)
    } else if op == 0x63 || op == 0x6c {
        arith_checked(frame, 3, p1)
    } else if op == 0x84 {
        if p1 + 1 >= len {
            return Err(state_error("Bytecode ends inside an instruction"));
        }
        let index = code[p1] as usize;
        if index >= frame.local_vars.max_locals() {
            return Err(state_error("Local variable index out of bounds"));
        }
        match frame.local_vars.get(index) {
            JvmValue::Int(_) => {},
            _ => return Err(state_error("Local variable does not hold an int")),
        }
        frame.pc = p1;
        let _ = exec_iinc(frame, code, None);
        Ok(Flow::Continue)
    } else if op == 0x99 || op == 0x9a || op == 0x9f {
        if p1 + 1 >= len || frame.stack.is_values_empty() {
            return Err(state_error("Bytecode ends inside an instruction or stack underflow"));
        }
        frame.pc = p1;
        let _ = if op == 0x99 {
            exec_ifeq(frame, code, None)
        } else if op == 0x9a {
            exec_ifne(frame, code, None)
        } else {
            exec_ifge(frame, code, None)
        };
        Ok(Flow::Continue)
    } else if op == 0xa2 {
        if p1 + 1 >= len || frame.stack.values_len() < 2 {
            return Err(state_error("Bytecode ends inside an instruction or stack underflow"));
        }
        frame.pc = p1;
        two_int_branch(frame, code);
        Ok(Flow::Continue)
    } else if op == 0xa7 {
        if p1 + 1 >= len {
            return Err(state_error("Bytecode ends inside an instruction"));
        }
        frame.pc = p1;
        let _ = exec_goto(frame, code, None);
        Ok(Flow::Continue)
    } else if op == 0xac || op == 0xb1 {
        frame.pc = p1;
        Ok(Flow::Return)
    } else if op == 0x59 {
        if !frame.stack.is_values_empty() {
            let v = frame.stack.peek_int();
            push_checked(frame, v, p1)
        } else if !frame.stack.is_obj_refs_empty() {
            if frame.stack.obj_refs_len() >= frame.stack.max_size() {
                return Err(overflow_error());
            }
            let p = frame.stack.peek_obj_ref();
            frame.stack.push_obj_ref(p);
            frame.pc = p1;
            Ok(Flow::Continue)
        } else {
            Err(state_error("dup: the stack is empty"))
        }
    } else if op == 0x57 {
        let _ = exec_pop(frame, code, None);
        frame.pc = p1;
        Ok(Flow::Continue)
    } else if op == 0x5f {
        let _ = exec_swap(frame, code, None);
        frame.pc = p1;
        Ok(Flow::Continue)
    } else if op == 0xb4 {
        if p1 + 1 >= len || frame.stack.is_obj_refs_empty() {
            return Err(state_error("getfield: no object reference on the stack"));
        }
        frame.stack.pop_obj_ref();
        push_checked(frame, 0, p1 + 2)
    } else if op == 0xb5 {
        if p1 + 1 >= len || frame.stack.is_obj_refs_empty() || frame.stack.is_values_empty() {
            return Err(state_error("putfield: the stack holds no value and object reference"));
        }
        frame.stack.pop_int();
        frame.stack.pop_obj_ref();
        frame.pc = p1 + 2;
        Ok(Flow::Continue)
    } else if op == 0xbe {
        if frame.stack.is_obj_refs_empty() {
            return Err(state_error("arraylength: no array reference on the stack"));
        }
        frame.stack.pop_obj_ref();
        push_checked(frame, 10, p1)
    } else if op == 0x4f {
        if frame.stack.values_len() < 2 || frame.stack.is_obj_refs_empty() {
            return Err(state_error("iastore: not enough values on the stack"));
        }
        frame.stack.pop_int();
        frame.stack.pop_int();
        frame.stack.pop_obj_ref();
        frame.pc = p1;
        Ok(Flow::Continue)
    } else if op == 0x2e {
        if frame.stack.is_values_empty() || frame.stack.is_obj_refs_empty() {
            return Err(state_error("iaload: not enough values on the stack"));
        }
        let index = frame.stack.pop_int();
        frame.stack.pop_obj_ref();
        frame.stack.push_int(index);
        frame.pc = p1;
        Ok(Flow::Continue)
    } else if op == 0xb7 {
        if p1 + 1 >= len {
            return Err(state_error("Bytecode ends inside an instruction"));
        }
        let index = read_u2(code, p1);
        match get_methodref_info(cp, index) {
            None => return Err(state_error("invokespecial: the constant is no method reference")),
            Some(_) => {},
        }
        if !frame.stack.is_obj_refs_empty() {
            frame.stack.pop_obj_ref();
        }
        frame.pc = p1 + 2;
        Ok(Flow::Continue)
    } else if op == 0x14 {
        if p1 + 1 >= len {
            return Err(state_error("Bytecode ends inside an instruction"));
        }
        let index = read_u2(code, p1);
        match cp_get(cp, index as usize) {
            Some(CpInfo::Long { high_bytes, low_bytes }) => push_checked(frame, *low_bytes as i32, p1 + 2),
            Some(CpInfo::Double { high_bytes, low_bytes }) => {
                if frame.stack.max_size() < 2 || frame.stack.values_len() > frame.stack.max_size() - 2 {
                    return Err(overflow_error());
                }
                frame.stack.push_int(*high_bytes as i32);
                frame.stack.push_int(*low_bytes as i32);
                frame.pc = p1 + 2;
                Ok(Flow::Continue)
            },
            _ => Err(state_error("ldc2_w: the constant is no long or double")),
        }
    } else if op == 0x12 || op == 0x13 {
        let n: usize = if op == 0x12 { 1 } else { 2 };
        if p1 + n - 1 >= len {
            return Err(state_error("Bytecode ends inside an instruction"));
        }
        let index: usize = if op == 0x12 { code[p1] as usize } else { read_u2(code, p1) as usize };
        match cp_get(cp, index) {
            Some(CpInfo::Integer { bytes }) => push_checked(frame, *bytes as i32, p1 + n),
            Some(CpInfo::Float { bytes }) => push_checked(frame, *bytes as i32, p1 + n),
            Some(CpInfo::String { string_index }) => Ok(Flow::NeedsVm),
            _ => Err(state_error("ldc: the constant is of an unsupported type")),
        }
    } else if op == 0xb2 || op == 0xb3 || op == 0xb6 || op == 0xbb || op == 0xbc || op == 0xb0 || op == 0xb8 {
        Ok(Flow::NeedsVm)
    } else {
        Err(unknown_opcode(op))
    }
}

/// Pops two ints and jumps when the lower one is at least the top one.
fn two_int_branch(frame: &mut Frame, code: &[u8])
    requires
        old(frame).pc + 1 < code@.len(),
        old(frame).pc + 65538 <= usize::MAX,
        old(frame)@.ints.len() >= 2,
    ensures
        final(frame)@ == old(frame)@.pop_int().pop_int().at(
            if old(frame)@.second_int() >= old(frame)@.top_int() {
                branch_target(old(frame).pc + 2, offset_at(code@, old(frame).pc))
            } else {
                old(frame).pc + 2
            },
        ),
{
    let _ = exec_if_icmpge(frame, code, None);
}

/// The error for an opcode the interpreter does not know.
pub fn unknown_opcode(op: u8) -> (e: JvmError)
    ensures
        e.kind_text() == illegal_state(),
{
    let mut msg = String::from_str("Unknown opcode: 0x");
    let digits = hex_text(op);
    msg.append(digits.as_str());
    JvmError::IllegalStateError(msg)
}

/// The lowercase hexadecimal digits of a byte, without leading zeros.
pub fn hex_text(v: u8) -> (s: String)
    ensures
        s@ == (if v < 16 { seq![hex_digit(v as nat)] } else { seq![hex_digit((v / 16) as nat), hex_digit((v % 16) as nat)] }),
{
    let mut s = String::new();
    if v >= 16 {
        crate::text::push_char(&mut s, hex_digit_char(v / 16));
    }
    crate::text::push_char(&mut s, hex_digit_char(v % 16));
    s
}

/// The character of a hexadecimal digit.
pub open spec fn hex_digit(d: nat) -> char {
    if d < 10 {
        (48 + d) as char
    } else {
        (87 + d) as char
    }
}

fn hex_digit_char(d: u8) -> (c: char)
    requires
        d < 16,
    ensures
        c == hex_digit(d as nat),
{
    let table = "0123456789abcdef";
    proof {
        reveal_strlit("0123456789abcdef");
    }
    crate::text::char_at(table, d as usize)
}

/// The values of the static fields, by class and field name.
pub type Statics = Map<(Seq<char>, Seq<char>), JvmValue>;

/// The part of the virtual machine a run follows: the static field values,
/// the lines printed, the text of each string builder, the heap (its
/// bytes, and where the current semi-space
/// starts, how much of it is in use and its capacity), and the class files
/// classes are loaded from, with the class id the next class loaded gets and
/// what the loader keeps about each name; the text of each string object
/// the virtual machine made, the registered native methods and the clock.
pub ghost struct Machine {
    pub statics: Statics,
    pub printed: Seq<PrintView>,
    pub builders: Map<u64, Seq<char>>,
    pub mem: Seq<u8>,
    pub start: int,
    pub used: int,
    pub capacity: int,
    pub files: Seq<ClassFile>,
    pub id: usize,
    pub infos: Map<Seq<char>, ClassLoadingInfoView>,
    pub strings: Map<u64, Seq<char>>,
    pub natives: Map<Seq<char>, bool>,
    pub clock: u64,
}

/// What the loader of machine state `m` keeps about a name.
pub open spec fn info_in(m: Machine, name: Seq<char>) -> ClassLoadingInfoView {
    if m.infos.contains_key(name) {
        m.infos[name]
    } else {
        fresh_info()
    }
}

/// The id the class named `name` has in machine state `m`, or gets when it
/// is loaded now.
pub open spec fn id_in(m: Machine, name: Seq<char>) -> usize {
    let i = info_in(m, name);
    if i.state == ClassLoadingState::NotLoaded {
        m.id
    } else {
        match i.klass {
            Some(k) => klass_id(k),
            None => m.id,
        }
    }
}

/// Machine state `m` after the class named `name` is loaded.
pub open spec fn loaded(m: Machine, name: Seq<char>) -> Machine {
    let i = info_in(m, name);
    Machine {
        infos: m.infos.insert(name, after_load(m.files, m.id, name, i)),
        id: id_after_load(m.files, m.id, name, i),
        ..m
    }
}

/// That part of a virtual machine.
pub open spec fn machine_of(vm: Vm) -> Machine {
    Machine {
        statics: vm.statics(),
        printed: vm.printed(),
        builders: vm.builders(),
        mem: vm.heap_state().bytes(),
        start: vm.heap_state().cur_start(),
        used: vm.heap_state().cur_used(),
        capacity: vm.heap_state().cur_capacity(),
        files: vm.loader().files(),
        id: vm.loader().class_id(),
        infos: vm.loader().infos(),
        strings: vm.strings(),
        natives: vm.natives(),
        clock: vm.clock(),
    }
}

/// `putstatic` as the interpreter runs it: where the frame goes.
pub open spec fn putstatic_step(code: Seq<u8>, cp: Seq<CpInfo>, f: FrameView) -> Step {
    let p1 = f.pc + 1;
    if p1 + 1 >= code.len() {
        Step::Fail(illegal_state())
    } else {
        match fieldref_at(cp, code_u2(code, p1) as int) {
            None => Step::Fail(illegal_state()),
            Some((c, n, d)) => match putstatic_value(f) {
                None => Step::Fail(illegal_state()),
                Some((v, g)) => Step::Next(g.at(p1 + 2)),
            },
        }
    }
}

/// `putstatic` as the interpreter runs it: the static field values after it.
pub open spec fn putstatic_statics(code: Seq<u8>, cp: Seq<CpInfo>, f: FrameView, s: Statics) -> Statics {
    let p1 = f.pc + 1;
    if p1 + 1 >= code.len() {
        s
    } else {
        match fieldref_at(cp, code_u2(code, p1) as int) {
            None => s,
            Some((c, n, d)) => match putstatic_value(f) {
                None => s,
                Some((v, g)) => s.insert((c, n), JvmValue::Int(v as u32)),
            },
        }
    }
}

/// `invokevirtual` as the interpreter runs it, for a call other than one of
/// `StringBuilder.append` and `StringBuilder.toString`: where the frame goes
/// and the line printed, if any; `mem` is the heap the printed strings are
/// read from.
pub open spec fn invokevirtual_step(code: Seq<u8>, cp: Seq<CpInfo>, f: FrameView, mem: Seq<u8>) -> (Step, Option<PrintView>) {
    let p1 = f.pc + 1;
    if p1 + 1 >= code.len() {
        (Step::Fail(illegal_state()), None)
    } else {
        match methodref_at(cp, code_u2(code, p1) as int) {
            None => (Step::Fail(illegal_state()), None),
            Some((c, n, d)) => if c == "java/io/PrintStream"@ && n == "println"@ {
                match println_args(d, f) {
                    None => (Step::Fail(illegal_state()), None),
                    Some((args, g)) => (Step::Next(drop_receiver(g).at(p1 + 2)), Some(println_line(args, mem))),
                }
            } else if c == "TestProgram"@ && n == "multiply"@ {
                if f.ints.len() < 2 {
                    (Step::Fail(illegal_state()), None)
                } else {
                    (
                        Step::Next(
                            drop_receiver(f.pop_int().pop_int()).push_int(f.second_int().wrapping_mul(f.top_int())).at(p1 + 2),
                        ),
                        None,
                    )
                }
            } else {
                match push_slots(drop_receiver(f), default_result_slots(d)) {
                    Some(g) => (Step::Next(g.at(p1 + 2)), None),
                    None => (Step::Fail(overflow()), None),
                }
            },
        }
    }
}

/// The text of the string builder at address `b`: empty for one that was
/// never appended to.
pub open spec fn builder_text(builders: Map<u64, Seq<char>>, b: u64) -> Seq<char> {
    if builders.contains_key(b) {
        builders[b]
    } else {
        Seq::empty()
    }
}

/// `StringBuilder.toString` as the interpreter runs it, `f` being the frame
/// with the receiver on top: the receiver is replaced by a new string object
/// with the builder's text, made past the end of the heap, or by null when
/// none can be made (the `char[]` made before the object stays); the pc is
/// left where it is.
pub open spec fn to_string_step(f: FrameView, m: Machine) -> (Step, Machine) {
    let g = drop_receiver(f);
    let units = utf16_encode(builder_text(m.builders, receiver(f).0));
    if !g.ref_room(1) {
        (Step::Fail(overflow()), m)
    } else if 16 + 2 * units.len() < 0x80_0000 && string_fits(m.mem, units) {
        (
            Step::Next(g.push_ref(Ptr(string_at(m.mem, units) as u64))),
            Machine {
                mem: with_string(m.mem, units),
                strings: m.strings.insert(string_at(m.mem, units) as u64, builder_text(m.builders, receiver(f).0)),
                ..m
            },
        )
    } else if 16 + 2 * units.len() < 0x80_0000 && align8(m.mem.len() as int) + 16 + 2 * units.len() <= isize::MAX {
        (Step::Next(g.push_ref(Ptr(0))), Machine { mem: with_char_array(m.mem, units), ..m })
    } else {
        (Step::Next(g.push_ref(Ptr(0))), m)
    }
}

/// `invokevirtual` as the interpreter runs it: where the frame goes and the
/// machine after it. `StringBuilder.append` appends the text of its
/// argument to the receiver's builder, `StringBuilder.toString` is
/// `to_string_step`, and any other call is `invokevirtual_step`.
pub open spec fn invokevirtual_run_step(code: Seq<u8>, cp: Seq<CpInfo>, f: FrameView, m: Machine) -> (Step, Machine) {
    let p1 = f.pc + 1;
    if p1 + 1 >= code.len() {
        (Step::Fail(illegal_state()), m)
    } else {
        match methodref_at(cp, code_u2(code, p1) as int) {
            None => (Step::Fail(illegal_state()), m),
            Some((c, n, d)) => if c == "java/lang/StringBuilder"@ && n == "append"@ {
                let (text, g) = append_arg(f, m.mem);
                let b = receiver(g);
                if !drop_receiver(g).ref_room(1) {
                    (Step::Fail(overflow()), m)
                } else {
                    (
                        Step::Next(drop_receiver(g).push_ref(b).at(p1 + 2)),
                        Machine { builders: m.builders.insert(b.0, builder_text(m.builders, b.0) + text), ..m },
                    )
                }
            } else if c == "java/lang/StringBuilder"@ && n == "toString"@ {
                match to_string_step(f, m) {
                    (Step::Next(g), t) => (Step::Next(g.at(p1 + 2)), t),
                    other => other,
                }
            } else {
                let (st, line) = invokevirtual_step(code, cp, f, m.mem);
                (st, Machine { printed: printed_after(m.printed, line), ..m })
            },
        }
    }
}

/// Whether every field of a list has an int default, the one kind of
/// default `new` stores.
pub open spec fn int_defaults(fs: Seq<FieldView>) -> bool {
    forall|k: int| 0 <= k < fs.len() ==> #[trigger] descriptor_default(fs[k].descriptor) is Int
}

/// `new` as the interpreter runs it: where the frame goes and the machine
/// after it. The class is loaded, an object of it is allocated in the
/// current semi-space with a fresh header, and the int 0 is stored in
/// each of its field slots.
pub open spec fn new_step(code: Seq<u8>, cp: Seq<CpInfo>, f: FrameView, m: Machine) -> (Step, Machine) {
    let p1 = f.pc + 1;
    if p1 + 1 >= code.len() {
        (Step::Fail(illegal_state()), m)
    } else {
        match class_name_at(cp, code_u2(code, p1) as int) {
            None => (Step::Fail(illegal_state()), m),
            Some(name) => if !f.ref_room(1) {
                (Step::Fail(overflow()), m)
            } else {
                match resolve_class(m.files, name, id_in(m, name)) {
                    Err(_) => (Step::Fail("ClassNotFoundError"@), m),
                    Ok(KlassView::Array(_)) => (Step::Fail(illegal_state()), m),
                    Ok(KlassView::Instance(k)) => {
                        let n = k.i_fields.len();
                        let size = object_size(n as int);
                        if n >= 0xF_0000 || k.class_id >= 1024 {
                            (Step::Fail("OutOfMemoryError"@), m)
                        } else {
                            match chunk_alloc(m.start, m.used, m.capacity, size) {
                                (_, None) => (Step::Fail(illegal_state()), m),
                                (used, Some(p)) => if !int_defaults(k.i_fields) {
                                    (Step::Fail("Unimplemented"@), m)
                                } else {
                                    let header = u64_bytes(fresh_header(k.class_id as u64, size as u64));
                                    (
                                        Step::Next(f.push_ref(p).at(p1 + 2)),
                                        Machine {
                                            mem: zero_fields(write_bytes(m.mem, p.0 as int, header), p.0 as int, n),
                                            used,
                                            ..loaded(m, name)
                                        },
                                    )
                                },
                            }
                        }
                    },
                }
            },
        }
    }
}

/// `newarray` as the interpreter runs it: where the frame goes and the
/// machine after it. The array is made past the end of the heap.
pub open spec fn newarray_step(code: Seq<u8>, f: FrameView, m: Machine) -> (Step, Machine) {
    let p1 = f.pc + 1;
    if p1 >= code.len() || f.ints.len() == 0 {
        (Step::Fail(illegal_state()), m)
    } else {
        let count = f.top_int();
        let t = code[p1];
        if count < 0 {
            (Step::Fail(illegal_state()), m)
        } else {
            match element_size(t) {
                None => (Step::Fail(illegal_state()), m),
                Some(sz) => if count >= 0x80_0000 || 16 + count * sz >= 0x80_0000 {
                    (Step::Fail("OutOfMemoryError"@), m)
                } else if !f.pop_int().ref_room(1) {
                    (Step::Fail(overflow()), m)
                } else if align8(m.mem.len() as int) + 16 + count * sz > isize::MAX {
                    (Step::Fail(illegal_state()), m)
                } else {
                    (
                        Step::Next(f.pop_int().push_ref(Ptr(align8(m.mem.len() as int) as u64)).at(p1 + 1)),
                        Machine { mem: with_array(m.mem, t, count as int, sz as int), ..m },
                    )
                },
            }
        }
    }
}

/// `ldc` or `ldc_w` on a `String` constant as the interpreter runs it:
/// where the frame goes and the machine after it. A string object with the
/// constant's text is made past the end of the heap.
pub open spec fn ldc_string_step(code: Seq<u8>, cp: Seq<CpInfo>, f: FrameView, m: Machine) -> (Step, Machine) {
    let op = code[f.pc];
    let p1 = f.pc + 1;
    let width: int = if op == 0x12 { 1 } else { 2 };
    if p1 + width - 1 >= code.len() {
        (Step::Fail(illegal_state()), m)
    } else {
        let index: int = if op == 0x12 { code[p1] as int } else { code_u2(code, p1) as int };
        match cp_entry(cp, index) {
            Some(CpInfo::String { string_index }) => match utf8_at(cp, string_index as int) {
                None => (Step::Fail(illegal_state()), m),
                Some(text) => {
                    let units = utf16_encode(text);
                    if 16 + 2 * units.len() >= 0x80_0000 {
                        (Step::Fail(illegal_state()), m)
                    } else if !f.ref_room(1) {
                        (Step::Fail(overflow()), m)
                    } else if !string_fits(m.mem, units) {
                        (Step::Fail(illegal_state()), m)
                    } else {
                        (
                            Step::Next(f.push_ref(Ptr(string_at(m.mem, units) as u64)).at(p1 + width)),
                            Machine {
                                mem: with_string(m.mem, units),
                                strings: m.strings.insert(string_at(m.mem, units) as u64, text),
                                ..m
                            },
                        )
                    }
                },
            },
            _ => (Step::Fail(illegal_state()), m),
        }
    }
}

/// Whether an instruction that reaches into the virtual machine, meant to
/// end as step `st`, ended so: with result `r`, frame `g` and virtual
/// machine `vm` left.
pub open spec fn vm_step_matches(st: (Step, Machine), r: Result<Flow, JvmError>, g: FrameView, vm: Vm) -> bool {
    match st.0 {
        Step::Next(h) => r == Ok::<Flow, JvmError>(Flow::Continue) && g == h && machine_of(vm) == st.1,
        Step::Fail(k) => r matches Err(e) && e.kind_text() == k,
        _ => false,
    }
}

/// Whether the virtual machine instruction at the frame's pc is one a run
/// follows: `areturn`, `getstatic`, `putstatic`, `invokevirtual`, `new`,
/// `newarray` or `ldc` of a string constant.
pub open spec fn runs_on(code: Seq<u8>, cp: Seq<CpInfo>, f: FrameView) -> bool {
    let op = code[f.pc];
    ||| op == 0xb0 || op == 0xb2 || op == 0xb3 || op == 0xb6 || op == 0xbb || op == 0xbc
    ||| (op == 0x12 || op == 0x13) && frame_step(code, cp, f) is Vm
}

/// The lines printed after a step that may print one.
pub open spec fn printed_after(printed: Seq<PrintView>, line: Option<PrintView>) -> Seq<PrintView> {
    match line {
        Some(l) => printed.push(l),
        None => printed,
    }
}

/// One step of a run: an instruction that needs only the frame, or one
/// that `runs_on` admits, on the machine state.
pub open spec fn run_step(code: Seq<u8>, cp: Seq<CpInfo>, f: FrameView, m: Machine) -> (Step, Machine) {
    let op = code[f.pc];
    if op == 0xb0 {
        (areturn_step(f), m)
    } else if op == 0xb2 {
        (getstatic_step(code, cp, m.statics, f), m)
    } else if op == 0xb3 {
        (putstatic_step(code, cp, f), Machine { statics: putstatic_statics(code, cp, f, m.statics), ..m })
    } else if op == 0xb6 {
        invokevirtual_run_step(code, cp, f, m)
    } else if op == 0xbb {
        new_step(code, cp, f, m)
    } else if op == 0xbc {
        newarray_step(code, f, m)
    } else if (op == 0x12 || op == 0x13) && frame_step(code, cp, f) is Vm {
        ldc_string_step(code, cp, f, m)
    } else {
        (frame_step(code, cp, f), m)
    }
}

/// Every instruction that needs the virtual machine but `invokestatic` is
/// one that `runs_on` admits.
pub proof fn lemma_vm_step_runs_on(code: Seq<u8>, cp: Seq<CpInfo>, f: FrameView)
    requires
        0 <= f.pc < code.len(),
        frame_step(code, cp, f) is Vm,
        code[f.pc] != 0xb8,
    ensures
        runs_on(code, cp, f),
{
}

/// The method `invokestatic` calls: the last method of the ordinary class
/// `c` resolves to whose name is `n` and whose descriptor is `d`.
pub open spec fn static_callee(m: Machine, c: Seq<char>, n: Seq<char>, d: Seq<char>) -> Option<MethodView> {
    match resolve_class(m.files, c, id_in(m, c)) {
        Ok(KlassView::Instance(k)) => match last_method_with_key(k.methods, fq_key(n, d)) {
            Some(i) => Some(k.methods[i]),
            None => None,
        },
        _ => None,
    }
}

/// The frame a static call of `mv` starts with: empty stacks of the
/// method's depth, the arguments in the first locals and null in the rest.
pub open spec fn callee_start(mv: MethodView, args: Seq<JvmValue>) -> FrameView {
    FrameView {
        ints: Seq::empty(),
        refs: Seq::empty(),
        cap: mv.max_stack as nat,
        locals: call_locals(mv.max_locals as nat, args),
        pc: 0,
        method: mv,
    }
}

/// Where a whole run ends: its result (`Ok`, or the kind of error), the
/// frames, the machine state and the steps left.
pub ghost struct RunEnd {
    pub result: Result<(), Seq<char>>,
    pub frames: Seq<FrameView>,
    pub machine: Machine,
    pub left: nat,
}

/// A run that stops with an error of kind `k`.
pub open spec fn run_failed(k: Seq<char>, frames: Seq<FrameView>, m: Machine, left: nat) -> RunEnd {
    RunEnd { result: Err(k), frames, machine: m, left }
}

/// How a run ends when `areturn` gives reference `p` to the caller: as
/// `gave_outcome` says.
pub open spec fn gave_end(p: Ptr, rest: Seq<FrameView>, m: Machine, left: nat) -> RunEnd {
    if rest.len() == 0 {
        RunEnd { result: Ok(()), frames: rest, machine: m, left }
    } else if !rest[0].ref_room(1) {
        run_failed(overflow(), rest, m, left)
    } else {
        RunEnd { result: Ok(()), frames: rest.update(0, rest[0].push_ref(p)), machine: m, left }
    }
}

/// The run `execute` makes of `code` with at most `budget` steps, from the
/// thread's frames `frames` (the current one first) and machine state `m`:
/// one step per instruction of `code`; a static call runs the called method
/// within the same budget (`static_call_end`).
pub open spec fn run_spec(code: Seq<u8>, cp: Seq<CpInfo>, frames: Seq<FrameView>, m: Machine, budget: nat) -> RunEnd
    decreases budget, 1int,
{
    if frames.len() == 0 || !(0 <= frames[0].pc < code.len()) {
        RunEnd { result: Ok(()), frames, machine: m, left: budget }
    } else if budget == 0 {
        run_failed(illegal_state(), frames, m, 0)
    } else {
        let b = (budget - 1) as nat;
        let f = frames[0];
        let rest = frames.drop_first();
        match frame_step(code, cp, f) {
            Step::Next(g) => run_spec(code, cp, seq![g] + rest, m, b),
            Step::Ret(g) => RunEnd { result: Ok(()), frames: seq![g] + rest, machine: m, left: b },
            Step::Fail(k) => run_failed(k, frames, m, b),
            _ => if code[f.pc] == 0xb8 {
                let e = static_call_end(code, cp, f, rest, m, b);
                match e.result {
                    Err(k) => e,
                    Ok(()) => run_spec(code, cp, e.frames, e.machine, if e.left <= b { e.left } else { b }),
                }
            } else {
                match run_step(code, cp, f, m) {
                    (Step::Next(g), t) => run_spec(code, cp, seq![g] + rest, t, b),
                    (Step::Fail(k), _) => run_failed(k, frames, m, b),
                    (Step::Give(p), t) => gave_end(p, rest, t, b),
                    _ => run_failed(illegal_state(), frames, m, b),
                }
            },
        }
    }
}

/// `invokestatic` in a run, `f` being the current frame, `rest` the frames
/// under it and `b` the steps left: the arguments are taken off, the class
/// loaded and the method found, then the method runs on a new frame with
/// the arguments in its first locals, within `b - 1` steps; the frame on
/// top is removed afterwards and the return value's kind checked, as
/// `finish_end` says. `Ok` means the caller goes on with the frames,
/// machine state and steps given.
pub open spec fn static_call_end(
    code: Seq<u8>,
    cp: Seq<CpInfo>,
    f: FrameView,
    rest: Seq<FrameView>,
    m: Machine,
    b: nat,
) -> RunEnd
    decreases b, 0int,
{
    let p1 = f.pc + 1;
    let frames = seq![f] + rest;
    if p1 + 1 >= code.len() {
        run_failed(illegal_state(), frames, m, b)
    } else {
        match methodref_at(cp, code_u2(code, p1) as int) {
            None => run_failed(illegal_state(), frames, m, b),
            Some((c, n, d)) => match static_args(f.at(p1 + 2), static_params(d)) {
                None => run_failed(illegal_state(), frames, m, b),
                Some((args, g)) => if resolve_class(m.files, c, m.id) is Err {
                    run_failed("ClassNotFoundError"@, frames, m, b)
                } else {
                    match static_callee(m, c, n, d) {
                        None => run_failed(illegal_state(), frames, m, b),
                        Some(mv) => if mv.code.len() > usize::MAX - 65536 || b == 0 || args.len() > mv.max_locals {
                            run_failed(illegal_state(), frames, m, b)
                        } else {
                            let inner = run_spec(
                                mv.code,
                                mv.constant_pool,
                                seq![callee_start(mv, args)] + (seq![g] + rest),
                                loaded(m, c),
                                (b - 1) as nat,
                            );
                            finish_end(d, inner)
                        },
                    }
                },
            },
        }
    }
}

/// How `invokestatic` ends once the called method's run ended as `inner`:
/// a failed run fails the call; else the frame on top is removed,
/// whichever it is (no frame left fails), and for a descriptor `d` that
/// ends in `I`, or else in `L` or `]`, the frame below must have an int, or
/// a reference, on top.
pub open spec fn finish_end(d: Seq<char>, inner: RunEnd) -> RunEnd {
    let mid = inner.frames;
    let left = mid.drop_first();
    if inner.result is Err {
        inner
    } else if mid.len() == 0 {
        RunEnd { result: Err(illegal_state()), ..inner }
    } else if left.len() > 0 && has_suffix(d, "I"@) && left[0].ints.len() == 0 {
        RunEnd { result: Err(illegal_state()), frames: left, ..inner }
    } else if left.len() > 0 && !has_suffix(d, "I"@) && (has_suffix(d, "L"@) || has_suffix(d, "]"@))
        && left[0].refs.len() == 0 {
        RunEnd { result: Err(illegal_state()), frames: left, ..inner }
    } else {
        RunEnd { frames: left, ..inner }
    }
}

/// Whether a run ended as `e` says: the result `r` (of the same kind of
/// error, or `Ok` with the frames `frames` and the virtual machine `vm`).
/// A run that fails leaves the lines printed and the static fields as they
/// were where it failed.
pub open spec fn run_ends_as(e: RunEnd, r: Result<(), JvmError>, frames: Seq<FrameView>, vm: Vm) -> bool {
    match e.result {
        Ok(()) => r is Ok && frames == e.frames && machine_of(vm) == e.machine,
        Err(k) => r matches Err(x) && x.kind_text() == k && failed_keeps(e.machine, vm),
    }
}

/// The lines printed and the static fields of machine `vm` are those of
/// machine state `m`.
pub open spec fn failed_keeps(m: Machine, vm: Vm) -> bool {
    machine_of(vm).printed == m.printed && machine_of(vm).statics == m.statics
}

/// How the frames end up, as `frames`, with result `r`, when `areturn`
/// gives reference `p` to the caller: the current frame is removed and the
/// reference pushed onto the caller's frame `rest[0]`, if there is one; a
/// full stack there fails.
pub open spec fn gave_outcome(p: Ptr, r: Result<(), JvmError>, frames: Seq<FrameView>, rest: Seq<FrameView>) -> bool {
    if rest.len() == 0 {
        r is Ok && frames == rest
    } else if !rest[0].ref_room(1) {
        r matches Err(e) && e.kind_text() == overflow()
    } else {
        r is Ok && frames == rest.update(0, rest[0].push_ref(p))
    }
}

/// `areturn` as the interpreter runs it.
pub open spec fn areturn_step(f: FrameView) -> Step {
    if f.refs.len() == 0 {
        Step::Fail(illegal_state())
    } else {
        Step::Give(f.top_ref())
    }
}

/// The number of steps `execute` runs at most.
pub const STEP_LIMIT: u64 = 0xffff_ffff_ffff_ffff;

/// A thread of execution: its stack of frames, the current one first.
pub struct JvmThread {
    pub frames: Vec<Frame>,
}

impl JvmThread {
    /// The frames, the current one first.
    pub open spec fn frames_view(&self) -> Seq<FrameView> {
        self.frames@.map_values(|f: Frame| f@)
    }

    /// Every frame keeps its stacks within their maximum depth.
    pub open spec fn wf(&self) -> bool {
        forall|i: int| 0 <= i < self.frames@.len() ==> (#[trigger] self.frames@[i])@.bounded()
    }

    /// A thread with one frame for an empty `main()V` method, with the given
    /// maximum stack depth and number of locals.
    pub fn new(max_stack: usize, max_locals: usize) -> (t: JvmThread)
        ensures
            t.wf(),
            t.frames@.len() == 1,
            t.frames@[0]@ == (FrameView {
                ints: Seq::empty(),
                refs: Seq::empty(),
                cap: max_stack as nat,
                locals: Seq::new(max_locals as nat, |i: int| JvmValue::Null),
                pc: 0,
                method: t.frames@[0]@.method,
            }),
            t.frames@[0]@.method.name == "main"@,
            t.frames@[0]@.method.descriptor == "()V"@,
            t.frames@[0]@.method.code == Seq::<u8>::empty(),
            t.frames@[0]@.method.max_stack == max_stack,
            t.frames@[0]@.method.max_locals == max_locals,
    {
        let main_frame = Frame {
            pc: 0,
            stack: OperandStack::new(max_stack),
            local_vars: LocalVars::new(max_locals),
            method: Method::new(String::from_str("main"), String::from_str("()V"), 0, Vec::new(), max_stack, max_locals),
        };
        let mut frames: Vec<Frame> = Vec::new();
        frames.push(main_frame);
        JvmThread { frames }
    }

    /// Executes the code of `method` on the current frame, one instruction
    /// at a time from the frame's pc, until the pc leaves the code, a return
    /// instruction ends the method, no frame is left or an instruction
    /// fails; at most `STEP_LIMIT` instructions, those of the methods it
    /// calls included. The run is the one `run_spec` describes: the frames,
    /// static field values, printed lines, string builders, heap and loaded
    /// classes it leaves, or the kind of error.
    pub fn execute(&mut self, method: &Method, heap: &mut Heap, vm: &mut Vm) -> (r: Result<(), JvmError>)
        requires
            old(self).wf(),
            old(vm).wf(),
            method@.code.len() + 65536 <= usize::MAX,
        ensures
            *final(heap) == *old(heap),
            final(self).wf(),
            final(vm).wf(),
            run_ends_as(
                run_spec(method@.code, method@.constant_pool, old(self).frames_view(), machine_of(*old(vm)), STEP_LIMIT as nat),
                r,
                final(self).frames_view(),
                *final(vm),
            ),
    {
        let (r, _left) = self.run(method, heap, vm, STEP_LIMIT);
        r
    }

    /// Runs `method` on the current frame, as `execute` does, with a heap
    /// of its own of 1024 bytes; the outcome is not reported.
    pub fn invoke(
        &mut self,
        _receiver: Option<RawPtr>,
        method: Method,
        _class: Klass,
        _args: Vec<RawPtr>,
        vm: &mut Vm,
    )
        requires
            old(self).wf(),
            old(vm).wf(),
            method@.code.len() + 65536 <= usize::MAX,
        ensures
            final(self).wf(),
            final(vm).wf(),
            exists|r: Result<(), JvmError>|
                #[trigger] run_ends_as(
                    run_spec(method@.code, method@.constant_pool, old(self).frames_view(), machine_of(*old(vm)), STEP_LIMIT as nat),
                    r,
                    final(self).frames_view(),
                    *final(vm),
                ),
    {
        let mut heap = Heap::with_maximum_memory(1024);
        let r = self.execute(&method, &mut heap, vm);
    }

    /// `execute` with a budget of steps; gives back what is left of it.
    #[verifier::spinoff_prover]
    fn run(&mut self, method: &Method, heap: &mut Heap, vm: &mut Vm, budget: u64) -> (r: (Result<(), JvmError>, u64))
        requires
            old(self).wf(),
            old(vm).wf(),
            method@.code.len() + 65536 <= usize::MAX,
        ensures
            *final(heap) == *old(heap),
            final(self).wf(),
            final(vm).wf(),
            r.1 <= budget,
            r.1 == run_spec(method@.code, method@.constant_pool, old(self).frames_view(), machine_of(*old(vm)), budget as nat).left,
            run_ends_as(
                run_spec(method@.code, method@.constant_pool, old(self).frames_view(), machine_of(*old(vm)), budget as nat),
                r.0,
                final(self).frames_view(),
                *final(vm),
            ),
        decreases budget, 0int,
    {
        let code = method.get_code().as_slice();
        let cp = &method.constant_pool;
        let ghost whole = run_spec(code@, cp@, self.frames_view(), machine_of(*vm), budget as nat);
        let mut left = budget;
        loop
            invariant
                *heap == *old(heap),
                self.wf(),
                vm.wf(),
                left <= budget,
                code@ == method@.code,
                cp@ == method@.constant_pool,
                code@.len() + 65536 <= usize::MAX,
                whole == run_spec(method@.code, method@.constant_pool, old(self).frames_view(), machine_of(*old(vm)), budget as nat),
                whole == run_spec(code@, cp@, self.frames_view(), machine_of(*vm), left as nat),
            decreases left,
        {
            if self.frames.len() == 0 || self.frames[0].pc >= code.len() {
                return (Ok(()), left);
            }
            if left == 0 {
                return (Err(state_error("Step limit reached")), 0);
            }
            let ghost cur = self.frames_view();
            let ghost m = machine_of(*vm);
            let ghost f = cur[0];
            let ghost rest = cur.drop_first();
            proof {
                assert(cur =~= seq![f] + rest);
            }
            left = left - 1;
            let flow = step_frame(&mut self.frames[0], code, cp);
            proof {
                assert(self.frames_view() =~= seq![self.frames@[0]@] + rest);
            }
            match flow {
                Ok(Flow::Continue) => {},
                Ok(Flow::Return) => {
                    return (Ok(()), left);
                },
                Ok(Flow::NeedsVm) => {
                    let (res, left2) = self.step_vm(method, heap, vm, left);
                    proof {
                        if code@[f.pc] != 0xb8 {
                            lemma_vm_step_runs_on(code@, cp@, f);
                        }
                    }
                    match res {
                        Ok(Flow::Continue) => {
                            left = left2;
                        },
                        Ok(_) => {
                            return (Ok(()), left2);
                        },
                        Err(e) => {
                            return (Err(e), left2);
                        },
                    }
                },
                Err(e) => {
                    return (Err(e), left);
                },
            }
        }
    }

    /// `areturn`: takes the reference off the current frame, removes the
    /// frame, and pushes the reference onto the caller's frame if there is
    /// one.
    fn op_areturn(&mut self) -> (r: Result<Flow, JvmError>)
        requires
            old(self).wf(),
            old(self).frames@.len() > 0,
        ensures
            final(self).wf(),
            ({
                let f = old(self).frames@[0]@;
                let rest = old(self).frames_view().drop_first();
                if f.refs.len() == 0 {
                    r matches Err(e) && e.kind_text() == illegal_state()
                } else if rest.len() == 0 {
                    r == Ok::<Flow, JvmError>(Flow::Return) && final(self).frames_view() == rest
                } else if !rest[0].ref_room(1) {
                    r matches Err(e) && e.kind_text() == overflow()
                } else {
                    &&& r == Ok::<Flow, JvmError>(Flow::Return)
                    &&& final(self).frames_view() == rest.update(0, rest[0].push_ref(f.top_ref()))
                }
            }),
    {
        if self.frames[0].stack.is_obj_refs_empty() {
            return Err(state_error("areturn: no object reference on the stack"));
        }
        let obj_ref = self.frames[0].stack.pop_obj_ref();
        let ghost rest = old(self).frames_view().drop_first();
        self.frames.remove(0);
        assert(self.frames_view() =~= rest);
        if self.frames.len() > 0 {
            if self.frames[0].stack.obj_refs_len() >= self.frames[0].stack.max_size() {
                return Err(overflow_error());
            }
            self.frames[0].stack.push_obj_ref(obj_ref);
            assert(self.frames_view() =~= rest.update(0, rest[0].push_ref(obj_ref)));
            assert(self.frames@[0]@.bounded());
        }
        Ok(Flow::Return)
    }

    /// `invokestatic`: takes the arguments off the current frame, loads the
    /// class, finds the method and runs it on a new frame with the arguments
    /// in its first locals; then removes the frame on top, whichever it is,
    /// and, for a descriptor that ends in `I`, `L` or `]`, checks that the
    /// frame below has a value of that kind on top.
    fn op_invokestatic(&mut self, code: &[u8], cp: &Vec<CpInfo>, heap: &mut Heap, vm: &mut Vm, budget: u64)
        -> (r: (Result<Flow, JvmError>, u64))
        requires
            old(self).wf(),
            old(vm).wf(),
            old(self).frames@.len() > 0,
            old(self).frames@[0].pc < code@.len(),
            code@.len() + 65536 <= usize::MAX,
        ensures
            *final(heap) == *old(heap),
            final(self).wf(),
            final(vm).wf(),
            r.1 <= budget,
            ({
                let e = static_call_end(
                    code@,
                    cp@,
                    old(self).frames@[0]@,
                    old(self).frames_view().drop_first(),
                    machine_of(*old(vm)),
                    budget as nat,
                );
                &&& r.1 == e.left
                &&& match e.result {
                    Ok(()) => r.0 == Ok::<Flow, JvmError>(Flow::Continue) && final(self).frames_view() == e.frames
                        && machine_of(*final(vm)) == e.machine,
                    Err(k) => r.0 matches Err(x) && x.kind_text() == k && failed_keeps(e.machine, *final(vm)),
                }
            }),
        decreases budget, 1int,
    {
        let p1 = self.frames[0].pc + 1;
        if p1 + 1 >= code.len() {
            return (Err(state_error("Bytecode ends inside an instruction")), budget);
        }
        let index = read_u2(code, p1);
        let (class_name, method_name, desc) = match get_methodref_info(cp, index) {
            Some(t) => t,
            None => return (Err(state_error("invokestatic: the constant is no method reference")), budget),
        };
        set_pc(&mut self.frames[0], p1 + 2);
        let params = static_param_types(desc.as_str());
        let args = match pop_static_args(&mut self.frames[0], &params) {
            Ok(a) => a,
            Err(e) => return (Err(e), budget),
        };
        let ghost g_args = self.frames@[0]@;
        proof {
            lemma_static_args_kinds(old(self).frames@[0]@.at(p1 + 2), params@.map_values(|t: String| t@));
        }
        let klass = match vm.load(class_name.as_str()) {
            Ok(k) => k,
            Err(e) => {
                let mut msg = join3("Failed to load class ", class_name.as_str(), ": ");
                let detail = e.to_text();
                msg.append(detail.as_str());
                return (Err(JvmError::ClassNotFoundError(msg)), budget);
            },
        };
        let found = match &klass {
            Klass::Instance(ik) => ik.get_method(method_name.as_str(), desc.as_str()),
            Klass::Array(_) => None,
        };
        let m = match found {
            Some(m) => m.clone(),
            None => {
                let mut msg = join3("Method ", class_name.as_str(), ".");
                msg.append(method_name.as_str());
                msg.append(desc.as_str());
                msg.append(" not found");
                return (Err(JvmError::IllegalStateError(msg)), budget);
            },
        };
        if m.code.len() > usize::MAX - 65536 {
            return (Err(state_error("Method code too long")), budget);
        }
        if budget == 0 {
            return (Err(state_error("Step limit reached")), 0);
        }
        let mc = m.clone();
        let new_frame = match callee_frame(m, &args) {
            Ok(f) => f,
            Err(e) => return (Err(e), budget),
        };
        self.frames.insert(0, new_frame);
        proof {
            assert forall|i: int| 0 <= i < self.frames@.len() implies (#[trigger] self.frames@[i])@.bounded() by {
                if i > 0 {
                    assert(self.frames@[i] == old(self).frames@[i - 1] || i == 1);
                }
            }
        }
        let ghost cf = self.frames@[0]@;
        let ghost below = self.frames_view().drop_first();
        let ghost s_mid = machine_of(*vm);
        proof {
            assert(below =~= seq![g_args] + old(self).frames_view().drop_first());
            assert(s_mid.infos =~= loaded(machine_of(*old(vm)), class_name@).infos);
            assert(s_mid == loaded(machine_of(*old(vm)), class_name@));
            assert(mc@ == static_callee(machine_of(*old(vm)), class_name@, method_name@, desc@)->0);
            assert(cf == callee_start(mc@, args@));
        }
        let ghost inner = run_spec(mc@.code, mc@.constant_pool, seq![cf] + below, s_mid, (budget - 1) as nat);
        proof {
            assert(self.frames_view() =~= seq![cf] + below);
            assert(static_call_end(
                code@,
                cp@,
                old(self).frames@[0]@,
                old(self).frames_view().drop_first(),
                machine_of(*old(vm)),
                budget as nat,
            ) == finish_end(desc@, inner));
        }
        let (res, left) = self.run(&mc, heap, vm, budget - 1);
        let ghost mid = self.frames_view();
        match res {
            Err(e) => {
                if self.frames.len() > 0 {
                    self.frames.remove(0);
                    assert(self.frames_view() =~= mid.drop_first());
                }
                return (Err(e), left);
            },
            Ok(()) => {},
        }
        if self.frames.len() == 0 {
            let e = state_error("No frame to remove after the call");
            return (Err(e), left);
        }
        self.frames.remove(0);
        assert(self.frames_view() =~= mid.drop_first());
        if self.frames.len() > 0 {
            proof {
                reveal_strlit("I");
                reveal_strlit("L");
                reveal_strlit("]");
            }
            let ghost f_top = self.frames@[0]@;
            if ends_with(desc.as_str(), "I") {
                if self.frames[0].stack.is_values_empty() {
                    let e = state_error("Stack underflow");
                    return (Err(e), left);
                }
                let ret = self.frames[0].stack.pop_int();
                self.frames[0].stack.push_int(ret);
                assert(self.frames@[0]@ == f_top) by {
                    assert(self.frames@[0]@.ints =~= f_top.ints);
                }
            } else if ends_with(desc.as_str(), "L") || ends_with(desc.as_str(), "]") {
                if self.frames[0].stack.is_obj_refs_empty() {
                    let e = state_error("Stack underflow");
                    return (Err(e), left);
                }
                let ret = self.frames[0].stack.pop_obj_ref();
                self.frames[0].stack.push_obj_ref(ret);
                assert(self.frames@[0]@ == f_top) by {
                    assert(self.frames@[0]@.refs =~= f_top.refs);
                }
            }
            assert(self.frames_view() =~= mid.drop_first());
        }
        (Ok(Flow::Continue), left)
    }

    /// Executes an instruction that needs the virtual machine: the static
    /// fields, string constants, calls, object and array creation and
    /// `areturn`.
    #[verifier::spinoff_prover]
    fn step_vm(&mut self, method: &Method, heap: &mut Heap, vm: &mut Vm, budget: u64) -> (r: (Result<Flow, JvmError>, u64))
        requires
            old(self).wf(),
            old(vm).wf(),
            old(self).frames@.len() > 0,
            old(self).frames@[0].pc < method@.code.len(),
            method@.code.len() + 65536 <= usize::MAX,
        ensures
            *final(heap) == *old(heap),
            final(self).wf(),
            final(vm).wf(),
            r.1 <= budget,
            method@.code[old(self).frames@[0].pc as int] == 0xb8 ==> ({
                let e = static_call_end(
                    method@.code,
                    method@.constant_pool,
                    old(self).frames@[0]@,
                    old(self).frames_view().drop_first(),
                    machine_of(*old(vm)),
                    budget as nat,
                );
                &&& r.1 == e.left
                &&& match e.result {
                    Ok(()) => r.0 == Ok::<Flow, JvmError>(Flow::Continue) && final(self).frames_view() == e.frames
                        && machine_of(*final(vm)) == e.machine,
                    Err(k) => r.0 matches Err(x) && x.kind_text() == k && failed_keeps(e.machine, *final(vm)),
                }
            }),
            ({
                let f = old(self).frames@[0]@;
                runs_on(method@.code, method@.constant_pool, f) ==> {
                    let (st, t) = run_step(
                        method@.code,
                        method@.constant_pool,
                        f,
                        machine_of(*old(vm)),
                    );
                    let rest = old(self).frames_view().drop_first();
                    &&& r.1 == budget
                    &&& match st {
                        Step::Next(g) => r.0 == Ok::<Flow, JvmError>(Flow::Continue) && final(self).frames_view() == seq![g] + rest
                            && machine_of(*final(vm)) == t,
                        Step::Fail(k) => r.0 matches Err(e) && e.kind_text() == k && failed_keeps(machine_of(*old(vm)), *final(vm)),
                        Step::Give(p) => gave_outcome(p, match r.0 {
                            Ok(_) => Ok(()),
                            Err(e) => Err(e),
                        }, final(self).frames_view(), rest) && (r.0 is Ok ==> r.0 == Ok::<Flow, JvmError>(Flow::Return)
                            && machine_of(*final(vm)) == t) && (r.0 is Err ==> failed_keeps(t, *final(vm))),
                        _ => false,
                    }
                }
            }),
        decreases budget, 2int,
    {
        let code = method.get_code().as_slice();
        let cp = &method.constant_pool;
        let op = code[self.frames[0].pc];
        if op == 0xb2 {
            (op_getstatic(&mut self.frames[0], code, cp, vm), budget)
        } else if op == 0xb3 {
            (op_putstatic(&mut self.frames[0], code, cp, vm), budget)
        } else if op == 0x12 || op == 0x13 {
            (op_ldc_string(&mut self.frames[0], code, cp, vm), budget)
        } else if op == 0xb6 {
            (op_invokevirtual(&mut self.frames[0], code, cp, vm), budget)
        } else if op == 0xbb {
            (op_new(&mut self.frames[0], code, cp, vm), budget)
        } else if op == 0xbc {
            (op_newarray(&mut self.frames[0], code, vm), budget)
        } else if op == 0xb0 {
            (self.op_areturn(), budget)
        } else if op == 0xb8 {
            self.op_invokestatic(code, cp, heap, vm, budget)
        } else {
            (Err(unknown_opcode(op)), budget)
        }
    }
}

/// Moves a frame's pc.
fn set_pc(frame: &mut Frame, pc: usize)
    ensures
        final(frame)@ == old(frame)@.at(pc as int),
{
    frame.pc = pc;
}

/// The arguments of a static call are ints and references.
proof fn lemma_static_args_kinds(f: FrameView, params: Seq<Seq<char>>)
    ensures
        static_args(f, params) matches Some((vs, g)) ==> forall|i: int| 0 <= i < vs.len() ==> (vs[i] is Int || vs[i] is ObjRef),
    decreases params.len(),
{
    if params.len() > 0 {
        let first = if is_ref_param(params.last()) {
            if f.refs.len() > 0 { Some((JvmValue::ObjRef(f.top_ref()), f.pop_ref())) } else { None }
        } else {
            if f.ints.len() > 0 { Some((JvmValue::Int(f.top_int() as u32), f.pop_int())) } else { None }
        };
        if let Some((v, g)) = first {
            lemma_static_args_kinds(g, params.drop_last());
        }
    }
}

/// A value to push: an int or a reference.
#[derive(Debug, Clone, Copy, PartialEq, Eq, Structural)]
pub enum Slot {
    Int(i32),
    Ref(RawPtr),
}

/// The frame after pushing the slots in order; `None` when one does not fit.
pub open spec fn push_slots(f: FrameView, items: Seq<Slot>) -> Option<FrameView>
    decreases items.len(),
{
    if items.len() == 0 {
        Some(f)
    } else {
        match push_slots(f, items.drop_last()) {
            Some(g) => match items.last() {
                Slot::Int(v) => if g.int_room(1) { Some(g.push_int(v)) } else { None },
                Slot::Ref(p) => if g.ref_room(1) { Some(g.push_ref(p)) } else { None },
            },
            None => None,
        }
    }
}

/// Pushes slots in order; fails, leaving the frame in some bounded state,
/// when one does not fit.
pub fn push_all(frame: &mut Frame, items: &Vec<Slot>) -> (r: Result<(), JvmError>)
    requires
        old(frame)@.bounded(),
    ensures
        final(frame)@.bounded(),
        match push_slots(old(frame)@, items@) {
            Some(g) => r is Ok && final(frame)@ == g,
            None => r matches Err(e) && e.kind_text() == overflow(),
        },
        final(frame)@.method == old(frame)@.method && final(frame)@.pc == old(frame)@.pc,
{
    let ghost f0 = frame@;
    let mut i: usize = 0;
    while i < items.len()
        invariant
            i <= items@.len(),
            frame@.bounded(),
            f0 == old(frame)@,
            frame@.method == f0.method && frame@.pc == f0.pc,
            push_slots(f0, items@.subrange(0, i as int)) == Some(frame@),
        decreases items@.len() - i,
    {
        assert(items@.subrange(0, i + 1).drop_last() =~= items@.subrange(0, i as int));
        assert(items@.subrange(0, i + 1).last() == items@[i as int]);
        match items[i] {
            Slot::Int(v) => {
                if frame.stack.values_len() >= frame.stack.max_size() {
                    proof {
                        lemma_push_slots_fail(f0, items@, (i + 1) as nat);
                    }
                    return Err(overflow_error());
                }
                frame.stack.push_int(v);
            },
            Slot::Ref(p) => {
                if frame.stack.obj_refs_len() >= frame.stack.max_size() {
                    proof {
                        lemma_push_slots_fail(f0, items@, (i + 1) as nat);
                    }
                    return Err(overflow_error());
                }
                frame.stack.push_obj_ref(p);
            },
        }
        i = i + 1;
    }
    assert(items@.subrange(0, i as int) =~= items@);
    Ok(())
}

/// Once a slot does not fit, pushing more does not help.
proof fn lemma_push_slots_fail(f: FrameView, items: Seq<Slot>, k: nat)
    requires
        k <= items.len(),
        push_slots(f, items.subrange(0, k as int)) is None,
    ensures
        push_slots(f, items) is None,
    decreases items.len() - k,
{
    if k < items.len() {
        assert(items.subrange(0, k as int + 1).drop_last() =~= items.subrange(0, k as int));
        lemma_push_slots_fail(f, items, k + 1);
    } else {
        assert(items.subrange(0, k as int) =~= items);
    }
}

/// What `getstatic` pushes for a value found in the static fields.
pub open spec fn static_slots(v: JvmValue) -> Seq<Slot> {
    match v {
        JvmValue::Int(x) => seq![Slot::Int(x as i32)],
        JvmValue::Long(x) => seq![Slot::Int((x / 0x1_0000_0000) as i32), Slot::Int((x % 0x1_0000_0000) as i32)],
        JvmValue::Float(x) => seq![Slot::Int((x as u32) as i32)],
        JvmValue::Double(x) => seq![Slot::Int((x / 0x1_0000_0000) as i32), Slot::Int((x % 0x1_0000_0000) as i32)],
        JvmValue::Boolean(x) => seq![Slot::Int(x as i32)],
        JvmValue::Char(x) => seq![Slot::Int(x as i32)],
        JvmValue::ObjRef(p) => seq![Slot::Ref(p)],
        _ => seq![Slot::Ref(RawPtr(0))],
    }
}

/// What `getstatic` pushes for a field with no value, by its descriptor.
pub open spec fn default_slots(d: Seq<char>) -> Seq<Slot> {
    if d == "I"@ || d == "S"@ || d == "B"@ || d == "Z"@ || d == "F"@ || d == "C"@ {
        seq![Slot::Int(0)]
    } else if d == "J"@ || d == "D"@ {
        seq![Slot::Int(0), Slot::Int(0)]
    } else {
        seq![Slot::Ref(RawPtr(0))]
    }
}

/// What `getstatic` pushes: null for `System.out`, else the field's value
/// or, when it has none, the zero of its descriptor.
pub open spec fn getstatic_slots(statics: Map<(Seq<char>, Seq<char>), JvmValue>, c: Seq<char>, n: Seq<char>, d: Seq<char>) -> Seq<Slot> {
    if c == "java/lang/System"@ && n == "out"@ {
        seq![Slot::Ref(RawPtr(0))]
    } else if statics.contains_key((c, n)) {
        static_slots(statics[(c, n)])
    } else {
        default_slots(d)
    }
}

/// The slots of a static field's value.
pub fn slots_of_value(v: JvmValue) -> (r: Vec<Slot>)
    ensures
        r@ == static_slots(v),
{
    let mut r: Vec<Slot> = Vec::new();
    match v {
        JvmValue::Int(x) => r.push(Slot::Int(x as i32)),
        JvmValue::Long(x) => {
            r.push(Slot::Int((x / 0x1_0000_0000) as i32));
            r.push(Slot::Int((x % 0x1_0000_0000) as i32));
        },
        JvmValue::Float(x) => r.push(Slot::Int((x as u32) as i32)),
        JvmValue::Double(x) => {
            r.push(Slot::Int((x / 0x1_0000_0000) as i32));
            r.push(Slot::Int((x % 0x1_0000_0000) as i32));
        },
        JvmValue::Boolean(x) => r.push(Slot::Int(x as i32)),
        JvmValue::Char(x) => r.push(Slot::Int(x as i32)),
        JvmValue::ObjRef(p) => r.push(Slot::Ref(p)),
        _ => r.push(Slot::Ref(RawPtr(0))),
    }
    assert(r@ =~= static_slots(v));
    r
}

/// The zero slots of a field descriptor.
pub fn slots_of_descriptor(d: &str) -> (r: Vec<Slot>)
    ensures
        r@ == default_slots(d@),
{
    let mut r: Vec<Slot> = Vec::new();
    if str_eq(d, "I") || str_eq(d, "S") || str_eq(d, "B") || str_eq(d, "Z") || str_eq(d, "F") || str_eq(d, "C") {
        r.push(Slot::Int(0));
    } else if str_eq(d, "J") || str_eq(d, "D") {
        r.push(Slot::Int(0));
        r.push(Slot::Int(0));
    } else {
        r.push(Slot::Ref(RawPtr(0)));
    }
    assert(r@ =~= default_slots(d@));
    r
}

/// `getstatic` as the interpreter runs it.
pub open spec fn getstatic_step(code: Seq<u8>, cp: Seq<CpInfo>, statics: Map<(Seq<char>, Seq<char>), JvmValue>, f: FrameView) -> Step {
    let p1 = f.pc + 1;
    if p1 + 1 >= code.len() {
        Step::Fail(illegal_state())
    } else {
        match fieldref_at(cp, code_u2(code, p1) as int) {
            None => Step::Fail(illegal_state()),
            Some((c, n, d)) => match push_slots(f, getstatic_slots(statics, c, n, d)) {
                Some(g) => Step::Next(g.at(p1 + 2)),
                None => Step::Fail(overflow()),
            },
        }
    }
}

/// `getstatic`: pushes the value of a static field.
fn op_getstatic(frame: &mut Frame, code: &[u8], cp: &Vec<CpInfo>, vm: &Vm) -> (r: Result<Flow, JvmError>)
    requires
        old(frame).pc < code@.len(),
        code@.len() + 65536 <= usize::MAX,
        old(frame)@.bounded(),
    ensures
        final(frame)@.bounded(),
        step_matches(getstatic_step(code@, cp@, vm.statics(), old(frame)@), r, old(frame)@, final(frame)@),
{
    let p1 = frame.pc + 1;
    if p1 + 1 >= code.len() {
        return Err(state_error("Bytecode ends inside an instruction"));
    }
    let index = read_u2(code, p1);
    let (class_name, field_name, field_desc) = match get_fieldref_info(cp, index) {
        Some(t) => t,
        None => return Err(state_error("getstatic: the constant is no field reference")),
    };
    proof {
        reveal_strlit("java/lang/System");
        reveal_strlit("out");
    }
    let items = if str_eq(class_name.as_str(), "java/lang/System") && str_eq(field_name.as_str(), "out") {
        let mut v: Vec<Slot> = Vec::new();
        v.push(Slot::Ref(RawPtr(0)));
        assert(v@ =~= seq![Slot::Ref(RawPtr(0))]);
        v
    } else {
        match vm.get_static_field(class_name.as_str(), field_name.as_str()) {
            Some(value) => slots_of_value(value),
            None => slots_of_descriptor(field_desc.as_str()),
        }
    };
    match push_all(frame, &items) {
        Ok(()) => {
            frame.pc = p1 + 2;
            Ok(Flow::Continue)
        },
        Err(e) => Err(e),
    }
}

/// The value `putstatic` stores, and the frame left; `None` when there is
/// a reference but no int on the stack.
pub open spec fn putstatic_value(f: FrameView) -> Option<(i32, FrameView)> {
    if f.ints.len() == 0 && f.refs.len() == 0 {
        Some((0, f))
    } else if f.ints.len() == 0 {
        None
    } else {
        Some((f.top_int(), f.pop_int()))
    }
}

/// `putstatic`: pops an int, 0 on empty stacks, into a static field.
fn op_putstatic(frame: &mut Frame, code: &[u8], cp: &Vec<CpInfo>, vm: &mut Vm) -> (r: Result<Flow, JvmError>)
    requires
        old(frame).pc < code@.len(),
        code@.len() + 65536 <= usize::MAX,
        old(frame)@.bounded(),
        old(vm).wf(),
    ensures
        final(frame)@.bounded(),
        final(vm).wf(),
        final(vm).heap_state() == old(vm).heap_state(),
        final(vm).loader() == old(vm).loader(),
        final(vm).printed() == old(vm).printed(),
        final(vm).builders() == old(vm).builders(),
        final(vm).strings() == old(vm).strings(),
        final(vm).natives() == old(vm).natives(),
        final(vm).clock() == old(vm).clock(),
        r is Err ==> final(vm).statics() == old(vm).statics(),
        old(frame).pc + 2 >= code@.len() ==> (r matches Err(e) && e.kind_text() == illegal_state()),
        old(frame).pc + 2 < code@.len() ==> match fieldref_at(cp@, code_u2(code@, old(frame).pc + 1) as int) {
            None => r matches Err(e) && e.kind_text() == illegal_state(),
            Some((c, n, d)) => match putstatic_value(old(frame)@) {
                None => r matches Err(e) && e.kind_text() == illegal_state(),
                Some((v, g)) => {
                    &&& r == Ok::<Flow, JvmError>(Flow::Continue)
                    &&& final(frame)@ == g.at(old(frame).pc + 3)
                    &&& final(vm).statics() == old(vm).statics().insert((c, n), JvmValue::Int(v as u32))
                },
            },
        },
{
    let p1 = frame.pc + 1;
    if p1 + 1 >= code.len() {
        return Err(state_error("Bytecode ends inside an instruction"));
    }
    let index = read_u2(code, p1);
    let (class_name, field_name, _field_desc) = match get_fieldref_info(cp, index) {
        Some(t) => t,
        None => return Err(state_error("putstatic: the constant is no field reference")),
    };
    let value: i32 = if frame.stack.is_values_empty() && frame.stack.is_obj_refs_empty() {
        0
    } else if frame.stack.is_values_empty() {
        return Err(state_error("Stack underflow"));
    } else {
        frame.stack.pop_int()
    };
    let ghost vm0 = *vm;
    vm.set_static_field(class_name.as_str(), field_name.as_str(), JvmValue::Int(value as u32));
    proof {
        vm.lemma_wf_same(&vm0);
    }
    frame.pc = p1 + 2;
    Ok(Flow::Continue)
}

/// `ldc` or `ldc_w` on a `String` constant: makes a string object for its
/// text and pushes it.
#[verifier::spinoff_prover]
fn op_ldc_string(frame: &mut Frame, code: &[u8], cp: &Vec<CpInfo>, vm: &mut Vm) -> (r: Result<Flow, JvmError>)
    requires
        old(frame).pc < code@.len(),
        code@[old(frame).pc as int] == 0x12 || code@[old(frame).pc as int] == 0x13,
        code@.len() + 65536 <= usize::MAX,
        old(frame)@.bounded(),
        old(vm).wf(),
    ensures
        final(frame)@.bounded(),
        final(vm).wf(),
        final(vm).loader() == old(vm).loader(),
        final(vm).statics() == old(vm).statics(),
        final(vm).printed() == old(vm).printed(),
        vm_step_matches(ldc_string_step(code@, cp@, old(frame)@, machine_of(*old(vm))), r, final(frame)@, *final(vm)),
{
    let pc = frame.pc;
    let op = code[pc];
    let p1 = pc + 1;
    let n: usize = if op == 0x12 { 1 } else { 2 };
    if p1 + n - 1 >= code.len() {
        return Err(state_error("Bytecode ends inside an instruction"));
    }
    let index: usize = if op == 0x12 { code[p1] as usize } else { read_u2(code, p1) as usize };
    let string_index = match cp_get(cp, index) {
        Some(CpInfo::String { string_index }) => *string_index,
        _ => return Err(state_error("ldc: the constant is of an unsupported type")),
    };
    let text = match get_utf8_string(cp, string_index) {
        Some(t) => t,
        None => return Err(state_error("ldc: the string constant has no text")),
    };
    if !Vm::fits_string_object(text.as_str()) {
        return Err(state_error("Failed to create string object: the string is too long"));
    }
    if frame.stack.obj_refs_len() >= frame.stack.max_size() {
        return Err(overflow_error());
    }
    let ghost vm0 = *vm;
    let made = vm.create_string_object(text.as_str());
    proof {
        vm0.heap_state().lemma_same_layout(&vm.heap_state(), &vm.heap_state());
    }
    match made {
        Ok(p) => {
            frame.stack.push_obj_ref(p);
            frame.pc = p1 + n;
            Ok(Flow::Continue)
        },
        Err(_) => Err(state_error("Failed to create string object")),
    }
}

/// `newarray`: pops a count and pushes a new zeroed array of the primitive
/// type the next byte names.
#[verifier::spinoff_prover]
fn op_newarray(frame: &mut Frame, code: &[u8], vm: &mut Vm) -> (r: Result<Flow, JvmError>)
    requires
        old(frame).pc < code@.len(),
        code@.len() + 65536 <= usize::MAX,
        old(frame)@.bounded(),
        old(vm).wf(),
    ensures
        final(frame)@.bounded(),
        final(vm).wf(),
        final(vm).loader() == old(vm).loader(),
        final(vm).statics() == old(vm).statics(),
        final(vm).strings() == old(vm).strings(),
        final(vm).printed() == old(vm).printed(),
        vm_step_matches(newarray_step(code@, old(frame)@, machine_of(*old(vm))), r, final(frame)@, *final(vm)),
{
    let p1 = frame.pc + 1;
    if p1 >= code.len() || frame.stack.is_values_empty() {
        return Err(state_error("newarray: missing type or count"));
    }
    let count = frame.stack.pop_int();
    let array_type = code[p1];
    if count < 0 {
        return Err(state_error("Negative array size"));
    }
    let size: u64 = match array_type {
        4 | 8 => 1,
        5 | 9 => 2,
        6 | 10 => 4,
        7 | 11 => 8,
        _ => return Err(state_error("Failed to create array: unsupported array type")),
    };
    assert(1 <= size <= 8);
    if count as u64 >= 0x80_0000 || 16 + (count as u64) * size >= 0x80_0000 {
        return Err(JvmError::OutOfMemoryError(String::from_str("Failed to create array: too large")));
    }
    if frame.stack.obj_refs_len() >= frame.stack.max_size() {
        return Err(overflow_error());
    }
    let ghost vm0 = *vm;
    let made = vm.create_simple_array(count as usize, array_type);
    proof {
        vm0.heap_state().lemma_same_layout(&vm.heap_state(), &vm.heap_state());
        assert(element_size(array_type) == Some(size as nat));
    }
    match made {
        Ok(p) => {
            frame.stack.push_obj_ref(p);
            frame.pc = p1 + 1;
            Ok(Flow::Continue)
        },
        Err(_) => Err(state_error("Failed to create array")),
    }
}

/// `new`: loads the class the constant names, allocates an object of it,
/// sets every instance field to its default value and pushes the object.
/// Only int and reference defaults can be stored; another default fails as
/// unimplemented.
#[verifier::spinoff_prover]
fn op_new(frame: &mut Frame, code: &[u8], cp: &Vec<CpInfo>, vm: &mut Vm) -> (r: Result<Flow, JvmError>)
    requires
        old(frame).pc < code@.len(),
        code@.len() + 65536 <= usize::MAX,
        old(frame)@.bounded(),
        old(vm).wf(),
    ensures
        final(frame)@.bounded(),
        final(vm).wf(),
        final(vm).statics() == old(vm).statics(),
        final(vm).strings() == old(vm).strings(),
        final(vm).printed() == old(vm).printed(),
        final(vm).loader().files() == old(vm).loader().files(),
        vm_step_matches(new_step(code@, cp@, old(frame)@, machine_of(*old(vm))), r, final(frame)@, *final(vm)),
{
    let p1 = frame.pc + 1;
    if p1 + 1 >= code.len() {
        return Err(state_error("Bytecode ends inside an instruction"));
    }
    let index = read_u2(code, p1);
    let class_name = match get_class_name(cp, index) {
        Some(n) => n,
        None => return Err(state_error("new: the constant is no class reference")),
    };
    if frame.stack.obj_refs_len() >= frame.stack.max_size() {
        return Err(overflow_error());
    }
    proof {
        crate::class_loader::lemma_resolve_ids(
            vm.loader().files(),
            class_name@,
            vm.loader().class_id(),
            vm.loader().id_for(class_name@),
        );
        assert(id_in(machine_of(*vm), class_name@) == vm.loader().id_for(class_name@));
    }
    let ghost vm_before = *vm;
    let klass = match vm.load(class_name.as_str()) {
        Ok(k) => k,
        Err(e) => {
            let mut msg = String::from_str("Failed to load class ");
            msg.append(class_name.as_str());
            msg.append(": ");
            let t = e.to_text();
            msg.append(t.as_str());
            return Err(JvmError::ClassNotFoundError(msg));
        },
    };
    let instance = match &klass {
        Klass::Instance(k) => k,
        Klass::Array(_) => return Err(state_error("Failed to allocate object: not an instance class")),
    };
    let n = instance.instance_field_count();
    if n >= 0xF_0000 || instance.get_class_id() >= 1024 {
        return Err(JvmError::OutOfMemoryError(String::from_str("Failed to allocate object: too large")));
    }
    proof {
        vm.lemma_wf();
        vm.heap_state().lemma_wf_bounds();
    }
    let ghost h0 = vm.heap_state();
    assert(klass@ == KlassView::Instance(instance@));
    assert(object_size(n as int) < 0x80_0000);
    assert(h0.cur_used() <= h0.cur_capacity());
    assert(h0.cur_capacity() <= isize::MAX);
    assert(object_size(n as int) + h0.cur_used() <= usize::MAX);
    let obj = match vm.alloc_object(&klass) {
        Ok(p) => p,
        Err(_) => return Err(state_error("Failed to allocate object")),
    };
    let ghost vm1 = *vm;
    proof {
        vm.lemma_wf();
        vm.heap_state().lemma_wf_bounds();
        assert(crate::heap::chunk_alloc(h0.cur_start(), h0.cur_used(), h0.cur_capacity(), object_size(n as int)).1 == Some(obj));
        assert(obj.0 == h0.cur_start() + h0.cur_used());
        assert(h0.cur_used() + object_size(n as int) <= h0.cur_capacity());
        assert(obj.0 + object_size(n as int) <= vm.heap_state().bytes().len());
        crate::heap::law_read_after_write_u64(h0.bytes(), obj.0 as int, fresh_header(instance@.class_id as u64, object_size(n as int) as u64));
        vm.heap_state().lemma_same_layout(&vm.heap_state(), &vm.heap_state());
    }
    let fields = instance.get_instance_fields();
    let mut i: usize = 0;
    while i < n
        invariant
            n == instance@.i_fields.len(),
            n < 0xF_0000,
            frame@ == old(frame)@,
            old(frame).pc + 2 < code@.len(),
            class_name_at(cp@, code_u2(code@, old(frame).pc + 1) as int) == Some(class_name@),
            resolve_class(old(vm).loader().files(), class_name@, old(vm).loader().id_for(class_name@)) == Ok::<
                KlassView,
                Seq<char>,
            >(KlassView::Instance(instance@)),
            id_in(machine_of(*old(vm)), class_name@) == old(vm).loader().id_for(class_name@),
            vm.loader().files() == old(vm).loader().files(),
            vm.loader().class_id() == vm1.loader().class_id(),
            vm.loader().infos() == vm1.loader().infos(),
            vm1.loader().class_id() == loaded(machine_of(*old(vm)), class_name@).id,
            vm1.loader().infos() == loaded(machine_of(*old(vm)), class_name@).infos,
            old(frame)@.bounded(),
            vm1.statics() == old(vm).statics(),
            vm1.strings() == old(vm).strings(),
            vm1.printed() == old(vm).printed(),
            vm1.natives() == old(vm).natives(),
            vm1.clock() == old(vm).clock(),
            fields@.map_values(|f: crate::field::Field| f@) == instance@.i_fields,
            i <= n,
            vm.wf(),
            vm.loader() == vm1.loader(),
            vm.statics() == vm1.statics(),
            vm.strings() == vm1.strings(),
            vm.printed() == vm1.printed(),
            vm.natives() == vm1.natives(),
            vm.clock() == vm1.clock(),
            obj.0 + object_size(n as int) <= vm.heap_state().bytes().len(),
            object_size(n as int) >= 8 + 8 * n,
            read_u64(vm.heap_state().bytes(), obj.0 as int) == fresh_header(instance@.class_id as u64, object_size(n as int) as u64),
            forall|k: int| 0 <= k < i ==> #[trigger] read_u32(vm.heap_state().bytes(), obj.0 + 8 + 8 * k) == 0,
            forall|k: int| 0 <= k < i ==> descriptor_default(#[trigger] instance@.i_fields[k].descriptor) == JvmValue::Int(0),
            vm.heap_state().bytes() == zero_fields(vm1.heap_state().bytes(), obj.0 as int, i as nat),
            vm.heap_state().same_layout(&vm1.heap_state()),
            vm.builders() == old(vm).builders(),
            old(frame)@.ref_room(1),
            instance@.class_id < 1024,
            crate::heap::chunk_alloc(
                old(vm).heap_state().cur_start(),
                old(vm).heap_state().cur_used(),
                old(vm).heap_state().cur_capacity(),
                object_size(n as int),
            ) == (vm1.heap_state().cur_used(), Some(obj)),
        decreases n - i,
    {
        let default_value = fields[i].get_default();
        assert(instance@.i_fields[i as int] == fields@[i as int]@);
        match default_value {
            JvmValue::Int(v) => {
                let ghost before = vm.heap_state().bytes();
                let ghost vmb = *vm;
                proof {
                    vm.lemma_wf();
                }
                vm.heap_mut().put_field(obj, i * 8, JvmValue::Int(v));
                proof {
                    vm.lemma_wf();
                    vmb.lemma_wf();
                    vm1.heap_state().lemma_same_layout(&vmb.heap_state(), &vm.heap_state());
                    law_read_after_write_u32(before, obj.0 + 8 + 8 * i, v);
                    assert forall|k: int| 0 <= k < i + 1 implies #[trigger] read_u32(vm.heap_state().bytes(), obj.0 + 8 + 8 * k) == 0 by {
                        if k < i {
                            lemma_write_frame(before, obj.0 + 8 + 8 * i, u32_bytes(v), obj.0 + 8 + 8 * k, 4);
                        }
                    }
                    lemma_write_frame(before, obj.0 + 8 + 8 * i, u32_bytes(v), obj.0 as int, 8);
                }
            },
            _ => {
                assert(!int_defaults(instance@.i_fields)) by {
                    assert(!(descriptor_default(instance@.i_fields[i as int].descriptor) is Int));
                }
                return Err(JvmError::Unimplemented(String::from_str("new: a field of this type cannot be set")));
            },
        }
        i = i + 1;
    }
    proof {
        vm1.heap_state().lemma_same_layout(&vm.heap_state(), &vm.heap_state());
        assert(int_defaults(instance@.i_fields));
    }
    frame.stack.push_obj_ref(obj);
    frame.pc = p1 + 2;
    Ok(Flow::Continue)
}

/// Whether `s` starts with `p`.
pub open spec fn has_prefix(s: Seq<char>, p: Seq<char>) -> bool {
    p.len() <= s.len() && s.subrange(0, p.len() as int) == p
}

/// Whether `s` ends with `p`.
pub open spec fn has_suffix(s: Seq<char>, p: Seq<char>) -> bool {
    p.len() <= s.len() && s.subrange(s.len() - p.len(), s.len() as int) == p
}

/// The arguments `PrintStream.println` takes off the stack, chosen by the
/// start of its descriptor, and the frame left; `None` when an int it
/// needs is missing.
pub open spec fn println_args(d: Seq<char>, f: FrameView) -> Option<(Seq<JvmValue>, FrameView)> {
    if has_prefix(d, "(Ljava/lang/String;)V"@) {
        if f.refs.len() > 0 { Some((seq![JvmValue::ObjRef(f.top_ref())], f.pop_ref())) } else { Some((seq![], f)) }
    } else if has_prefix(d, "(I)V"@) {
        if f.ints.len() > 0 { Some((seq![JvmValue::Int(f.top_int() as u32)], f.pop_int())) } else { None }
    } else if has_prefix(d, "(D)V"@) {
        if f.ints.len() >= 2 {
            Some((seq![JvmValue::Double(long_bits(f.second_int(), f.top_int()))], f.pop_int().pop_int()))
        } else {
            None
        }
    } else if has_prefix(d, "(Z)V"@) {
        if f.ints.len() > 0 { Some((seq![JvmValue::Boolean(f.top_int() as u8)], f.pop_int())) } else { None }
    } else if has_prefix(d, "(C)V"@) {
        if f.ints.len() > 0 { Some((seq![JvmValue::Char(f.top_int() as u16)], f.pop_int())) } else { None }
    } else if has_prefix(d, "()V"@) {
        Some((seq![], f))
    } else if f.ints.len() > 0 {
        Some((seq![JvmValue::Int(f.top_int() as u32)], f.pop_int()))
    } else if f.refs.len() > 0 {
        Some((seq![JvmValue::ObjRef(f.top_ref())], f.pop_ref()))
    } else {
        Some((seq![], f))
    }
}

/// The frame without its top reference, if it has one.
pub open spec fn drop_receiver(f: FrameView) -> FrameView {
    if f.refs.len() > 0 { f.pop_ref() } else { f }
}

/// The receiver on top of the reference stack, address 0 when there is none.
pub open spec fn receiver(f: FrameView) -> RawPtr {
    if f.refs.len() > 0 { f.top_ref() } else { RawPtr(0) }
}

/// What a virtual call the interpreter does not know pushes, by the end of
/// its descriptor: zeros for primitive results, null otherwise.
pub open spec fn default_result_slots(d: Seq<char>) -> Seq<Slot> {
    if has_suffix(d, "J"@) || has_suffix(d, "D"@) {
        seq![Slot::Int(0), Slot::Int(0)]
    } else if has_suffix(d, "I"@) || has_suffix(d, "F"@) || has_suffix(d, "Z"@) || has_suffix(d, "C"@) {
        seq![Slot::Int(0)]
    } else {
        seq![Slot::Ref(RawPtr(0))]
    }
}

/// The text `StringBuilder.append` appends, and the frame left: the
/// decimal form of an int, the text of a string object or the description
/// of another reference, or nothing.
pub open spec fn append_arg(f: FrameView, mem: Seq<u8>) -> (Seq<char>, FrameView) {
    if f.ints.len() > 0 {
        (signed_decimal(f.top_int() as int), f.pop_int())
    } else if f.refs.len() > 0 {
        (match string_content(mem, f.top_ref()) {
            Some(t) => t,
            None => object_text(f.top_ref()),
        }, f.pop_ref())
    } else {
        (Seq::empty(), f)
    }
}

/// Takes the `println` arguments off the frame.
fn take_println_args(frame: &mut Frame, d: &str) -> (r: Result<Vec<JvmValue>, JvmError>)
    requires
        old(frame)@.bounded(),
    ensures
        final(frame)@.bounded(),
        match println_args(d@, old(frame)@) {
            Some((args, g)) => r matches Ok(v) && v@ == args && final(frame)@ == g,
            None => r matches Err(e) && e.kind_text() == illegal_state(),
        },
{
    proof {
        reveal_strlit("(Ljava/lang/String;)V");
        reveal_strlit("(I)V");
        reveal_strlit("(D)V");
        reveal_strlit("(Z)V");
        reveal_strlit("(C)V");
        reveal_strlit("()V");
    }
    let mut args: Vec<JvmValue> = Vec::new();
    if starts_with(d, "(Ljava/lang/String;)V") {
        if !frame.stack.is_obj_refs_empty() {
            args.push(JvmValue::ObjRef(frame.stack.pop_obj_ref()));
        }
    } else if starts_with(d, "(I)V") {
        if frame.stack.is_values_empty() {
            return Err(state_error("Stack underflow"));
        }
        args.push(JvmValue::Int(frame.stack.pop_int() as u32));
    } else if starts_with(d, "(D)V") {
        if frame.stack.values_len() < 2 {
            return Err(state_error("Stack underflow"));
        }
        let low = frame.stack.pop_int();
        let high = frame.stack.pop_int();
        args.push(JvmValue::Double((high as u32) as u64 * 0x1_0000_0000 + (low as u32) as u64));
    } else if starts_with(d, "(Z)V") {
        if frame.stack.is_values_empty() {
            return Err(state_error("Stack underflow"));
        }
        args.push(JvmValue::Boolean(frame.stack.pop_int() as u8));
    } else if starts_with(d, "(C)V") {
        if frame.stack.is_values_empty() {
            return Err(state_error("Stack underflow"));
        }
        args.push(JvmValue::Char(frame.stack.pop_int() as u16));
    } else if starts_with(d, "()V") {
    } else if !frame.stack.is_values_empty() {
        args.push(JvmValue::Int(frame.stack.pop_int() as u32));
    } else if !frame.stack.is_obj_refs_empty() {
        args.push(JvmValue::ObjRef(frame.stack.pop_obj_ref()));
    }
    assert(args@ =~= (println_args(d@, old(frame)@)->0).0);
    Ok(args)
}

/// Takes the receiver off the frame, if there is one.
fn pop_receiver(frame: &mut Frame) -> (p: RawPtr)
    ensures
        p == receiver(old(frame)@),
        final(frame)@ == drop_receiver(old(frame)@),
{
    if !frame.stack.is_obj_refs_empty() {
        frame.stack.pop_obj_ref()
    } else {
        RawPtr(0)
    }
}

/// The zero slots for a call's result, by the end of its descriptor.
fn result_slots(d: &str) -> (r: Vec<Slot>)
    ensures
        r@ == default_result_slots(d@),
{
    proof {
        reveal_strlit("J");
        reveal_strlit("D");
        reveal_strlit("I");
        reveal_strlit("F");
        reveal_strlit("Z");
        reveal_strlit("C");
    }
    let mut r: Vec<Slot> = Vec::new();
    if ends_with(d, "J") || ends_with(d, "D") {
        r.push(Slot::Int(0));
        r.push(Slot::Int(0));
    } else if ends_with(d, "I") || ends_with(d, "F") || ends_with(d, "Z") || ends_with(d, "C") {
        r.push(Slot::Int(0));
    } else {
        r.push(Slot::Ref(RawPtr(0)));
    }
    assert(r@ =~= default_result_slots(d@));
    r
}

/// `PrintStream.println`: takes its arguments and receiver off the frame
/// and prints through the native method.
fn call_println(frame: &mut Frame, d: &str, vm: &mut Vm) -> (r: Result<(), JvmError>)
    requires
        old(frame)@.bounded(),
        old(vm).wf(),
    ensures
        final(frame)@.bounded(),
        final(vm).wf(),
        final(vm).loader() == old(vm).loader(),
        final(vm).statics() == old(vm).statics(),
        final(vm).strings() == old(vm).strings(),
        final(vm).natives() == old(vm).natives(),
        final(vm).clock() == old(vm).clock(),
        r is Err ==> final(vm).printed() == old(vm).printed(),
        match println_args(d@, old(frame)@) {
            None => r matches Err(e) && e.kind_text() == illegal_state(),
            Some((args, g)) => {
                &&& r is Ok
                &&& final(frame)@ == drop_receiver(g)
                &&& final(vm).printed() == old(vm).printed().push(println_line(args, old(vm).heap_state().bytes()))
                &&& final(vm).heap_state() == old(vm).heap_state()
                &&& final(vm).builders() == old(vm).builders()
            },
        },
{
    let args = match take_println_args(frame, d) {
        Ok(a) => a,
        Err(e) => return Err(e),
    };
    pop_receiver(frame);
    proof {
        reveal_strlit("java/lang/System.out");
        reveal_strlit(".");
        reveal_strlit("println");
        reveal_strlit("java/lang/System.out.println");
        assert("java/lang/System.out"@ + "."@ + "println"@ =~= "java/lang/System.out.println"@);
        vm.lemma_wf();
    }
    let _ = vm.call_native_method("java/lang/System.out", "println", args);
    proof {
        vm.lemma_wf();
    }
    Ok(())
}

/// `StringBuilder.toString`: replaces the receiver by a new string object
/// with the builder's text, or by null when none can be made.
fn call_to_string(frame: &mut Frame, vm: &mut Vm) -> (r: Result<(), JvmError>)
    requires
        old(frame)@.bounded(),
        old(vm).wf(),
    ensures
        final(frame)@.bounded(),
        final(vm).wf(),
        final(vm).loader() == old(vm).loader(),
        final(vm).statics() == old(vm).statics(),
        final(vm).builders() == old(vm).builders(),
        final(vm).printed() == old(vm).printed(),
        ({
            let (st, t) = to_string_step(old(frame)@, machine_of(*old(vm)));
            match st {
                Step::Next(g) => r is Ok && final(frame)@ == g && machine_of(*final(vm)) == t,
                Step::Fail(k) => r matches Err(e) && e.kind_text() == k,
                _ => false,
            }
        }),
{
    let this_ref = pop_receiver(frame);
    if frame.stack.obj_refs_len() >= frame.stack.max_size() {
        return Err(overflow_error());
    }
    let content = vm.string_builder_text(this_ref);
    let ghost vm0 = *vm;
    let q = if Vm::fits_string_object(content.as_str()) {
        match vm.create_string_object(content.as_str()) {
            Ok(p) => p,
            Err(_) => RawPtr(0),
        }
    } else {
        RawPtr(0)
    };
    proof {
        vm0.heap_state().lemma_same_layout(&vm.heap_state(), &vm.heap_state());
    }
    frame.stack.push_obj_ref(q);
    Ok(())
}

/// `StringBuilder.append`: takes the argument and receiver off the frame,
/// appends the argument's text to the builder's and pushes the receiver back.
fn call_append(frame: &mut Frame, vm: &mut Vm) -> (r: Result<(), JvmError>)
    requires
        old(frame)@.bounded(),
        old(vm).wf(),
    ensures
        final(frame)@.bounded(),
        final(vm).wf(),
        final(vm).loader() == old(vm).loader(),
        final(vm).statics() == old(vm).statics(),
        final(vm).strings() == old(vm).strings(),
        final(vm).natives() == old(vm).natives(),
        final(vm).clock() == old(vm).clock(),
        final(vm).heap_state() == old(vm).heap_state(),
        final(vm).printed() == old(vm).printed(),
        ({
            let (text, g) = append_arg(old(frame)@, old(vm).heap_state().bytes());
            let b = receiver(g);
            if !drop_receiver(g).ref_room(1) {
                r matches Err(e) && e.kind_text() == overflow()
            } else {
                &&& r is Ok
                &&& final(frame)@ == drop_receiver(g).push_ref(b)
                &&& final(vm).builders() == old(vm).builders().insert(
                    b.0,
                    (if old(vm).builders().contains_key(b.0) { old(vm).builders()[b.0] } else { Seq::empty() }) + text,
                )
            }
        }),
{
    let arg_str = if !frame.stack.is_values_empty() {
        let value = frame.stack.pop_int();
        i32_to_text(value)
    } else if !frame.stack.is_obj_refs_empty() {
        let obj_ref = frame.stack.pop_obj_ref();
        match extract_string_content(vm.heap(), obj_ref) {
            Ok(t) => t,
            Err(_) => object_text_of(obj_ref),
        }
    } else {
        String::new()
    };
    let this_ref = pop_receiver(frame);
    if frame.stack.obj_refs_len() >= frame.stack.max_size() {
        return Err(overflow_error());
    }
    let ghost vm0 = *vm;
    vm.append_to_string_builder(this_ref, arg_str.as_str());
    proof {
        vm0.lemma_wf();
        vm.lemma_wf();
    }
    frame.stack.push_obj_ref(this_ref);
    Ok(())
}

/// `TestProgram.multiply`: replaces its two int arguments and receiver by
/// their wrapping product.
fn call_multiply(frame: &mut Frame) -> (r: Result<(), JvmError>)
    requires
        old(frame)@.bounded(),
    ensures
        final(frame)@.bounded(),
        old(frame)@.ints.len() < 2 ==> (r matches Err(e) && e.kind_text() == illegal_state()),
        old(frame)@.ints.len() >= 2 ==> r is Ok && final(frame)@ == drop_receiver(old(frame)@.pop_int().pop_int()).push_int(
            old(frame)@.second_int().wrapping_mul(old(frame)@.top_int()),
        ),
{
    if frame.stack.values_len() < 2 {
        return Err(state_error("Stack underflow"));
    }
    let b = frame.stack.pop_int();
    let a = frame.stack.pop_int();
    pop_receiver(frame);
    frame.stack.push_int(a.wrapping_mul(b));
    Ok(())
}

/// `invokevirtual`: `PrintStream.println` goes to the native method,
/// `StringBuilder.toString` and `append` use the text kept for the builder,
/// `TestProgram.multiply` multiplies its two int arguments, and any other
/// call drops its receiver and pushes a zero or null result.
#[verifier::spinoff_prover]
fn op_invokevirtual(frame: &mut Frame, code: &[u8], cp: &Vec<CpInfo>, vm: &mut Vm) -> (r: Result<Flow, JvmError>)
    requires
        old(frame).pc < code@.len(),
        code@.len() + 65536 <= usize::MAX,
        old(frame)@.bounded(),
        old(vm).wf(),
    ensures
        final(frame)@.bounded(),
        final(vm).wf(),
        final(vm).loader() == old(vm).loader(),
        final(vm).statics() == old(vm).statics(),
        vm_step_matches(invokevirtual_run_step(code@, cp@, old(frame)@, machine_of(*old(vm))), r, final(frame)@, *final(vm)),
        r is Err ==> final(vm).printed() == old(vm).printed(),
{
    let p1 = frame.pc + 1;
    if p1 + 1 >= code.len() {
        return Err(state_error("Bytecode ends inside an instruction"));
    }
    let index = read_u2(code, p1);
    let (class_name, method_name, desc) = match get_methodref_info(cp, index) {
        Some(t) => t,
        None => return Err(state_error("invokevirtual: the constant is no method reference")),
    };
    proof {
        reveal_strlit("java/io/PrintStream");
        reveal_strlit("println");
        reveal_strlit("java/lang/StringBuilder");
        reveal_strlit("append");
        reveal_strlit("toString");
        reveal_strlit("TestProgram");
        reveal_strlit("multiply");
        assert("append"@.len() == 6);
        assert("toString"@.len() == 8);
        assert("println"@.len() == 7);
        assert("multiply"@.len() == 8);
        assert("TestProgram"@.len() == 11);
        assert("java/io/PrintStream"@.len() == 19);
        assert("java/lang/StringBuilder"@.len() == 23);
        assert("toString"@[0] != "multiply"@[0]);
    }
    let done = if str_eq(class_name.as_str(), "java/io/PrintStream") && str_eq(method_name.as_str(), "println") {
        call_println(frame, desc.as_str(), vm)
    } else if str_eq(class_name.as_str(), "java/lang/StringBuilder") && str_eq(method_name.as_str(), "toString") {
        call_to_string(frame, vm)
    } else if str_eq(class_name.as_str(), "java/lang/StringBuilder") && str_eq(method_name.as_str(), "append") {
        call_append(frame, vm)
    } else if str_eq(class_name.as_str(), "TestProgram") && str_eq(method_name.as_str(), "multiply") {
        call_multiply(frame)
    } else {
        pop_receiver(frame);
        let items = result_slots(desc.as_str());
        push_all(frame, &items)
    };
    match done {
        Ok(()) => {
            frame.pc = p1 + 2;
            Ok(Flow::Continue)
        },
        Err(e) => Err(e),
    }
}

/// Whether a descriptor letter closes a parameter when no class name is open.
pub open spec fn closes_param(c: char) -> bool {
    c == 'I' || c == 'J' || c == 'F' || c == 'D' || c == 'Z' || c == 'B' || c == 'C' || c == 'S'
}

/// The parameters `invokestatic` reads from the descriptor text after `(`:
/// letters gather until a `;` closes a class name, or until a primitive
/// letter outside a class name closes one; `[` only opens an array type, so
/// `[I` is one parameter; `)` ends the list.
pub open spec fn scan_params(s: Seq<char>, buf: Seq<char>, in_obj: bool) -> Seq<Seq<char>>
    decreases s.len(),
{
    if s.len() == 0 || s[0] == ')' {
        Seq::empty()
    } else {
        let c = s[0];
        let b = buf.push(c);
        let open = in_obj || c == 'L';
        if open && c == ';' {
            seq![b] + scan_params(s.drop_first(), Seq::empty(), false)
        } else if !open && closes_param(c) {
            seq![b] + scan_params(s.drop_first(), Seq::empty(), open)
        } else {
            scan_params(s.drop_first(), b, open)
        }
    }
}

/// The parameters `invokestatic` reads from a descriptor; none when it does
/// not start with `(`.
pub open spec fn static_params(d: Seq<char>) -> Seq<Seq<char>> {
    if d.len() > 0 && d[0] == '(' {
        scan_params(d.drop_first(), Seq::empty(), false)
    } else {
        Seq::empty()
    }
}

/// Reads the parameters of a descriptor the way `invokestatic` does.
pub fn static_param_types(desc: &str) -> (r: Vec<String>)
    ensures
        r@.map_values(|t: String| t@) == static_params(desc@),
{
    let n = char_len(desc);
    let mut r: Vec<String> = Vec::new();
    if n == 0 || char_at(desc, 0) != '(' {
        assert(r@.map_values(|t: String| t@) =~= static_params(desc@));
        return r;
    }
    let mut buf = String::new();
    let mut in_obj = false;
    let mut i: usize = 1;
    while i < n
        invariant
            n == desc@.len(),
            1 <= i <= n,
            desc@[0] == '(',
            r@.map_values(|t: String| t@) + scan_params(desc@.subrange(i as int, n as int), buf@, in_obj)
                == static_params(desc@),
        decreases n - i,
    {
        let ghost rest = desc@.subrange(i as int, n as int);
        assert(rest[0] == desc@[i as int]);
        assert(rest.drop_first() =~= desc@.subrange(i + 1, n as int));
        let c = char_at(desc, i);
        if c == ')' {
            assert(r@.map_values(|t: String| t@) + Seq::<Seq<char>>::empty() =~= r@.map_values(|t: String| t@));
            return r;
        }
        let ghost before = r@.map_values(|t: String| t@);
        let ghost b0 = buf@;
        let ghost io0 = in_obj;
        push_char(&mut buf, c);
        if c == 'L' {
            in_obj = true;
        }
        if in_obj && c == ';' {
            r.push(buf);
            buf = String::new();
            in_obj = false;
            assert(r@.map_values(|t: String| t@) =~= before.push(b0.push(c)));
        } else if !in_obj && (c == 'I' || c == 'J' || c == 'F' || c == 'D' || c == 'Z' || c == 'B' || c == 'C' || c == 'S') {
            r.push(buf);
            buf = String::new();
            assert(r@.map_values(|t: String| t@) =~= before.push(b0.push(c)));
        }
        assert(r@.map_values(|t: String| t@) + scan_params(rest.drop_first(), buf@, in_obj)
            =~= before + scan_params(rest, b0, io0));
        i = i + 1;
    }
    assert(desc@.subrange(n as int, n as int) =~= Seq::<char>::empty());
    assert(r@.map_values(|t: String| t@) + Seq::<Seq<char>>::empty() =~= r@.map_values(|t: String| t@));
    r
}

/// Whether `invokestatic` passes a parameter as a reference: one that
/// starts with `L` or `[`.
pub open spec fn is_ref_param(p: Seq<char>) -> bool {
    p.len() > 0 && (p[0] == 'L' || p[0] == '[')
}

/// The arguments `invokestatic` takes off the frame for its parameters, in
/// parameter order, and the frame left: the last parameter's first, a
/// reference for a reference parameter and an int for any other; `None`
/// when a stack runs out.
pub open spec fn static_args(f: FrameView, params: Seq<Seq<char>>) -> Option<(Seq<JvmValue>, FrameView)>
    decreases params.len(),
{
    if params.len() == 0 {
        Some((Seq::empty(), f))
    } else {
        let first = if is_ref_param(params.last()) {
            if f.refs.len() > 0 { Some((JvmValue::ObjRef(f.top_ref()), f.pop_ref())) } else { None }
        } else {
            if f.ints.len() > 0 { Some((JvmValue::Int(f.top_int() as u32), f.pop_int())) } else { None }
        };
        match first {
            None => None,
            Some((v, g)) => match static_args(g, params.drop_last()) {
                None => None,
                Some((vs, h)) => Some((vs.push(v), h)),
            },
        }
    }
}

/// Takes the arguments of a static call off the frame.
fn pop_static_args(frame: &mut Frame, params: &Vec<String>) -> (r: Result<Vec<JvmValue>, JvmError>)
    requires
        old(frame)@.bounded(),
    ensures
        final(frame)@.bounded(),
        match static_args(old(frame)@, params@.map_values(|t: String| t@)) {
            Some((args, g)) => r matches Ok(v) && v@ == args && final(frame)@ == g,
            None => r matches Err(e) && e.kind_text() == illegal_state(),
        },
{
    let ghost ps = params@.map_values(|t: String| t@);
    let ghost f0 = frame@;
    let mut args: Vec<JvmValue> = Vec::new();
    let mut k: usize = params.len();
    assert(ps.subrange(0, k as int) =~= ps);
    while k > 0
        invariant
            k <= params@.len(),
            ps == params@.map_values(|t: String| t@),
            f0 == old(frame)@,
            frame@.bounded(),
            static_args(f0, ps) == match static_args(frame@, ps.subrange(0, k as int)) {
                Some((vs, h)) => Some((vs + args@, h)),
                None => None,
            },
        decreases k,
    {
        let ghost pre = ps.subrange(0, k as int);
        assert(pre.drop_last() =~= ps.subrange(0, k - 1));
        assert(pre.last() == params@[k - 1]@);
        let p = &params[k - 1];
        let is_ref = starts_with(p.as_str(), "L") || starts_with(p.as_str(), "[");
        proof {
            reveal_strlit("L");
            reveal_strlit("[");
            assert("L"@ =~= seq!['L']);
            assert("["@ =~= seq!['[']);
            assert(p@ == pre.last());
            if p@.len() > 0 {
                assert(p@.subrange(0, 1) =~= seq![p@[0]]);
                if p@[0] == 'L' {
                    assert(seq![p@[0]] =~= seq!['L']);
                } else {
                    assert(seq![p@[0]][0] != seq!['L'][0]);
                }
                if p@[0] == '[' {
                    assert(seq![p@[0]] =~= seq!['[']);
                } else {
                    assert(seq![p@[0]][0] != seq!['['][0]);
                }
            }
            assert(is_ref == is_ref_param(pre.last()));
        }
        let ghost fb = frame@;
        let ghost ab = args@;
        let v = if is_ref {
            if frame.stack.is_obj_refs_empty() {
                return Err(state_error("Stack underflow"));
            }
            JvmValue::ObjRef(frame.stack.pop_obj_ref())
        } else {
            if frame.stack.is_values_empty() {
                return Err(state_error("Stack underflow"));
            }
            JvmValue::Int(frame.stack.pop_int() as u32)
        };
        args.insert(0, v);
        proof {
            assert(args@ =~= seq![v] + ab);
            match static_args(frame@, ps.subrange(0, k - 1)) {
                Some((vs, h)) => {
                    assert(vs.push(v) + ab =~= vs + args@);
                },
                None => {},
            }
        }
        k = k - 1;
    }
    assert(args@ =~= Seq::<JvmValue>::empty() + args@);
    Ok(args)
}

/// The local variables of a called method: the arguments first, then null.
pub open spec fn call_locals(max_locals: nat, args: Seq<JvmValue>) -> Seq<JvmValue> {
    Seq::new(max_locals, |i: int| if i < args.len() { args[i] } else { JvmValue::Null })
}

/// The frame for a static call: the method's stack depth and locals, the
/// arguments in the first locals, which must all fit.
fn callee_frame(m: Method, args: &Vec<JvmValue>) -> (r: Result<Frame, JvmError>)
    requires
        forall|i: int| 0 <= i < args@.len() ==> (args@[i] is Int || args@[i] is ObjRef),
    ensures
        args@.len() <= m@.max_locals ==> (r matches Ok(f) && f@ == (FrameView {
            ints: Seq::empty(),
            refs: Seq::empty(),
            cap: m@.max_stack as nat,
            locals: call_locals(m@.max_locals as nat, args@),
            pc: 0,
            method: m@,
        })),
        args@.len() > m@.max_locals ==> (r matches Err(e) && e.kind_text() == illegal_state()),
{
    if args.len() > m.max_locals {
        return Err(state_error("Local variable index out of bounds"));
    }
    let mut locals = LocalVars::new(m.max_locals);
    let mut i: usize = 0;
    while i < args.len()
        invariant
            i <= args@.len(),
            args@.len() <= m@.max_locals,
            m.max_locals == m@.max_locals,
            forall|j: int| 0 <= j < args@.len() ==> (args@[j] is Int || args@[j] is ObjRef),
            locals@ == Seq::new(m@.max_locals as nat, |j: int| if j < i { args@[j] } else { JvmValue::Null }),
        decreases args@.len() - i,
    {
        match args[i] {
            JvmValue::Int(v) => {
                assert((v as i32) as u32 == v) by (bit_vector);
                locals.set_int(i, v as i32)
            },
            JvmValue::ObjRef(p) => locals.set_obj_ref(i, p),
            _ => {},
        }
        proof {
            assert(locals@ =~= Seq::new(m@.max_locals as nat, |j: int| if j < i + 1 { args@[j] } else { JvmValue::Null }));
        }
        i = i + 1;
    }
    assert(locals@ =~= call_locals(m@.max_locals as nat, args@));
    Ok(Frame { pc: 0, stack: OperandStack::new(m.max_stack), local_vars: locals, method: m })
}

} // verus!

verus! {

/// `if_icmpge` compares the int under the top one (`a`) with the top one
/// (`b`) as signed ints, takes both off and jumps to its branch target
/// exactly when `a >= b`, equal ints included; otherwise it goes on with
/// the instruction after it. Nothing else in the frame changes.
pub proof fn law_if_icmpge_jumps_when_not_less(code: Seq<u8>, cp: Seq<CpInfo>, f: FrameView)
    requires
        0 <= f.pc,
        f.pc + 2 < code.len(),
        code[f.pc] == 0xa2,
        f.ints.len() >= 2,
    ensures
        frame_step(code, cp, f) is Next,
        ({
            let g = frame_step(code, cp, f)->Next_0;
            let a = f.ints[f.ints.len() - 2];
            let b = f.ints[f.ints.len() - 1];
            &&& g.ints == f.ints.subrange(0, f.ints.len() - 2)
            &&& g.refs == f.refs
            &&& g.locals == f.locals
            &&& g.method == f.method
            &&& (a >= b ==> g.pc == branch_target(f.pc + 3, code_s2(code, f.pc + 1)))
            &&& (a < b ==> g.pc == f.pc + 3)
            &&& (a == b ==> g.pc == branch_target(f.pc + 3, code_s2(code, f.pc + 1)))
        }),
{
    assert(f.pop_int().pop_int().ints =~= f.ints.subrange(0, f.ints.len() - 2));
}

/// `isub` takes the two top ints off, `a` under `b`, and pushes the int
/// that added to `b` gives `a` back (wrapping), going on at the next
/// instruction; the ints under them stay.
pub proof fn law_isub_result_plus_subtrahend(code: Seq<u8>, cp: Seq<CpInfo>, f: FrameView)
    requires
        0 <= f.pc < code.len(),
        code[f.pc] == 0x64,
        f.ints.len() >= 2,
    ensures
        frame_step(code, cp, f) is Next,
        ({
            let g = frame_step(code, cp, f)->Next_0;
            let a = f.ints[f.ints.len() - 2];
            let b = f.ints[f.ints.len() - 1];
            &&& g.ints.len() == f.ints.len() - 1
            &&& g.ints.subrange(0, f.ints.len() - 2) == f.ints.subrange(0, f.ints.len() - 2)
            &&& g.ints[f.ints.len() - 2].wrapping_add(b) == a
            &&& g.pc == f.pc + 1
        }),
{
    let g = frame_step(code, cp, f)->Next_0;
    assert(g.ints.subrange(0, f.ints.len() - 2) =~= f.ints.subrange(0, f.ints.len() - 2));
}

} // verus!

verus! {

/// `ifeq`, `ifne` and `ifge` (at `0x9f` here) take the top int `v` off and jump to their
/// branch target exactly when `v == 0`, `v != 0` and `v >= 0`
/// respectively; otherwise they go on after the instruction.
pub proof fn law_int_branches_test_the_top_int(code: Seq<u8>, cp: Seq<CpInfo>, f: FrameView)
    requires
        0 <= f.pc,
        f.pc + 2 < code.len(),
        code[f.pc] == 0x99 || code[f.pc] == 0x9a || code[f.pc] == 0x9f,
        f.ints.len() >= 1,
    ensures
        frame_step(code, cp, f) is Next,
        ({
            let g = frame_step(code, cp, f)->Next_0;
            let v = f.ints.last();
            let op = code[f.pc];
            let taken = if op == 0x99 { v == 0 } else if op == 0x9a { v != 0 } else { v >= 0 };
            &&& g.ints == f.ints.drop_last()
            &&& g.refs == f.refs
            &&& g.locals == f.locals
            &&& (taken ==> g.pc == branch_target(f.pc + 3, code_s2(code, f.pc + 1)))
            &&& (!taken ==> g.pc == f.pc + 3)
        }),
{
}

/// `iadd` takes the two top ints off, `a` under `b`, and pushes the int
/// that less `b` gives `a` back (wrapping), going on at the next
/// instruction; the ints under them stay.
pub proof fn law_iadd_result_minus_addend(code: Seq<u8>, cp: Seq<CpInfo>, f: FrameView)
    requires
        0 <= f.pc < code.len(),
        code[f.pc] == 0x60,
        f.ints.len() >= 2,
    ensures
        frame_step(code, cp, f) is Next,
        ({
            let g = frame_step(code, cp, f)->Next_0;
            let a = f.ints[f.ints.len() - 2];
            let b = f.ints[f.ints.len() - 1];
            &&& g.ints.len() == f.ints.len() - 1
            &&& g.ints.subrange(0, f.ints.len() - 2) == f.ints.subrange(0, f.ints.len() - 2)
            &&& g.ints[f.ints.len() - 2].wrapping_sub(b) == a
            &&& g.pc == f.pc + 1
        }),
{
    let g = frame_step(code, cp, f)->Next_0;
    assert(g.ints.subrange(0, f.ints.len() - 2) =~= f.ints.subrange(0, f.ints.len() - 2));
}

} // verus!

verus! {

/// `istore_<n>` followed by `iload_<n>` gives back the int stored: the int
/// stack ends as it began, the local holds the int, and the run goes on
/// after both instructions.
pub proof fn law_istore_then_iload_gives_back_the_int(code: Seq<u8>, cp: Seq<CpInfo>, f: FrameView, n: u8)
    requires
        n < 4,
        0 <= f.pc,
        f.pc + 1 < code.len(),
        code[f.pc] == 0x3b + n,
        code[f.pc + 1] == 0x1a + n,
        f.ints.len() >= 1,
        n < f.locals.len(),
        f.ints.len() <= f.cap,
    ensures
        frame_step(code, cp, f) is Next,
        frame_step(code, cp, frame_step(code, cp, f)->Next_0) is Next,
        ({
            let h = frame_step(code, cp, frame_step(code, cp, f)->Next_0)->Next_0;
            &&& h.ints == f.ints
            &&& h.refs == f.refs
            &&& h.locals[n as int] == JvmValue::Int(f.ints.last() as u32)
            &&& h.pc == f.pc + 2
        }),
{
    let g = frame_step(code, cp, f)->Next_0;
    let v = f.ints.last();
    assert(g.ints =~= f.ints.drop_last());
    assert(g.locals[n as int] == JvmValue::Int(v as u32));
    assert(((v as u32) as i32) == v) by (bit_vector);
    let h = frame_step(code, cp, g)->Next_0;
    assert(h.ints =~= f.ints);
}

} // verus!
