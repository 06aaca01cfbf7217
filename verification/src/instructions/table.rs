use vstd::prelude::*;
use crate::JvmValue;
use crate::jvm_thread::{FrameView, code_s1, code_s2, code_u2, branch_target, java_div};
use crate::classfile::{CpInfo, cp_entry, methodref_at};
use crate::local_vars::{int_slot, ref_slot};

verus! {

/// What one instruction of a dispatched method does, the frame's pc at its
/// opcode, when it needs nothing but the frame.
pub ghost enum TableStep {
    /// It goes on with this frame.
    Next(FrameView),
    /// It ends the method, handing back this value, if any.
    Return(Option<JvmValue>),
    /// It fails.
    Fail,
    /// It needs the virtual machine or the heap; `table_run` stops there.
    Vm,
}

/// Pushing an int when there is room, and moving on to `pc`.
pub open spec fn push_or_fail(f: FrameView, v: i32, pc: int) -> TableStep {
    if f.int_room(1) {
        TableStep::Next(f.push_int(v).at(pc))
    } else {
        TableStep::Fail
    }
}

/// Whether the instruction needs more than the frame and its constant pool.
pub open spec fn needs_vm(op: u8) -> bool {
    op == 0xb2 || op == 0xb3 || op == 0xb4 || op == 0xb5 || op == 0xb7 || op == 0xb8 || op == 0xbb || op == 0xbc
}

/// `ldc`, `ldc_w` (`width` 1 or 2) and `ldc2_w` on the constant at `index`
/// of the frame's constant pool, `next` being where the next instruction
/// starts: an `Integer` or `Float` pushes its bits, a `Long` or `Double`
/// (for `ldc2_w`) its high then its low half; a `String` needs the virtual
/// machine; anything else, a missing constant or a full stack fails.
pub open spec fn ldc_table_step(f: FrameView, index: int, wide: bool, next: int) -> TableStep {
    if index == 0 || index > f.method.constant_pool.len() {
        TableStep::Fail
    } else if wide {
        if !f.int_room(2) {
            TableStep::Fail
        } else {
            match cp_entry(f.method.constant_pool, index) {
                Some(CpInfo::Long { high_bytes, low_bytes }) => TableStep::Next(
                    f.push_int(high_bytes as i32).push_int(low_bytes as i32).at(next),
                ),
                Some(CpInfo::Double { high_bytes, low_bytes }) => TableStep::Next(
                    f.push_int(high_bytes as i32).push_int(low_bytes as i32).at(next),
                ),
                _ => TableStep::Fail,
            }
        }
    } else {
        match cp_entry(f.method.constant_pool, index) {
            Some(CpInfo::Integer { bytes }) => push_or_fail(f, bytes as i32, next),
            Some(CpInfo::Float { bytes }) => push_or_fail(f, bytes as i32, next),
            Some(CpInfo::String { string_index }) => if f.ref_room(1) { TableStep::Vm } else { TableStep::Fail },
            _ => TableStep::Fail,
        }
    }
}

/// One instruction of the table a dispatched method runs with. What the
/// instruction would need and does not find (a stack value, room, the rest
/// of the instruction, a local of the right kind, a non-zero divisor)
/// makes it fail, as does an opcode the table does not have.
pub open spec fn table_step(code: Seq<u8>, f: FrameView) -> TableStep {
    let pc = f.pc;
    let op = code[pc];
    let p1 = pc + 1;
    let n = code.len();
    if op == 0xac {
        TableStep::Return(if f.ints.len() > 0 { Some(JvmValue::Int(f.top_int() as u32)) } else { None })
    } else if op == 0xad || op == 0xae || op == 0xaf || op == 0xb1 {
        TableStep::Return(None)
    } else if op == 0xb0 {
        TableStep::Return(if f.refs.len() > 0 { Some(JvmValue::ObjRef(f.top_ref())) } else { None })
    } else if op == 0x00 {
        TableStep::Next(f.at(p1))
    } else if op == 0x01 {
        push_or_fail(f, 0, p1)
    } else if 0x02 <= op && op <= 0x08 {
        push_or_fail(f, (op - 3) as i32, p1)
    } else if op == 0x10 {
        if p1 < n { push_or_fail(f, code_s1(code, p1), p1 + 1) } else { TableStep::Fail }
    } else if op == 0x11 {
        if p1 + 1 < n { push_or_fail(f, code_s2(code, p1), p1 + 2) } else { TableStep::Fail }
    } else if op == 0x15 || (0x1a <= op && op <= 0x1d) {
        if op == 0x15 && p1 >= n {
            TableStep::Fail
        } else {
            let index: int = if op == 0x15 { code[p1] as int } else { op - 0x1a };
            let next: int = if op == 0x15 { p1 + 1 } else { p1 };
            match int_slot(f.locals, index) {
                Some(v) => push_or_fail(f, v, next),
                None => TableStep::Fail,
            }
        }
    } else if 0x2a <= op && op <= 0x2d {
        match ref_slot(f.locals, op - 0x2a) {
            Some(p) => if f.ref_room(1) { TableStep::Next(f.push_ref(p).at(p1)) } else { TableStep::Fail },
            None => TableStep::Fail,
        }
    } else if op == 0x36 || (0x3b <= op && op <= 0x42) {
        if op == 0x36 && p1 >= n {
            TableStep::Fail
        } else {
            let index: int = if op == 0x36 {
                code[p1] as int
            } else if op <= 0x3e {
                op - 0x3b
            } else {
                op - 0x3f
            };
            let next: int = if op == 0x36 { p1 + 1 } else { p1 };
            if f.ints.len() == 0 || index >= f.locals.len() {
                TableStep::Fail
            } else {
                TableStep::Next(f.pop_int().set_local(index, JvmValue::Int(f.top_int() as u32)).at(next))
            }
        }
    } else if 0x4b <= op && op <= 0x4e {
        let index: int = op - 0x4b;
        if f.refs.len() == 0 || index >= f.locals.len() {
            TableStep::Fail
        } else {
            TableStep::Next(f.pop_ref().set_local(index, JvmValue::ObjRef(f.top_ref())).at(p1))
        }
    } else if op == 0x59 {
        if f.refs.len() > 0 {
            if f.ref_room(1) { TableStep::Next(f.push_ref(f.top_ref()).at(p1)) } else { TableStep::Fail }
        } else if f.ints.len() > 0 {
            if f.int_room(1) { TableStep::Next(f.push_int(f.top_int()).at(p1)) } else { TableStep::Fail }
        } else {
            TableStep::Fail
        }
    } else if op == 0x60 || op == 0x64 || op == 0x68 || op == 0x6c {
        if f.ints.len() < 2 {
            TableStep::Fail
        } else {
            let a = f.second_int();
            let b = f.top_int();
            let g = f.pop_int().pop_int();
            if op == 0x60 {
                TableStep::Next(g.push_int(a.wrapping_add(b)).at(p1))
            } else if op == 0x64 {
                TableStep::Next(g.push_int(a.wrapping_sub(b)).at(p1))
            } else if op == 0x68 {
                TableStep::Next(g.push_int(a.wrapping_mul(b)).at(p1))
            } else if b == 0 {
                TableStep::Fail
            } else {
                TableStep::Next(g.push_int(java_div(a, b)).at(p1))
            }
        }
    } else if op == 0x84 {
        if p1 + 1 >= n {
            TableStep::Fail
        } else {
            match int_slot(f.locals, code[p1] as int) {
                Some(v) => TableStep::Next(
                    f.set_local(code[p1] as int, JvmValue::Int(v.wrapping_add(code_s1(code, p1 + 1)) as u32)).at(p1 + 2),
                ),
                None => TableStep::Fail,
            }
        }
    } else if op == 0xa7 {
        if p1 + 1 >= n { TableStep::Fail } else { TableStep::Next(f.at(branch_target(p1 + 2, code_s2(code, p1)))) }
    } else if op == 0x99 || op == 0x9a || op == 0x9f {
        if p1 + 1 >= n || f.ints.len() == 0 {
            TableStep::Fail
        } else {
            let v = f.top_int();
            let taken = if op == 0x99 { v == 0 } else if op == 0x9a { v != 0 } else { v >= 0 };
            TableStep::Next(f.pop_int().at(if taken { branch_target(p1 + 2, code_s2(code, p1)) } else { p1 + 2 }))
        }
    } else if op == 0xa2 {
        if p1 + 1 >= n || f.ints.len() < 2 {
            TableStep::Fail
        } else {
            TableStep::Next(
                f.pop_int().pop_int().at(
                    if f.second_int() >= f.top_int() { branch_target(p1 + 2, code_s2(code, p1)) } else { p1 + 2 },
                ),
            )
        }
    } else if op == 0x12 {
        if p1 >= n { TableStep::Fail } else { ldc_table_step(f, code[p1] as int, false, p1 + 1) }
    } else if op == 0x13 || op == 0x14 {
        if p1 + 1 >= n { TableStep::Fail } else { ldc_table_step(f, code_u2(code, p1) as int, op == 0x14, p1 + 2) }
    } else if op == 0xb6 {
        if p1 + 1 >= n || methodref_at(f.method.constant_pool, code_u2(code, p1) as int) is None {
            TableStep::Fail
        } else {
            TableStep::Next(f.at(p1 + 2))
        }
    } else if op == 0xbe {
        if f.refs.len() == 0 || !f.int_room(1) || f.top_ref().0 == 0 {
            TableStep::Fail
        } else {
            TableStep::Next(f.pop_ref().push_int(10).at(p1))
        }
    } else if op == 0x4f {
        if f.ints.len() < 2 || f.refs.len() == 0 || f.top_ref().0 == 0 || f.second_int() < 0 {
            TableStep::Fail
        } else {
            TableStep::Next(f.pop_int().pop_int().pop_ref().at(p1))
        }
    } else if op == 0x2e {
        if f.ints.len() == 0 || f.refs.len() == 0 || f.top_ref().0 == 0 || f.top_int() < 0 {
            TableStep::Fail
        } else {
            TableStep::Next(f.pop_int().pop_ref().push_int(0).at(p1))
        }
    } else if needs_vm(op) {
        TableStep::Vm
    } else {
        TableStep::Fail
    }
}

/// How a dispatched method's run ends.
pub ghost enum TableRun {
    /// It returned (or ran off the end of its code) with this value.
    Finished(Option<JvmValue>),
    /// It was still running when its steps ran out.
    Limit,
    /// An instruction failed.
    Failed,
    /// An instruction needed more than the frame.
    Escaped,
}

/// The end of a run from frame `f` with `fuel` steps left: no step left is
/// the limit, whether or not the code has ended; a pc outside the code ends
/// the run with no value; a return that uses up the last step is the limit
/// too.
pub open spec fn table_run(code: Seq<u8>, f: FrameView, fuel: nat) -> TableRun
    decreases fuel,
{
    if fuel == 0 {
        TableRun::Limit
    } else if !(0 <= f.pc < code.len()) {
        TableRun::Finished(None)
    } else {
        match table_step(code, f) {
            TableStep::Return(v) => if fuel == 1 { TableRun::Limit } else { TableRun::Finished(v) },
            TableStep::Next(g) => table_run(code, g, (fuel - 1) as nat),
            TableStep::Fail => TableRun::Failed,
            TableStep::Vm => TableRun::Escaped,
        }
    }
}

} // verus!

verus! {

/// In a dispatched method, `isub` takes the two top ints off, `a` under
/// `b`, and pushes the int that added to `b` gives `a` back (wrapping),
/// going on at the next instruction; the ints under them stay.
pub proof fn law_table_isub_result_plus_subtrahend(code: Seq<u8>, f: FrameView)
    requires
        0 <= f.pc < code.len(),
        code[f.pc] == 0x64,
        f.ints.len() >= 2,
    ensures
        table_step(code, f) is Next,
        ({
            let g = table_step(code, f)->Next_0;
            let a = f.ints[f.ints.len() - 2];
            let b = f.ints[f.ints.len() - 1];
            &&& g.ints.len() == f.ints.len() - 1
            &&& g.ints.subrange(0, f.ints.len() - 2) == f.ints.subrange(0, f.ints.len() - 2)
            &&& g.ints[f.ints.len() - 2].wrapping_add(b) == a
            &&& g.refs == f.refs
            &&& g.locals == f.locals
            &&& g.pc == f.pc + 1
        }),
{
    let g = table_step(code, f)->Next_0;
    assert(g.ints.subrange(0, f.ints.len() - 2) =~= f.ints.subrange(0, f.ints.len() - 2));
}

/// In a dispatched method, `if_icmpge` takes the two top ints off and
/// jumps to its branch target exactly when the lower one is at least the
/// top one, equal ints included; otherwise it goes on after it.
pub proof fn law_table_if_icmpge_jumps_when_not_less(code: Seq<u8>, f: FrameView)
    requires
        0 <= f.pc,
        f.pc + 2 < code.len(),
        code[f.pc] == 0xa2,
        f.ints.len() >= 2,
    ensures
        table_step(code, f) is Next,
        ({
            let g = table_step(code, f)->Next_0;
            let a = f.ints[f.ints.len() - 2];
            let b = f.ints[f.ints.len() - 1];
            &&& g.ints == f.ints.subrange(0, f.ints.len() - 2)
            &&& g.refs == f.refs
            &&& g.locals == f.locals
            &&& (a >= b ==> g.pc == branch_target(f.pc + 3, code_s2(code, f.pc + 1)))
            &&& (a < b ==> g.pc == f.pc + 3)
        }),
{
    assert(f.pop_int().pop_int().ints =~= f.ints.subrange(0, f.ints.len() - 2));
}

} // verus!

verus! {

/// In a dispatched method, `ifeq`, `ifne` and `ifge` take the top int `v`
/// off and jump to their branch target exactly when `v == 0`, `v != 0` and
/// `v >= 0` respectively; otherwise they go on after the instruction.
pub proof fn law_table_int_branches_test_the_top_int(code: Seq<u8>, f: FrameView)
    requires
        0 <= f.pc,
        f.pc + 2 < code.len(),
        code[f.pc] == 0x99 || code[f.pc] == 0x9a || code[f.pc] == 0x9f,
        f.ints.len() >= 1,
    ensures
        table_step(code, f) is Next,
        ({
            let g = table_step(code, f)->Next_0;
            let v = f.ints.last();
            let op = code[f.pc];
            let taken = if op == 0x99 { v == 0 } else if op == 0x9a { v != 0 } else { v >= 0 };
            &&& g.ints == f.ints.drop_last()
            &&& g.refs == f.refs
            &&& g.locals == f.locals
            &&& (taken ==> g.pc == branch_target(f.pc + 3, code_s2(code, f.pc + 1)))
            &&& (!taken ==> g.pc == f.pc + 3)
        }),
{
}

/// In a dispatched method, `iadd` takes the two top ints off, `a` under
/// `b`, and pushes the int that less `b` gives `a` back (wrapping); the ints
/// under them stay.
pub proof fn law_table_iadd_result_minus_addend(code: Seq<u8>, f: FrameView)
    requires
        0 <= f.pc < code.len(),
        code[f.pc] == 0x60,
        f.ints.len() >= 2,
    ensures
        table_step(code, f) is Next,
        ({
            let g = table_step(code, f)->Next_0;
            let a = f.ints[f.ints.len() - 2];
            let b = f.ints[f.ints.len() - 1];
            &&& g.ints.len() == f.ints.len() - 1
            &&& g.ints.subrange(0, f.ints.len() - 2) == f.ints.subrange(0, f.ints.len() - 2)
            &&& g.ints[f.ints.len() - 2].wrapping_sub(b) == a
            &&& g.pc == f.pc + 1
        }),
{
    let g = table_step(code, f)->Next_0;
    assert(g.ints.subrange(0, f.ints.len() - 2) =~= f.ints.subrange(0, f.ints.len() - 2));
}

} // verus!

verus! {

/// In a dispatched method, `istore_<n>` followed by `iload_<n>` gives back
/// the int stored: the int stack ends as it began, the local holds the
/// int, and the run goes on after both instructions.
pub proof fn law_table_istore_then_iload_gives_back_the_int(code: Seq<u8>, f: FrameView, n: u8)
    requires
        n < 4,
        0 <= f.pc,
        f.pc + 1 < code.len(),
        code[f.pc] == 0x3b + n,
        code[f.pc + 1] == 0x1a + n,
        f.ints.len() >= 1,
        n < f.locals.len(),
        f.ints.len() <= f.cap,
    ensures
        table_step(code, f) is Next,
        table_step(code, table_step(code, f)->Next_0) is Next,
        ({
            let h = table_step(code, table_step(code, f)->Next_0)->Next_0;
            &&& h.ints == f.ints
            &&& h.refs == f.refs
            &&& h.locals[n as int] == JvmValue::Int(f.ints.last() as u32)
            &&& h.pc == f.pc + 2
        }),
{
    let g = table_step(code, f)->Next_0;
    let v = f.ints.last();
    assert(g.ints =~= f.ints.drop_last());
    assert(g.locals[n as int] == JvmValue::Int(v as u32));
    assert(((v as u32) as i32) == v) by (bit_vector);
    let h = table_step(code, g)->Next_0;
    assert(h.ints =~= f.ints);
}

} // verus!
