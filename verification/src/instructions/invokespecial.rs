use vstd::prelude::*;
use crate::JvmValue;
use crate::error::JvmError;
use crate::heap::RawPtr;
use crate::classfile::{methodref_at, get_methodref_info};
use crate::instructions::invokestatic::{finish_call, call_answered};
use crate::instructions::method_utils::{
    parse_method_descriptor, pop_arguments, lemma_pop_args_shrinks, pop_args, descriptor_params,
};
use crate::jvm_thread::{Frame, FrameView, code_u2, read_u2, drop_receiver, receiver};
use crate::text::str_eq;
use crate::vm::{Vm, CALL_DEPTH, DispatchRel, dispatch_outcome, call_allowed, calls_below};

verus! {

/// `invokespecial` with the method reference whose index follows: takes
/// the arguments and then the receiver (null when there is none) off the
/// frame. A constructor runs on the receiver, which is pushed back; any
/// other call is answered as `invokestatic` answers it.
pub fn exec_invokespecial(frame: &mut Frame, code: &[u8], vm: &mut Vm) -> (r: Result<(), JvmError>)
    requires
        old(frame).pc + 1 < code@.len(),
        old(frame)@.bounded(),
        old(vm).wf(),
    ensures
        final(frame)@.bounded(),
        final(vm).wf(),
        match methodref_at(old(frame)@.method.constant_pool, code_u2(code@, old(frame).pc as int) as int) {
            None => r matches Err(e) && e is IllegalStateError,
            Some((c, n, d)) => {
                let (args, f) = pop_args(old(frame)@.at(old(frame).pc + 2), descriptor_params(d));
                if n == "<init>"@ {
                    init_answered(*old(vm), *final(vm), f, final(frame)@, c, d, args, CALL_DEPTH as int, r)
                } else {
                    call_answered(*old(vm), *final(vm), drop_receiver(f), final(frame)@, c, n, d, args, CALL_DEPTH as int, r)
                }
            },
        },
{
    invoke_special_within(frame, code, vm, CALL_DEPTH)
}

/// `exec_invokespecial` with at most `depth` nested calls.
pub fn invoke_special_within(frame: &mut Frame, code: &[u8], vm: &mut Vm, depth: u64) -> (r: Result<(), JvmError>)
    requires
        old(frame).pc + 1 < code@.len(),
        old(frame)@.bounded(),
        old(vm).wf(),
    ensures
        r is Ok ==> final(frame)@.method == old(frame)@.method && final(frame)@.pc == old(frame).pc + 2,
        final(frame)@.bounded(),
        final(vm).wf(),
        match methodref_at(old(frame)@.method.constant_pool, code_u2(code@, old(frame).pc as int) as int) {
            None => r matches Err(e) && e is IllegalStateError,
            Some((c, n, d)) => {
                let (args, f) = pop_args(old(frame)@.at(old(frame).pc + 2), descriptor_params(d));
                if n == "<init>"@ {
                    init_answered(*old(vm), *final(vm), f, final(frame)@, c, d, args, depth as int, r)
                } else {
                    call_answered(*old(vm), *final(vm), drop_receiver(f), final(frame)@, c, n, d, args, depth as int, r)
                }
            },
        },
    decreases depth, 1int,
{
    let index = read_u2(code, frame.pc);
    frame.pc = frame.pc + 2;
    let (class_name, method_name, method_desc) = match get_methodref_info(&frame.method.constant_pool, index) {
        Some(t) => t,
        None => return Err(JvmError::IllegalStateError(String::from_str("invokespecial: the constant is no method reference"))),
    };
    let params = parse_method_descriptor(method_desc.as_str());
    proof {
        lemma_pop_args_shrinks(frame@, params@.map_values(|t: String| t@));
    }
    let args = pop_arguments(frame, params.as_slice());
    let ghost popped = pop_args(old(frame)@.at(old(frame).pc + 2), descriptor_params(method_desc@));
    assert(args@ == popped.0 && frame@ == popped.1);
    let this_ref = if !frame.stack.is_obj_refs_empty() { frame.stack.pop_obj_ref() } else { RawPtr(0) };
    assert(this_ref == receiver(popped.1) && frame@ == drop_receiver(popped.1));
    proof {
        reveal_strlit("<init>");
    }
    if str_eq(method_name.as_str(), "<init>") {
        let ghost args0 = args@;
        let answer = execute_constructor(vm, class_name.as_str(), method_desc.as_str(), this_ref, args, depth);
        assert(constructor_answered(*old(vm), *vm, class_name@, method_desc@, receiver(popped.1), popped.0, depth as int, answer));
        match answer {
            Ok(()) => {},
            Err(e) => {
                assert(init_answered(*old(vm), *vm, popped.1, frame@, class_name@, method_desc@, popped.0, depth as int, Err(e)));
                return Err(e);
            },
        }
        if frame.stack.obj_refs_len() >= frame.stack.max_size() {
            let e = JvmError::StackOverflowError(String::from_str("Stack overflow"));
            assert(init_answered(*old(vm), *vm, popped.1, frame@, class_name@, method_desc@, popped.0, depth as int, Err(e)));
            return Err(e);
        }
        frame.stack.push_obj_ref(this_ref);
        assert(init_answered(*old(vm), *vm, popped.1, frame@, class_name@, method_desc@, popped.0, depth as int, Ok(())));
        return Ok(());
    }
    finish_call(frame, vm, class_name.as_str(), method_name.as_str(), method_desc.as_str(), args, depth)
}

/// What running the constructor of class `c` with descriptor `d` on
/// `this` comes to, as `r`, with at most `depth` nested calls: nothing with
/// no depth left, else the call dispatched with the receiver first among
/// the arguments, the value it returns set aside.
pub open spec fn constructor_with(
    vm: Vm,
    vm1: Vm,
    c: Seq<char>,
    d: Seq<char>,
    this: RawPtr,
    args: Seq<JvmValue>,
    depth: int,
    calls: DispatchRel,
    r: Result<(), JvmError>,
) -> bool {
    if depth <= 0 {
        r matches Err(e) && e is StackOverflowError && vm1 == vm
    } else {
        let all = seq![JvmValue::ObjRef(this)] + args;
        match r {
            Ok(()) => exists|v: Option<JvmValue>| #[trigger] call_allowed(calls, vm, vm1, c, "<init>"@, d, all, Ok(v)),
            Err(e) => call_allowed(calls, vm, vm1, c, "<init>"@, d, all, Err(e)),
        }
    }
}

/// What running a constructor comes to, as `constructor_with` says, the
/// call dispatched as `dispatch_outcome` describes with one level of
/// nesting less.
pub open spec fn constructor_answered(
    vm: Vm,
    vm1: Vm,
    c: Seq<char>,
    d: Seq<char>,
    this: RawPtr,
    args: Seq<JvmValue>,
    depth: int,
    r: Result<(), JvmError>,
) -> bool {
    constructor_with(vm, vm1, c, d, this, args, depth, calls_below(depth), r)
}

/// How a call of a constructor ends, `f` being the frame with the
/// arguments taken off and `g` the frame left: the constructor runs on the
/// receiver as `constructor_answered` describes; if it fails, so does the
/// call, else the receiver is pushed back (a full stack fails).
pub open spec fn init_with(
    vm: Vm,
    vm1: Vm,
    f: FrameView,
    g: FrameView,
    c: Seq<char>,
    d: Seq<char>,
    args: Seq<JvmValue>,
    depth: int,
    calls: DispatchRel,
    r: Result<(), JvmError>,
) -> bool {
    exists|a: Result<(), JvmError>| #[trigger] constructor_with(vm, vm1, c, d, receiver(f), args, depth, calls, a) && match a {
        Ok(()) => if drop_receiver(f).ref_room(1) {
            r is Ok && g == drop_receiver(f).push_ref(receiver(f))
        } else {
            r matches Err(e) && e is StackOverflowError
        },
        Err(e) => r == Err::<(), JvmError>(e),
    }
}

/// How a call of a constructor ends, as `init_with` says, the constructor
/// dispatched as `dispatch_outcome` describes with one level of nesting
/// less.
pub open spec fn init_answered(
    vm: Vm,
    vm1: Vm,
    f: FrameView,
    g: FrameView,
    c: Seq<char>,
    d: Seq<char>,
    args: Seq<JvmValue>,
    depth: int,
    r: Result<(), JvmError>,
) -> bool {
    init_with(vm, vm1, f, g, c, d, args, depth, calls_below(depth), r)
}

/// Runs the constructor of `class_name` with the descriptor `method_desc`
/// on `this_ref`, the receiver first among the arguments.
fn execute_constructor(
    vm: &mut Vm,
    class_name: &str,
    method_desc: &str,
    this_ref: RawPtr,
    args: Vec<JvmValue>,
    depth: u64,
) -> (r: Result<(), JvmError>)
    requires
        old(vm).wf(),
    ensures
        final(vm).wf(),
        constructor_answered(*old(vm), *final(vm), class_name@, method_desc@, this_ref, args@, depth as int, r),
    decreases depth, 0int,
{
    if depth == 0 {
        return Err(JvmError::StackOverflowError(String::from_str("Calls nested too deep")));
    }
    let mut full_args: Vec<JvmValue> = Vec::new();
    full_args.push(JvmValue::ObjRef(this_ref));
    let mut rest = args;
    full_args.append(&mut rest);
    let ghost vm0 = *vm;
    proof {
        reveal_strlit("<init>");
        assert(full_args@ =~= seq![JvmValue::ObjRef(this_ref)] + args@);
    }
    let answer = vm.dispatch_within(class_name, "<init>", method_desc, full_args, depth - 1);
    match answer {
        Ok(v) => {
            assert(dispatch_outcome(vm0, *vm, class_name@, "<init>"@, method_desc@, seq![JvmValue::ObjRef(this_ref)] + args@, depth - 1, Ok(v)));
            assert(call_allowed(calls_below(depth as int), vm0, *vm, class_name@, "<init>"@, method_desc@, seq![JvmValue::ObjRef(this_ref)] + args@, Ok(v)));
            Ok(())
        },
        Err(e) => Err(e),
    }
}

} // verus!
