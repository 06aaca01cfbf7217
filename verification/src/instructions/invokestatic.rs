use vstd::prelude::*;
use crate::JvmValue;
use crate::error::JvmError;
use crate::classfile::{methodref_at, get_methodref_info};
use crate::instructions::method_utils::{
    parse_method_descriptor, pop_arguments, push_return_value, result_room, copy_values, lemma_pop_args_shrinks,
    push_result, descriptor_params, result_fits,
};
use crate::jvm_thread::{Frame, FrameView, code_u2, read_u2};
use crate::instructions::method_utils::{pop_args, special_println_text};
use crate::native_method::{PrintView, println_line};
use crate::text::str_eq;
use crate::vm::{Vm, CALL_DEPTH, DispatchRel, dispatch_outcome, kept_but_printed, starts_from, call_allowed, calls_below};

verus! {

/// What answering a call does, `f` being the frame with the arguments
/// taken off and `vm0` the machine before it, `vm1` after it:
/// `PrintStream.println` prints the line for its first argument;
/// `System.currentTimeMillis` pushes the clock as a long, or fails when the
/// stack has no room for it; a registered native method prints its line
/// and pushes nothing. Any other call, with nesting depth left, is
/// dispatched to the method of descriptor `d` as `dispatch_outcome`
/// describes, with one level of nesting less (what `calls` allows): the
/// value it returns is pushed (a full stack fails) and a failed call is
/// passed over. A call with no nesting depth left fails with a
/// `StackOverflowError`.
pub open spec fn call_with(
    vm0: Vm,
    vm1: Vm,
    f: FrameView,
    g: FrameView,
    c: Seq<char>,
    n: Seq<char>,
    d: Seq<char>,
    args: Seq<JvmValue>,
    depth: int,
    calls: DispatchRel,
    r: Result<(), JvmError>,
) -> bool {
    if c == "java/io/PrintStream"@ && n == "println"@ {
        &&& r is Ok
        &&& g == f
        &&& vm1.printed() == vm0.printed().push(PrintView::Text(special_println_text(args)))
        &&& vm1.loader() == vm0.loader()
        &&& kept_but_printed(vm0, vm1)
    } else if c == "java/lang/System"@ && n == "currentTimeMillis"@ {
        if f.int_room(2) {
            &&& r is Ok
            &&& g == f.push_int((vm0.clock() / 0x1_0000_0000) as i32).push_int((vm0.clock() % 0x1_0000_0000) as i32)
            &&& vm1.loader() == vm0.loader()
            &&& starts_from(vm0, vm1)
        } else {
            r matches Err(e) && e is StackOverflowError && vm1 == vm0
        }
    } else if vm0.natives().contains_key(c + "."@ + n) {
        &&& r is Ok
        &&& g == f
        &&& vm1.printed() == vm0.printed().push(println_line(args, vm0.heap_state().bytes()))
        &&& vm1.loader() == vm0.loader()
        &&& kept_but_printed(vm0, vm1)
    } else if depth <= 0 {
        &&& r matches Err(e) && e is StackOverflowError
        &&& vm1.loader() == vm0.loader()
        &&& starts_from(vm0, vm1)
    } else {
        exists|a: Result<Option<JvmValue>, JvmError>| #[trigger] call_allowed(calls, vm0, vm1, c, n, d, args, a)
            && dispatch_answer(f, g, a, r)
    }
}

/// What answering a call does, as `call_with` says, a dispatched call
/// coming to what `dispatch_outcome` describes with one level of nesting
/// less.
pub open spec fn call_answered(
    vm0: Vm,
    vm1: Vm,
    f: FrameView,
    g: FrameView,
    c: Seq<char>,
    n: Seq<char>,
    d: Seq<char>,
    args: Seq<JvmValue>,
    depth: int,
    r: Result<(), JvmError>,
) -> bool {
    call_with(vm0, vm1, f, g, c, n, d, args, depth, calls_below(depth), r)
}

/// How the caller's frame `f` ends up, as `g`, with result `r`, after a
/// dispatched call answered `a`: the returned value pushed when it fits (a
/// full stack fails), and a failed call passed over.
pub open spec fn dispatch_answer(
    f: FrameView,
    g: FrameView,
    a: Result<Option<JvmValue>, JvmError>,
    r: Result<(), JvmError>,
) -> bool {
    match a {
        Ok(v) => if result_fits(f, v) {
            r is Ok && g == push_result(f, v)
        } else {
            r matches Err(e) && e is StackOverflowError
        },
        Err(_) => r is Ok && g == f,
    }
}

/// Answers a call whose arguments are already off the frame: the calls
/// the virtual machine answers itself first, then a native method, then
/// the method the class defines, run with at most `depth` nested calls.
/// The value a call returns is pushed; a call that fails after the native
/// attempt is passed over, as one that has returned nothing; a call made
/// with no nesting depth left fails.
pub fn finish_call(
    frame: &mut Frame,
    vm: &mut Vm,
    class_name: &str,
    method_name: &str,
    method_desc: &str,
    args: Vec<JvmValue>,
    depth: u64,
) -> (r: Result<(), JvmError>)
    requires
        old(frame)@.bounded(),
        old(vm).wf(),
    ensures
        final(frame)@.bounded(),
        final(vm).wf(),
        call_answered(*old(vm), *final(vm), old(frame)@, final(frame)@, class_name@, method_name@, method_desc@, args@, depth as int, r),
    decreases depth, 0int,
{
    proof {
        reveal_strlit("java/lang/System");
        reveal_strlit("currentTimeMillis");
        reveal_strlit("java/io/PrintStream");
        reveal_strlit("println");
        assert("java/lang/System"@.len() == 16);
        assert("java/io/PrintStream"@.len() == 19);
    }
    if str_eq(class_name, "java/lang/System") && str_eq(method_name, "currentTimeMillis") {
        if frame.stack.values_len() >= frame.stack.max_size() || frame.stack.max_size() - frame.stack.values_len() < 2 {
            return Err(JvmError::StackOverflowError(String::from_str("Stack overflow")));
        }
    }
    let ghost vm0 = *vm;
    match vm.special_call(class_name, method_name, args.as_slice(), frame) {
        Some(true) => return Ok(()),
        _ => {},
    }
    let native = vm.call_native_method(class_name, method_name, copy_values(&args));
    proof {
        vm0.lemma_wf();
        vm.lemma_wf();
    }
    match native {
        Ok(value) => {
            if !result_room(frame, value) {
                return Err(JvmError::StackOverflowError(String::from_str("Stack overflow")));
            }
            push_return_value(frame, value);
            return Ok(());
        },
        Err(_) => {},
    }
    if depth == 0 {
        return Err(JvmError::StackOverflowError(String::from_str("Calls nested too deep")));
    }
    let ghost vm1 = *vm;
    let ghost args0 = args@;
    proof {
        crate::vm::lemma_dispatch_outcome_same(vm0, vm1, class_name@, method_name@, method_desc@, args@, depth - 1);
    }
    let answer = vm.dispatch_within(class_name, method_name, method_desc, args, depth - 1);
    proof {
        assert(dispatch_outcome(vm0, *vm, class_name@, method_name@, method_desc@, args0, depth - 1, answer));
        assert(call_allowed(calls_below(depth as int), vm0, *vm, class_name@, method_name@, method_desc@, args0, answer));
    }
    match answer {
        Ok(value) => {
            if !result_room(frame, value) {
                return Err(JvmError::StackOverflowError(String::from_str("Stack overflow")));
            }
            push_return_value(frame, value);
            Ok(())
        },
        Err(_) => Ok(()),
    }
}

/// `invokestatic` with the method reference whose index follows: takes the
/// arguments its descriptor names off the frame and answers the call.
pub fn exec_invokestatic(frame: &mut Frame, code: &[u8], vm: &mut Vm) -> (r: Result<(), JvmError>)
    requires
        old(frame).pc + 1 < code@.len(),
        old(frame)@.bounded(),
        old(vm).wf(),
    ensures
        final(frame)@.bounded(),
        final(vm).wf(),
        match methodref_at(old(frame)@.method.constant_pool, code_u2(code@, old(frame).pc as int) as int) {
            None => r matches Err(e) && e is IllegalStateError,
            Some((c, n, d)) => {
                let (args, f) = pop_args(old(frame)@.at(old(frame).pc + 2), descriptor_params(d));
                call_answered(*old(vm), *final(vm), f, final(frame)@, c, n, d, args, CALL_DEPTH as int, r)
            },
        },
{
    invoke_static_within(frame, code, vm, CALL_DEPTH)
}

/// `exec_invokestatic` with at most `depth` nested calls.
pub fn invoke_static_within(frame: &mut Frame, code: &[u8], vm: &mut Vm, depth: u64) -> (r: Result<(), JvmError>)
    requires
        old(frame).pc + 1 < code@.len(),
        old(frame)@.bounded(),
        old(vm).wf(),
    ensures
        r is Ok ==> final(frame)@.method == old(frame)@.method && final(frame)@.pc == old(frame).pc + 2,
        final(frame)@.bounded(),
        final(vm).wf(),
        match methodref_at(old(frame)@.method.constant_pool, code_u2(code@, old(frame).pc as int) as int) {
            None => r matches Err(e) && e is IllegalStateError,
            Some((c, n, d)) => {
                let (args, f) = pop_args(old(frame)@.at(old(frame).pc + 2), descriptor_params(d));
                call_answered(*old(vm), *final(vm), f, final(frame)@, c, n, d, args, depth as int, r)
            },
        },
    decreases depth, 1int,
{
    let index = read_u2(code, frame.pc);
    frame.pc = frame.pc + 2;
    let (class_name, method_name, method_desc) = match get_methodref_info(&frame.method.constant_pool, index) {
        Some(t) => t,
        None => return Err(JvmError::IllegalStateError(String::from_str("invokestatic: the constant is no method reference"))),
    };
    let params = parse_method_descriptor(method_desc.as_str());
    proof {
        lemma_pop_args_shrinks(frame@, params@.map_values(|t: String| t@));
    }
    let args = pop_arguments(frame, params.as_slice());
    finish_call(frame, vm, class_name.as_str(), method_name.as_str(), method_desc.as_str(), args, depth)
}

} // verus!
