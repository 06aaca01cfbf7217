use vstd::prelude::*;
use crate::JvmValue;
use crate::class::{Klass, KlassView};
use crate::heap::RawPtr;
use crate::instructions::method_utils::copy_values;
use crate::method::{Method, MethodView};

verus! {

/// A frame of the value call stack: its local variables and operand stack
/// hold values of any kind, beside the method and class it runs.
#[derive(Debug)]
pub struct Frame {
    local_variables: Vec<JvmValue>,
    operand_stack: Vec<JvmValue>,
    method: Method,
    class: Klass,
}

/// What a value frame holds.
pub ghost struct ValueFrameView {
    pub locals: Seq<JvmValue>,
    pub operands: Seq<JvmValue>,
    pub method: MethodView,
    pub class: KlassView,
}

impl View for Frame {
    type V = ValueFrameView;

    closed spec fn view(&self) -> ValueFrameView {
        ValueFrameView {
            locals: self.local_variables@,
            operands: self.operand_stack@,
            method: self.method@,
            class: self.class@,
        }
    }
}

impl Clone for Frame {
    fn clone(&self) -> (r: Self)
        ensures
            r@ == self@,
    {
        Frame {
            local_variables: copy_values(&self.local_variables),
            operand_stack: copy_values(&self.operand_stack),
            method: self.method.clone(),
            class: self.class.clone(),
        }
    }
}

impl Frame {
    /// The method the frame runs.
    pub fn get_cur_method(&self) -> (m: Method)
        ensures
            m@ == self@.method,
    {
        self.method.clone()
    }

    /// The class of the method the frame runs.
    pub fn get_cur_class(&self) -> (k: Klass)
        ensures
            k@ == self@.class,
    {
        self.class.clone()
    }

    /// Pushes a value onto the operand stack.
    pub fn push_value(&mut self, value: JvmValue)
        ensures
            final(self)@ == (ValueFrameView { operands: old(self)@.operands.push(value), ..old(self)@ }),
    {
        self.operand_stack.push(value);
    }

    /// Pops the top value of the operand stack, which must not be empty.
    pub fn pop_value(&mut self) -> (v: JvmValue)
        requires
            old(self)@.operands.len() > 0,
        ensures
            v == old(self)@.operands.last(),
            final(self)@ == (ValueFrameView { operands: old(self)@.operands.drop_last(), ..old(self)@ }),
    {
        let v = self.operand_stack.pop();
        match v {
            Some(x) => x,
            None => JvmValue::Null,
        }
    }

    /// The value in a local variable, which must exist.
    pub fn get_local(&self, index: usize) -> (v: JvmValue)
        requires
            index < self@.locals.len(),
        ensures
            v == self@.locals[index as int],
    {
        self.local_variables[index]
    }

    /// Replaces the value in a local variable, which must exist.
    pub fn set_local(&mut self, index: usize, value: JvmValue)
        requires
            index < old(self)@.locals.len(),
        ensures
            final(self)@ == (ValueFrameView { locals: old(self)@.locals.update(index as int, value), ..old(self)@ }),
    {
        self.local_variables.set(index, value);
    }

    /// The top value of the operand stack, if any.
    pub fn peek_value(&self) -> (r: Option<&JvmValue>)
        ensures
            self@.operands.len() == 0 ==> r is None,
            self@.operands.len() > 0 ==> r == Some(&self@.operands.last()),
    {
        let n = self.operand_stack.len();
        if n == 0 {
            None
        } else {
            Some(&self.operand_stack[n - 1])
        }
    }
}

/// The local variables a new frame starts with: the receiver, if any, and
/// the arguments as references, then null up to `max_locals`.
pub open spec fn initial_locals(receiver: Option<RawPtr>, args: Seq<RawPtr>, max_locals: nat) -> Seq<JvmValue> {
    let given = match receiver {
        Some(p) => seq![p] + args,
        None => args,
    }.map_values(|p: RawPtr| JvmValue::ObjRef(p));
    if given.len() < max_locals {
        given + Seq::new((max_locals - given.len()) as nat, |i: int| JvmValue::Null)
    } else {
        given
    }
}

/// A call stack of value frames, the current one last.
#[derive(Debug)]
pub struct Stack {
    frames: Vec<Frame>,
}

impl Stack {
    /// The frames, the current one last.
    pub closed spec fn frames(&self) -> Seq<ValueFrameView> {
        self.frames@.map_values(|f: Frame| f@)
    }

    /// An empty stack.
    pub fn new() -> (s: Stack)
        ensures
            s.frames() == Seq::<ValueFrameView>::empty(),
    {
        let s = Stack { frames: Vec::new() };
        assert(s.frames() =~= Seq::<ValueFrameView>::empty());
        s
    }

    /// Pushes a frame for `method` of `class`, the receiver and arguments in
    /// its first locals and the rest null.
    pub fn add_frame(&mut self, receiver: Option<RawPtr>, method: Method, class: Klass, args: Vec<RawPtr>)
        ensures
            final(self).frames() == old(self).frames().push(
                ValueFrameView {
                    locals: initial_locals(receiver, args@, method@.max_locals as nat),
                    operands: Seq::empty(),
                    method: method@,
                    class: class@,
                },
            ),
    {
        let max_locals = method.max_locals;
        let ghost given = match receiver {
            Some(p) => seq![p] + args@,
            None => args@,
        }.map_values(|p: RawPtr| JvmValue::ObjRef(p));
        let mut locals: Vec<JvmValue> = Vec::new();
        match receiver {
            Some(p) => locals.push(JvmValue::ObjRef(p)),
            None => {},
        }
        let start = locals.len();
        let mut i: usize = 0;
        while i < args.len()
            invariant
                i <= args@.len(),
                start <= 1,
                locals@.len() == start + i,
                locals@ == given.subrange(0, start + i),
                given.len() == start + args@.len(),
                given == match receiver {
                    Some(p) => seq![p] + args@,
                    None => args@,
                }.map_values(|p: RawPtr| JvmValue::ObjRef(p)),
                start == (if receiver is Some { 1int } else { 0int }),
            decreases args@.len() - i,
        {
            locals.push(JvmValue::ObjRef(args[i]));
            i = i + 1;
            assert(locals@ =~= given.subrange(0, start + i));
        }
        assert(locals@ =~= given);
        while locals.len() < max_locals
            invariant
                given.len() <= locals@.len(),
                locals@.subrange(0, given.len() as int) == given,
                forall|j: int| given.len() <= j < locals@.len() ==> locals@[j] == JvmValue::Null,
                locals@.len() <= max_locals || locals@.len() == given.len(),
            decreases max_locals - locals@.len(),
        {
            locals.push(JvmValue::Null);
            assert(locals@.subrange(0, given.len() as int) =~= given);
        }
        assert(locals@ =~= initial_locals(receiver, args@, max_locals as nat));
        let frame = Frame {
            local_variables: locals,
            operand_stack: Vec::with_capacity(method.max_stack),
            method,
            class,
        };
        let ghost before = self.frames();
        self.frames.push(frame);
        assert(self.frames() =~= before.push(frame@));
    }

    /// Removes the current frame, if there is one.
    pub fn pop_frame(&mut self)
        ensures
            final(self).frames() == (if old(self).frames().len() > 0 {
                old(self).frames().drop_last()
            } else {
                old(self).frames()
            }),
    {
        let ghost before = self.frames();
        self.frames.pop();
        assert(self.frames() =~= (if before.len() > 0 { before.drop_last() } else { before }));
    }

    /// The current frame, which must exist.
    pub fn cur_frame(&mut self) -> (f: &mut Frame)
        requires
            old(self).frames().len() > 0,
        ensures
            f@ == old(self).frames().last(),
            final(self).frames() == old(self).frames().update(old(self).frames().len() - 1, final(f)@),
    {
        let n = self.frames.len();
        &mut self.frames[n - 1]
    }
}

/// Removing the frame just added gives back the frames there were.
pub proof fn law_pop_undoes_add(frames: Seq<ValueFrameView>, f: ValueFrameView)
    ensures
        frames.push(f).drop_last() == frames,
        frames.push(f).last() == f,
{
    assert(frames.push(f).drop_last() =~= frames);
}

} // verus!
