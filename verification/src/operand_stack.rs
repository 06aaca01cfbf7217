use vstd::prelude::*;
use crate::heap::RawPtr;

verus! {

/// The operand stack of a frame. Ints and references are kept on two
/// separate stacks, each bounded by the same maximum depth.
#[derive(Debug)]
pub struct OperandStack {
    max_size: usize,
    values: Vec<i32>,
    obj_refs: Vec<RawPtr>,
}

impl OperandStack {
    /// The int stack, bottom first.
    pub closed spec fn ints(&self) -> Seq<i32> {
        self.values@
    }

    /// The reference stack, bottom first.
    pub closed spec fn refs(&self) -> Seq<RawPtr> {
        self.obj_refs@
    }

    /// The maximum depth of each of the two stacks.
    pub closed spec fn capacity(&self) -> nat {
        self.max_size as nat
    }

    pub fn new(max_size: usize) -> (s: Self)
        ensures
            s.ints() == Seq::<i32>::empty(),
            s.refs() == Seq::<RawPtr>::empty(),
            s.capacity() == max_size,
    {
        OperandStack {
            max_size,
            values: Vec::with_capacity(max_size),
            obj_refs: Vec::with_capacity(max_size),
        }
    }

    /// The maximum depth of each stack.
    pub fn max_size(&self) -> (n: usize)
        ensures
            n == self.capacity(),
    {
        self.max_size
    }

    /// The depth of the int stack.
    pub fn values_len(&self) -> (n: usize)
        ensures
            n == self.ints().len(),
    {
        self.values.len()
    }

    /// The depth of the reference stack.
    pub fn obj_refs_len(&self) -> (n: usize)
        ensures
            n == self.refs().len(),
    {
        self.obj_refs.len()
    }

    pub fn push_int(&mut self, value: i32)
        requires
            old(self).ints().len() < old(self).capacity(),
        ensures
            final(self).ints() == old(self).ints().push(value),
            final(self).refs() == old(self).refs(),
            final(self).capacity() == old(self).capacity(),
    {
        self.values.push(value);
    }

    pub fn pop_int(&mut self) -> (v: i32)
        requires
            old(self).ints().len() > 0,
        ensures
            v == old(self).ints().last(),
            final(self).ints() == old(self).ints().drop_last(),
            final(self).refs() == old(self).refs(),
            final(self).capacity() == old(self).capacity(),
    {
        match self.values.pop() {
            Some(v) => v,
            None => 0,
        }
    }

    pub fn push_null(&mut self)
        requires
            old(self).ints().len() < old(self).capacity(),
        ensures
            final(self).ints() == old(self).ints().push(0),
            final(self).refs() == old(self).refs(),
            final(self).capacity() == old(self).capacity(),
    {
        self.push_int(0);
    }

    pub fn push_obj_ref(&mut self, obj_ref: RawPtr)
        requires
            old(self).refs().len() < old(self).capacity(),
        ensures
            final(self).refs() == old(self).refs().push(obj_ref),
            final(self).ints() == old(self).ints(),
            final(self).capacity() == old(self).capacity(),
    {
        self.obj_refs.push(obj_ref);
    }

    pub fn pop_obj_ref(&mut self) -> (p: RawPtr)
        requires
            old(self).refs().len() > 0,
        ensures
            p == old(self).refs().last(),
            final(self).refs() == old(self).refs().drop_last(),
            final(self).ints() == old(self).ints(),
            final(self).capacity() == old(self).capacity(),
    {
        match self.obj_refs.pop() {
            Some(p) => p,
            None => RawPtr(0),
        }
    }

    /// The top int, left in place.
    pub fn peek_int(&self) -> (v: i32)
        requires
            self.ints().len() > 0,
        ensures
            v == self.ints().last(),
    {
        self.values[self.values.len() - 1]
    }

    /// The top reference, left in place.
    pub fn peek_obj_ref(&self) -> (p: RawPtr)
        requires
            self.refs().len() > 0,
        ensures
            p == self.refs().last(),
    {
        self.obj_refs[self.obj_refs.len() - 1]
    }

    pub fn is_values_empty(&self) -> (b: bool)
        ensures
            b == (self.ints().len() == 0),
    {
        self.values.len() == 0
    }

    pub fn is_obj_refs_empty(&self) -> (b: bool)
        ensures
            b == (self.refs().len() == 0),
    {
        self.obj_refs.len() == 0
    }

    pub fn is_empty(&self) -> (b: bool)
        ensures
            b == (self.ints().len() == 0 && self.refs().len() == 0),
    {
        self.values.len() == 0 && self.obj_refs.len() == 0
    }

    /// Swaps the two top ints; with fewer than two ints it does nothing.
    pub fn swap_top_two_ints(&mut self)
        ensures
            final(self).ints() == (if old(self).ints().len() >= 2 {
                swap_top(old(self).ints())
            } else {
                old(self).ints()
            }),
            final(self).refs() == old(self).refs(),
            final(self).capacity() == old(self).capacity(),
    {
        let len = self.values.len();
        if len >= 2 {
            let a = self.values[len - 1];
            let b = self.values[len - 2];
            self.values.set(len - 1, b);
            self.values.set(len - 2, a);
            assert(self.values@ =~= swap_top(old(self).ints()));
        }
    }
}

/// A sequence with its last two elements exchanged.
pub open spec fn swap_top<T>(s: Seq<T>) -> Seq<T>
    recommends
        s.len() >= 2,
{
    s.update(s.len() - 1, s[s.len() - 2]).update(s.len() - 2, s[s.len() - 1])
}

/// Popping right after a push gives back the pushed int and leaves the
/// stack as it was before the push.
pub proof fn law_push_then_pop_int(ints: Seq<i32>, value: i32)
    ensures
        ints.push(value).last() == value,
        ints.push(value).drop_last() == ints,
{
    assert(ints.push(value).drop_last() =~= ints);
}

/// Popping right after a push gives back the pushed reference and leaves the
/// reference stack as it was before the push.
pub proof fn law_push_then_pop_ref(refs: Seq<RawPtr>, p: RawPtr)
    ensures
        refs.push(p).last() == p,
        refs.push(p).drop_last() == refs,
{
    assert(refs.push(p).drop_last() =~= refs);
}

/// Swapping the two top ints twice restores the stack.
pub proof fn law_swap_twice(ints: Seq<i32>)
    requires
        ints.len() >= 2,
    ensures
        swap_top(swap_top(ints)) == ints,
{
    assert(swap_top(swap_top(ints)) =~= ints);
}

} // verus!
