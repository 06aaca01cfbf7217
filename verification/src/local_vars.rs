use vstd::prelude::*;
use crate::JvmValue;
use crate::heap::RawPtr;

verus! {

/// The local variable array of a frame: a fixed number of slots, each
/// holding a value; every slot starts out as `Null`.
#[derive(Debug)]
pub struct LocalVars {
    values: Vec<JvmValue>,
}

impl View for LocalVars {
    type V = Seq<JvmValue>;

    closed spec fn view(&self) -> Seq<JvmValue> {
        self.values@
    }
}

/// The int held in slot `index`, if the slot holds an int.
pub open spec fn int_slot(slots: Seq<JvmValue>, index: int) -> Option<i32> {
    if 0 <= index < slots.len() {
        match slots[index] {
            JvmValue::Int(v) => Some(v as i32),
            _ => None,
        }
    } else {
        None
    }
}

/// The reference held in slot `index`; `Null` reads as the null pointer.
pub open spec fn ref_slot(slots: Seq<JvmValue>, index: int) -> Option<RawPtr> {
    if 0 <= index < slots.len() {
        match slots[index] {
            JvmValue::ObjRef(p) => Some(p),
            JvmValue::Null => Some(RawPtr(0)),
            _ => None,
        }
    } else {
        None
    }
}

impl LocalVars {
    pub fn new(max_locals: usize) -> (r: Self)
        ensures
            r@ == Seq::new(max_locals as nat, |i: int| JvmValue::Null),
    {
        let values = vec![JvmValue::Null; max_locals];
        let r = LocalVars { values };
        assert(r@ =~= Seq::new(max_locals as nat, |i: int| JvmValue::Null));
        r
    }

    /// The number of slots.
    pub fn max_locals(&self) -> (n: usize)
        ensures
            n == self@.len(),
    {
        self.values.len()
    }

    /// The value in a slot.
    pub fn get(&self, index: usize) -> (v: JvmValue)
        requires
            index < self@.len(),
        ensures
            v == self@[index as int],
    {
        self.values[index]
    }

    pub fn get_int(&self, index: usize) -> (v: i32)
        requires
            int_slot(self@, index as int) is Some,
        ensures
            int_slot(self@, index as int) == Some(v),
    {
        match self.values[index] {
            JvmValue::Int(v) => v as i32,
            _ => 0,
        }
    }

    pub fn set_int(&mut self, index: usize, value: i32)
        requires
            index < old(self)@.len(),
        ensures
            final(self)@ == old(self)@.update(index as int, JvmValue::Int(value as u32)),
    {
        self.values.set(index, JvmValue::Int(value as u32));
    }

    pub fn set_obj_ref(&mut self, index: usize, obj_ref: RawPtr)
        requires
            index < old(self)@.len(),
        ensures
            final(self)@ == old(self)@.update(index as int, JvmValue::ObjRef(obj_ref)),
    {
        self.values.set(index, JvmValue::ObjRef(obj_ref));
    }

    pub fn get_obj_ref(&self, index: usize) -> (p: RawPtr)
        requires
            ref_slot(self@, index as int) is Some,
        ensures
            ref_slot(self@, index as int) == Some(p),
    {
        match self.values[index] {
            JvmValue::ObjRef(ptr) => ptr,
            _ => RawPtr(0),
        }
    }
}

/// What `get_int` reads back from a slot is what `set_int` last wrote there,
/// and a write leaves every other slot as it was.
pub proof fn law_locals_read_after_write(slots: Seq<JvmValue>, index: int, value: i32, other: int)
    requires
        0 <= index < slots.len(),
    ensures
        int_slot(slots.update(index, JvmValue::Int(value as u32)), index) == Some(value),
        other != index ==> int_slot(slots.update(index, JvmValue::Int(value as u32)), other)
            == int_slot(slots, other),
        other != index ==> ref_slot(slots.update(index, JvmValue::Int(value as u32)), other)
            == ref_slot(slots, other),
{
    assert((value as u32) as i32 == value) by (bit_vector);
}

/// A reference written with `set_obj_ref` is read back by `get_obj_ref`.
pub proof fn law_locals_ref_read_after_write(slots: Seq<JvmValue>, index: int, p: RawPtr)
    requires
        0 <= index < slots.len(),
    ensures
        ref_slot(slots.update(index, JvmValue::ObjRef(p)), index) == Some(p),
{
}

} // verus!
