#![allow(unused_imports)]
#![allow(dead_code)]
#![allow(non_camel_case_types)]

use vstd::prelude::*;

pub mod assoc;
pub mod class;
pub mod class_loader;
pub mod classfile;
pub mod error;
pub mod field;
pub mod heap;
pub mod instructions;
pub mod jvm_thread;
pub mod local_vars;
pub mod logger;
pub mod method;
pub mod native_method;
pub mod operand_stack;
pub mod stack;
pub mod text;
pub mod vm;

verus! {

use crate::heap::RawPtr;

/// A value held by the virtual machine: a primitive of one of the Java
/// types (stored as raw bits) or a reference.
#[derive(Debug, Clone, Copy, PartialEq, Eq, Structural)]
pub enum JvmValue {
    Boolean(u8),
    Byte(u8),
    Short(u16),
    Int(u32),
    Long(u64),
    Float(u64),
    Double(u64),
    Char(u16),
    ObjRef(RawPtr),
    Null,
}

/// The letters that `JvmValue::default_value` accepts.
pub open spec fn is_type_letter(c: char) -> bool {
    c == 'Z' || c == 'B' || c == 'S' || c == 'I' || c == 'L' || c == 'F' || c == 'D'
        || c == 'C' || c == 'A'
}

impl JvmValue {
    /// The type letter of a value: `A` for references and null.
    pub open spec fn type_letter(self) -> char {
        match self {
            JvmValue::Boolean(_) => 'Z',
            JvmValue::Byte(_) => 'B',
            JvmValue::Short(_) => 'S',
            JvmValue::Int(_) => 'I',
            JvmValue::Long(_) => 'L',
            JvmValue::Float(_) => 'F',
            JvmValue::Double(_) => 'D',
            JvmValue::Char(_) => 'C',
            JvmValue::ObjRef(_) | JvmValue::Null => 'A',
        }
    }

    /// The zero value of the type named by a letter.
    pub open spec fn zero_of(letter: char) -> JvmValue {
        if letter == 'Z' {
            JvmValue::Boolean(0)
        } else if letter == 'B' {
            JvmValue::Byte(0)
        } else if letter == 'S' {
            JvmValue::Short(0)
        } else if letter == 'I' {
            JvmValue::Int(0)
        } else if letter == 'L' {
            JvmValue::Long(0)
        } else if letter == 'F' {
            JvmValue::Float(0)
        } else if letter == 'D' {
            JvmValue::Double(0)
        } else if letter == 'C' {
            JvmValue::Char(0)
        } else {
            JvmValue::Null
        }
    }

    pub fn name(&self) -> (c: char)
        ensures
            c == self.type_letter(),
    {
        match *self {
            JvmValue::Boolean(_) => 'Z',
            JvmValue::Byte(_) => 'B',
            JvmValue::Short(_) => 'S',
            JvmValue::Int(_) => 'I',
            JvmValue::Long(_) => 'L',
            JvmValue::Float(_) => 'F',
            JvmValue::Double(_) => 'D',
            JvmValue::Char(_) => 'C',
            JvmValue::ObjRef(_) | JvmValue::Null => 'A',
        }
    }

    pub fn default_value(letter: char) -> (v: JvmValue)
        requires
            is_type_letter(letter),
        ensures
            v == JvmValue::zero_of(letter),
    {
        match letter {
            'Z' => JvmValue::Boolean(0),
            'B' => JvmValue::Byte(0),
            'S' => JvmValue::Short(0),
            'I' => JvmValue::Int(0),
            'L' => JvmValue::Long(0),
            'F' => JvmValue::Float(0),
            'D' => JvmValue::Double(0),
            'C' => JvmValue::Char(0),
            _ => JvmValue::Null,
        }
    }

    pub fn as_bool(self) -> (r: Option<u8>)
        ensures
            r == (match self { JvmValue::Boolean(v) => Some(v), _ => None }),
    {
        match self {
            JvmValue::Boolean(v) => Some(v),
            _ => None,
        }
    }

    pub fn as_byte(self) -> (r: Option<u8>)
        ensures
            r == (match self { JvmValue::Byte(v) => Some(v), _ => None }),
    {
        match self {
            JvmValue::Byte(v) => Some(v),
            _ => None,
        }
    }

    pub fn as_short(self) -> (r: Option<u16>)
        ensures
            r == (match self { JvmValue::Short(v) => Some(v), _ => None }),
    {
        match self {
            JvmValue::Short(v) => Some(v),
            _ => None,
        }
    }

    pub fn as_int(self) -> (r: Option<u32>)
        ensures
            r == (match self { JvmValue::Int(v) => Some(v), _ => None }),
    {
        match self {
            JvmValue::Int(v) => Some(v),
            _ => None,
        }
    }

    pub fn as_long(self) -> (r: Option<u64>)
        ensures
            r == (match self { JvmValue::Long(v) => Some(v), _ => None }),
    {
        match self {
            JvmValue::Long(v) => Some(v),
            _ => None,
        }
    }

    pub fn as_float(self) -> (r: Option<u64>)
        ensures
            r == (match self { JvmValue::Float(v) => Some(v), _ => None }),
    {
        match self {
            JvmValue::Float(v) => Some(v),
            _ => None,
        }
    }

    pub fn as_double(self) -> (r: Option<u64>)
        ensures
            r == (match self { JvmValue::Double(v) => Some(v), _ => None }),
    {
        match self {
            JvmValue::Double(v) => Some(v),
            _ => None,
        }
    }

    pub fn as_char(self) -> (r: Option<u16>)
        ensures
            r == (match self { JvmValue::Char(v) => Some(v), _ => None }),
    {
        match self {
            JvmValue::Char(v) => Some(v),
            _ => None,
        }
    }

    pub fn as_obj_ref(self) -> (r: Option<RawPtr>)
        ensures
            r == (match self { JvmValue::ObjRef(v) => Some(v), _ => None }),
    {
        match self {
            JvmValue::ObjRef(v) => Some(v),
            _ => None,
        }
    }
}

/// The default value of every type letter carries that same letter back:
/// `default_value(c).name() == c`.
pub proof fn law_default_value_has_its_letter(letter: char)
    requires
        is_type_letter(letter),
    ensures
        JvmValue::zero_of(letter).type_letter() == letter,
{
}

} // verus!
