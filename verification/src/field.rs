use vstd::prelude::*;
use crate::JvmValue;
use crate::classfile::{CpInfo, FieldInfo, ACC_STATIC, utf8_at, get_utf8_string};
use crate::text::{join3, single_char};

verus! {

/// The kinds of values a field descriptor names.
pub enum ValueType {
    Void,
    Byte,
    Boolean,
    Char,
    Short,
    Int,
    Float,
    Long,
    Double,
    Object(String),
    Array(String),
}

/// A field of a loaded class: its name, descriptor, access flags and the
/// offset of its slot within an object.
#[derive(Debug)]
pub struct Field {
    name: String,
    descriptor: String,
    access_flags: u16,
    offset: usize,
}

pub ghost struct FieldView {
    pub name: Seq<char>,
    pub descriptor: Seq<char>,
    pub access_flags: u16,
    pub offset: usize,
}

impl View for Field {
    type V = FieldView;

    closed spec fn view(&self) -> FieldView {
        FieldView {
            name: self.name@,
            descriptor: self.descriptor@,
            access_flags: self.access_flags,
            offset: self.offset,
        }
    }
}

impl Clone for Field {
    fn clone(&self) -> (r: Self)
        ensures
            r@ == self@,
    {
        Field {
            name: self.name.clone(),
            descriptor: self.descriptor.clone(),
            access_flags: self.access_flags,
            offset: self.offset,
        }
    }
}

/// The name and descriptor of a member joined by a dot, the key under which
/// a class looks its members up.
pub open spec fn fq_key(name: Seq<char>, descriptor: Seq<char>) -> Seq<char> {
    name + "."@ + descriptor
}

/// The zero value of the type a field descriptor names; `Null` for
/// reference types and anything else.
pub open spec fn descriptor_default(d: Seq<char>) -> JvmValue {
    if d.len() == 1 {
        if d[0] == 'Z' {
            JvmValue::Boolean(0)
        } else if d[0] == 'B' {
            JvmValue::Byte(0)
        } else if d[0] == 'S' {
            JvmValue::Short(0)
        } else if d[0] == 'C' {
            JvmValue::Char(0)
        } else if d[0] == 'I' {
            JvmValue::Int(0)
        } else if d[0] == 'J' {
            JvmValue::Long(0)
        } else if d[0] == 'F' {
            JvmValue::Float(0)
        } else if d[0] == 'D' {
            JvmValue::Double(0)
        } else {
            JvmValue::Null
        }
    } else {
        JvmValue::Null
    }
}

/// The field that a class file's field entry describes.
pub open spec fn field_view_of(info: FieldInfo, cp: Seq<CpInfo>) -> FieldView {
    FieldView {
        name: utf8_at(cp, info.name_index as int)->0,
        descriptor: utf8_at(cp, info.descriptor_index as int)->0,
        access_flags: info.access_flags,
        offset: 0,
    }
}

impl FieldView {
    pub open spec fn is_static(self) -> bool {
        self.access_flags & ACC_STATIC == ACC_STATIC
    }

    pub open spec fn fq(self) -> Seq<char> {
        fq_key(self.name, self.descriptor)
    }
}

impl Field {
    pub fn new(field_info: &FieldInfo, cp_pool: &Vec<CpInfo>) -> (f: Field)
        requires
            utf8_at(cp_pool@, field_info.name_index as int) is Some,
            utf8_at(cp_pool@, field_info.descriptor_index as int) is Some,
        ensures
            f@ == field_view_of(*field_info, cp_pool@),
    {
        let name = match get_utf8_string(cp_pool, field_info.name_index) {
            Some(s) => s,
            None => String::new(),
        };
        let descriptor = match get_utf8_string(cp_pool, field_info.descriptor_index) {
            Some(s) => s,
            None => String::new(),
        };
        Field { name, descriptor, access_flags: field_info.access_flags, offset: 0 }
    }

    pub fn get_fq_name_desc(&self) -> (s: String)
        ensures
            s@ == self@.fq(),
    {
        proof {
            reveal_strlit(".");
        }
        join3(self.name.as_str(), ".", self.descriptor.as_str())
    }

    pub fn get_name(&self) -> (s: String)
        ensures
            s@ == self@.name,
    {
        self.name.clone()
    }

    pub fn get_descriptor(&self) -> (s: String)
        ensures
            s@ == self@.descriptor,
    {
        self.descriptor.clone()
    }

    pub fn is_static(&self) -> (b: bool)
        ensures
            b == self@.is_static(),
    {
        self.access_flags & ACC_STATIC == ACC_STATIC
    }

    pub fn get_default(&self) -> (v: JvmValue)
        ensures
            v == descriptor_default(self@.descriptor),
    {
        match single_char(self.descriptor.as_str()) {
            Some('Z') => JvmValue::Boolean(0),
            Some('B') => JvmValue::Byte(0),
            Some('S') => JvmValue::Short(0),
            Some('C') => JvmValue::Char(0),
            Some('I') => JvmValue::Int(0),
            Some('J') => JvmValue::Long(0),
            Some('F') => JvmValue::Float(0),
            Some('D') => JvmValue::Double(0),
            _ => JvmValue::Null,
        }
    }

    pub fn get_offset(&self) -> (o: usize)
        ensures
            o == self@.offset,
    {
        self.offset
    }

    pub fn set_offset(&mut self, offset: usize)
        ensures
            final(self)@ == (FieldView { offset, ..old(self)@ }),
    {
        self.offset = offset;
    }
}

} // verus!
