use vstd::prelude::*;

verus! {

pub type U1 = u8;

pub type U2 = u16;

pub type U4 = u32;

pub type U8 = u64;

pub const ACC_STATIC: u16 = 0x0008;

pub const ACC_NATIVE: u16 = 0x0100;

/// One entry of a class file's constant pool.
#[derive(Debug)]
pub enum CpInfo {
    Class { name_index: u16 },
    FieldRef { class_index: u16, name_and_type_index: u16 },
    MethodRef { class_index: u16, name_and_type_index: u16 },
    InterfaceMethodRef { class_index: u16, name_and_type_index: u16 },
    String { string_index: u16 },
    Integer { bytes: u32 },
    Float { bytes: u32 },
    Long { high_bytes: u32, low_bytes: u32 },
    Double { high_bytes: u32, low_bytes: u32 },
    NameAndType { name_index: u16, descriptor_index: u16 },
    Utf8 { bytes: String },
    MethodHandle { reference_kind: u8, reference_index: u16 },
    MethodType { descriptor_index: u16 },
    InvokeDynamic { bootstrap_method_attr_index: u16, name_and_type_index: u16 },
    /// The slot that follows a `Long` or `Double` entry.
    Unusable,
}

impl Clone for CpInfo {
    fn clone(&self) -> (r: Self)
        ensures
            r == *self,
    {
        match self {
            CpInfo::Class { name_index } => CpInfo::Class { name_index: *name_index },
            CpInfo::FieldRef { class_index, name_and_type_index } => CpInfo::FieldRef {
                class_index: *class_index,
                name_and_type_index: *name_and_type_index,
            },
            CpInfo::MethodRef { class_index, name_and_type_index } => CpInfo::MethodRef {
                class_index: *class_index,
                name_and_type_index: *name_and_type_index,
            },
            CpInfo::InterfaceMethodRef { class_index, name_and_type_index } =>
                CpInfo::InterfaceMethodRef {
                class_index: *class_index,
                name_and_type_index: *name_and_type_index,
            },
            CpInfo::String { string_index } => CpInfo::String { string_index: *string_index },
            CpInfo::Integer { bytes } => CpInfo::Integer { bytes: *bytes },
            CpInfo::Float { bytes } => CpInfo::Float { bytes: *bytes },
            CpInfo::Long { high_bytes, low_bytes } => CpInfo::Long {
                high_bytes: *high_bytes,
                low_bytes: *low_bytes,
            },
            CpInfo::Double { high_bytes, low_bytes } => CpInfo::Double {
                high_bytes: *high_bytes,
                low_bytes: *low_bytes,
            },
            CpInfo::NameAndType { name_index, descriptor_index } => CpInfo::NameAndType {
                name_index: *name_index,
                descriptor_index: *descriptor_index,
            },
            CpInfo::Utf8 { bytes } => CpInfo::Utf8 { bytes: bytes.clone() },
            CpInfo::MethodHandle { reference_kind, reference_index } => CpInfo::MethodHandle {
                reference_kind: *reference_kind,
                reference_index: *reference_index,
            },
            CpInfo::MethodType { descriptor_index } => CpInfo::MethodType {
                descriptor_index: *descriptor_index,
            },
            CpInfo::InvokeDynamic { bootstrap_method_attr_index, name_and_type_index } =>
                CpInfo::InvokeDynamic {
                bootstrap_method_attr_index: *bootstrap_method_attr_index,
                name_and_type_index: *name_and_type_index,
            },
            CpInfo::Unusable => CpInfo::Unusable,
        }
    }
}

/// The entry at a (one-based) constant pool index.
pub open spec fn cp_entry(cp: Seq<CpInfo>, index: int) -> Option<CpInfo> {
    if 1 <= index <= cp.len() {
        Some(cp[index - 1])
    } else {
        None
    }
}

/// The text of the `Utf8` entry at an index.
pub open spec fn utf8_at(cp: Seq<CpInfo>, index: int) -> Option<Seq<char>> {
    match cp_entry(cp, index) {
        Some(CpInfo::Utf8 { bytes }) => Some(bytes@),
        _ => None,
    }
}

/// The name of the `Class` entry at an index.
pub open spec fn class_name_at(cp: Seq<CpInfo>, index: int) -> Option<Seq<char>> {
    match cp_entry(cp, index) {
        Some(CpInfo::Class { name_index }) => utf8_at(cp, name_index as int),
        _ => None,
    }
}

/// The name and descriptor of the `NameAndType` entry at an index.
pub open spec fn name_and_type_at(cp: Seq<CpInfo>, index: int) -> Option<(Seq<char>, Seq<char>)> {
    match cp_entry(cp, index) {
        Some(CpInfo::NameAndType { name_index, descriptor_index }) => {
            match (utf8_at(cp, name_index as int), utf8_at(cp, descriptor_index as int)) {
                (Some(n), Some(d)) => Some((n, d)),
                _ => None,
            }
        },
        _ => None,
    }
}

/// Class name, member name and descriptor of a member reference, given its
/// class index and name-and-type index.
pub open spec fn member_ref(cp: Seq<CpInfo>, class_index: int, nat_index: int) -> Option<
    (Seq<char>, Seq<char>, Seq<char>),
> {
    match (class_name_at(cp, class_index), name_and_type_at(cp, nat_index)) {
        (Some(c), Some((n, d))) => Some((c, n, d)),
        _ => None,
    }
}

/// Class name, field name and descriptor of the `FieldRef` entry at an index.
pub open spec fn fieldref_at(cp: Seq<CpInfo>, index: int) -> Option<
    (Seq<char>, Seq<char>, Seq<char>),
> {
    match cp_entry(cp, index) {
        Some(CpInfo::FieldRef { class_index, name_and_type_index }) => member_ref(
            cp,
            class_index as int,
            name_and_type_index as int,
        ),
        _ => None,
    }
}

/// Class name, method name and descriptor of the `MethodRef` entry at an index.
pub open spec fn methodref_at(cp: Seq<CpInfo>, index: int) -> Option<
    (Seq<char>, Seq<char>, Seq<char>),
> {
    match cp_entry(cp, index) {
        Some(CpInfo::MethodRef { class_index, name_and_type_index }) => member_ref(
            cp,
            class_index as int,
            name_and_type_index as int,
        ),
        _ => None,
    }
}

/// The entry at a one-based index, if there is one.
pub fn cp_get(cp: &Vec<CpInfo>, index: usize) -> (r: Option<&CpInfo>)
    ensures
        r matches Some(e) ==> cp_entry(cp@, index as int) == Some(*e),
        r is None ==> cp_entry(cp@, index as int) is None,
{
    if index >= 1 && index <= cp.len() {
        Some(&cp[index - 1])
    } else {
        None
    }
}

pub fn get_utf8_string(cp: &Vec<CpInfo>, index: u16) -> (r: Option<String>)
    ensures
        r matches Some(s) ==> utf8_at(cp@, index as int) == Some(s@),
        r is None ==> utf8_at(cp@, index as int) is None,
{
    match cp_get(cp, index as usize) {
        Some(CpInfo::Utf8 { bytes }) => Some(bytes.clone()),
        _ => None,
    }
}

pub fn get_class_name(cp: &Vec<CpInfo>, index: u16) -> (r: Option<String>)
    ensures
        r matches Some(s) ==> class_name_at(cp@, index as int) == Some(s@),
        r is None ==> class_name_at(cp@, index as int) is None,
{
    match cp_get(cp, index as usize) {
        Some(CpInfo::Class { name_index }) => get_utf8_string(cp, *name_index),
        _ => None,
    }
}

pub fn get_name_and_type(cp: &Vec<CpInfo>, index: u16) -> (r: Option<(String, String)>)
    ensures
        r matches Some((n, d)) ==> name_and_type_at(cp@, index as int) == Some((n@, d@)),
        r is None ==> name_and_type_at(cp@, index as int) is None,
{
    match cp_get(cp, index as usize) {
        Some(CpInfo::NameAndType { name_index, descriptor_index }) => {
            let n = get_utf8_string(cp, *name_index);
            let d = get_utf8_string(cp, *descriptor_index);
            match (n, d) {
                (Some(n), Some(d)) => Some((n, d)),
                _ => None,
            }
        },
        _ => None,
    }
}

fn get_member_ref(cp: &Vec<CpInfo>, class_index: u16, nat_index: u16) -> (r: Option<
    (String, String, String),
>)
    ensures
        r matches Some((c, n, d)) ==> member_ref(cp@, class_index as int, nat_index as int)
            == Some((c@, n@, d@)),
        r is None ==> member_ref(cp@, class_index as int, nat_index as int) is None,
{
    let c = get_class_name(cp, class_index);
    let nt = get_name_and_type(cp, nat_index);
    match (c, nt) {
        (Some(c), Some((n, d))) => Some((c, n, d)),
        _ => None,
    }
}

/// Class, field name and descriptor of a field reference.
pub fn get_fieldref_info(cp: &Vec<CpInfo>, index: u16) -> (r: Option<(String, String, String)>)
    ensures
        r matches Some((c, n, d)) ==> fieldref_at(cp@, index as int) == Some((c@, n@, d@)),
        r is None ==> fieldref_at(cp@, index as int) is None,
{
    match cp_get(cp, index as usize) {
        Some(CpInfo::FieldRef { class_index, name_and_type_index }) => get_member_ref(
            cp,
            *class_index,
            *name_and_type_index,
        ),
        _ => None,
    }
}

/// Class, method name and descriptor of a method reference.
pub fn get_methodref_info(cp: &Vec<CpInfo>, index: u16) -> (r: Option<(String, String, String)>)
    ensures
        r matches Some((c, n, d)) ==> methodref_at(cp@, index as int) == Some((c@, n@, d@)),
        r is None ==> methodref_at(cp@, index as int) is None,
{
    match cp_get(cp, index as usize) {
        Some(CpInfo::MethodRef { class_index, name_and_type_index }) => get_member_ref(
            cp,
            *class_index,
            *name_and_type_index,
        ),
        _ => None,
    }
}

/// A copy of a constant pool.
pub fn copy_pool(cp: &Vec<CpInfo>) -> (r: Vec<CpInfo>)
    ensures
        r@ == cp@,
{
    let r = cp.clone();
    assert(r@ =~= cp@);
    r
}

/// A field as a class file declares it.
#[derive(Debug)]
pub struct FieldInfo {
    pub access_flags: u16,
    pub name_index: u16,
    pub descriptor_index: u16,
}

/// One entry of a method's exception table: start, end, handler, catch type.
pub type ExceptionTableEntry = (u16, u16, u16, u16);

/// An attribute of a method.
#[derive(Debug)]
pub enum AttributeInfo {
    Code {
        attribute_name_index: u16,
        attribute_length: u32,
        max_stack: u16,
        max_locals: u16,
        code_length: u32,
        code: Vec<u8>,
        exception_table_length: u16,
        exception_table: Vec<ExceptionTableEntry>,
        attributes_count: u16,
    },
    Other { attribute_name_index: u16, info: Vec<u8> },
}

/// A method as a class file declares it.
#[derive(Debug)]
pub struct MethodInfo {
    pub access_flags: u16,
    pub name_index: u16,
    pub descriptor_index: u16,
    pub attributes: Vec<AttributeInfo>,
}

/// The parts of a class file that the virtual machine reads.
#[derive(Debug)]
pub struct ClassFile {
    pub constant_pool: Vec<CpInfo>,
    pub access_flags: u16,
    pub this_class: u16,
    pub super_class: u16,
    pub fields: Vec<FieldInfo>,
    pub methods: Vec<MethodInfo>,
}

impl ClassFile {
    /// Every name the virtual machine reads from the class file resolves:
    /// the class's own name, its superclass (unless it has none), and the name
    /// and descriptor of every field and method.
    pub open spec fn wf(&self) -> bool {
        &&& class_name_at(self.constant_pool@, self.this_class as int) is Some
        &&& self.super_class == 0 || class_name_at(self.constant_pool@, self.super_class as int) is Some
        &&& forall|i: int|
            0 <= i < self.fields@.len() ==> {
                &&& utf8_at(self.constant_pool@, #[trigger] self.fields@[i].name_index as int) is Some
                &&& utf8_at(self.constant_pool@, self.fields@[i].descriptor_index as int) is Some
            }
        &&& forall|i: int|
            0 <= i < self.methods@.len() ==> {
                &&& utf8_at(self.constant_pool@, #[trigger] self.methods@[i].name_index as int) is Some
                &&& utf8_at(self.constant_pool@, self.methods@[i].descriptor_index as int) is Some
            }
    }

    /// The class's own name.
    pub open spec fn spec_class_name(&self) -> Seq<char> {
        class_name_at(self.constant_pool@, self.this_class as int)->0
    }

    /// The name of the superclass; empty for a class without one.
    pub open spec fn spec_super_class_name(&self) -> Seq<char> {
        if self.super_class == 0 {
            Seq::empty()
        } else {
            class_name_at(self.constant_pool@, self.super_class as int)->0
        }
    }

    /// Whether every name the virtual machine reads resolves.
    pub fn is_well_formed(&self) -> (b: bool)
        ensures
            b == self.wf(),
    {
        if get_class_name(&self.constant_pool, self.this_class).is_none() {
            return false;
        }
        if self.super_class != 0 && get_class_name(&self.constant_pool, self.super_class).is_none() {
            return false;
        }
        let mut i: usize = 0;
        while i < self.fields.len()
            invariant
                i <= self.fields@.len(),
                forall|j: int|
                    0 <= j < i ==> {
                        &&& utf8_at(self.constant_pool@, #[trigger] self.fields@[j].name_index as int) is Some
                        &&& utf8_at(self.constant_pool@, self.fields@[j].descriptor_index as int) is Some
                    },
            decreases self.fields@.len() - i,
        {
            let f = &self.fields[i];
            if get_utf8_string(&self.constant_pool, f.name_index).is_none()
                || get_utf8_string(&self.constant_pool, f.descriptor_index).is_none() {
                return false;
            }
            i = i + 1;
        }
        let mut k: usize = 0;
        while k < self.methods.len()
            invariant
                k <= self.methods@.len(),
                forall|j: int|
                    0 <= j < k ==> {
                        &&& utf8_at(self.constant_pool@, #[trigger] self.methods@[j].name_index as int) is Some
                        &&& utf8_at(self.constant_pool@, self.methods@[j].descriptor_index as int) is Some
                    },
            decreases self.methods@.len() - k,
        {
            let m = &self.methods[k];
            if get_utf8_string(&self.constant_pool, m.name_index).is_none()
                || get_utf8_string(&self.constant_pool, m.descriptor_index).is_none() {
                return false;
            }
            k = k + 1;
        }
        true
    }

    pub fn get_class_name(&self) -> (s: String)
        requires
            self.wf(),
        ensures
            s@ == self.spec_class_name(),
    {
        match get_class_name(&self.constant_pool, self.this_class) {
            Some(s) => s,
            None => String::new(),
        }
    }

    pub fn get_super_class_name(&self) -> (s: String)
        requires
            self.wf(),
        ensures
            s@ == self.spec_super_class_name(),
    {
        if self.super_class == 0 {
            return String::new();
        }
        match get_class_name(&self.constant_pool, self.super_class) {
            Some(s) => s,
            None => String::new(),
        }
    }
}

} // verus!
