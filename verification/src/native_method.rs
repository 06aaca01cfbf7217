use vstd::prelude::*;
use crate::JvmValue;
use crate::heap::{Heap, RawPtr, read_u16, read_u64};
use crate::error::JvmError;
use crate::text::{
    chars_of, decimal, is_scalar_value, utf16_decode, u64_to_text, char_from_u32, push_char,
    string_from_utf16, concat, join3,
};

verus! {

/// One line that `System.out.println` prints. Floating-point values are kept
/// as their bits; they are turned into text where the line is printed.
#[derive(Debug)]
pub enum PrintItem {
    Text(String),
    Float(u32),
    Double(u64),
}

pub ghost enum PrintView {
    Text(Seq<char>),
    Float(u32),
    Double(u64),
}

impl View for PrintItem {
    type V = PrintView;

    open spec fn view(&self) -> PrintView {
        match self {
            PrintItem::Text(s) => PrintView::Text(s@),
            PrintItem::Float(b) => PrintView::Float(*b),
            PrintItem::Double(b) => PrintView::Double(*b),
        }
    }
}

/// What a native method gives back: its return value, if any, and the lines
/// it printed.
pub struct NativeResult {
    pub value: Option<JvmValue>,
    pub printed: Vec<PrintItem>,
}

/// A method implemented by the virtual machine itself rather than by bytecode.
pub trait NativeMethod {
    fn invoke(&self, args: Vec<JvmValue>, heap: &Heap) -> Result<NativeResult, JvmError>;
}

/// `System.out.println`.
pub struct SystemOutPrintln;

/// The code units of the `char[]` array at address `arr`: a length word 8
/// bytes after the header's start, then two bytes per character. `None` when
/// the array reaches past the end of memory.
pub open spec fn char_array_units(mem: Seq<u8>, arr: int) -> Option<Seq<u16>> {
    if arr + 16 > mem.len() {
        None
    } else {
        let length = read_u64(mem, arr + 8) as int;
        if arr + 16 + 2 * length > mem.len() {
            None
        } else {
            Some(Seq::new(length as nat, |i: int| read_u16(mem, arr + 16 + 2 * i)))
        }
    }
}

/// The text of a string object: its `value` field, 8 bytes after its start,
/// points to a `char[]` whose UTF-16 code units are decoded. `None` for a null
/// string, a null `value`, memory that runs out, or invalid UTF-16.
pub open spec fn string_content(mem: Seq<u8>, p: RawPtr) -> Option<Seq<char>> {
    if p.0 == 0 || p.0 + 16 > mem.len() {
        None
    } else {
        let arr = read_u64(mem, p.0 + 8);
        if arr == 0 {
            None
        } else {
            match char_array_units(mem, arr as int) {
                Some(units) => match utf16_decode(units) {
                    Some(cps) => Some(chars_of(cps)),
                    None => None,
                },
                None => None,
            }
        }
    }
}

/// How an object reference that is no string is printed.
pub open spec fn object_text(p: RawPtr) -> Seq<char> {
    "[Object: RawPtr("@ + decimal(p.0 as nat) + ")]"@
}

/// The line `System.out.println` prints for its arguments.
pub open spec fn println_line(args: Seq<JvmValue>, mem: Seq<u8>) -> PrintView {
    if args.len() == 0 {
        PrintView::Text(Seq::empty())
    } else {
        match args[0] {
            JvmValue::ObjRef(p) => match string_content(mem, p) {
                Some(s) => PrintView::Text(s),
                None => PrintView::Text(object_text(p)),
            },
            JvmValue::Int(v) => PrintView::Text(decimal(v as nat)),
            JvmValue::Long(v) => PrintView::Text(decimal(v as nat)),
            JvmValue::Float(v) => PrintView::Float(v as u32),
            JvmValue::Double(v) => PrintView::Double(v),
            JvmValue::Boolean(v) => PrintView::Text(decimal(v as nat)),
            JvmValue::Char(v) => if is_scalar_value(v as u32) {
                PrintView::Text(seq![(v as u32) as char])
            } else {
                PrintView::Text("[Invalid char: "@ + decimal(v as nat) + "]"@)
            },
            JvmValue::Null => PrintView::Text("null"@),
            _ => PrintView::Text("[Unsupported type]"@),
        }
    }
}

/// How a reference that is no string is printed.
pub fn object_text_of(p: RawPtr) -> (s: String)
    ensures
        s@ == object_text(p),
{
    let n = u64_to_text(p.0);
    join3("[Object: RawPtr(", n.as_str(), ")]")
}

impl NativeMethod for SystemOutPrintln {
    fn invoke(&self, args: Vec<JvmValue>, heap: &Heap) -> (r: Result<NativeResult, JvmError>)
        ensures
            r matches Ok(res) && res.value is None && res.printed@.len() == 1
                && res.printed@[0]@ == println_line(args@, heap.bytes()),
    {
        let line = println_text(&args, heap);
        let mut printed: Vec<PrintItem> = Vec::new();
        printed.push(line);
        Ok(NativeResult { value: None, printed })
    }
}

/// The line `System.out.println` prints for its arguments.
pub fn println_text(args: &Vec<JvmValue>, heap: &Heap) -> (line: PrintItem)
    ensures
        line@ == println_line(args@, heap.bytes()),
{
    proof {
        reveal_strlit("[Invalid char: ");
        reveal_strlit("]");
        reveal_strlit("null");
        reveal_strlit("[Unsupported type]");
    }
    if args.len() == 0 {
        return PrintItem::Text(String::new());
    }
    match args[0] {
        JvmValue::ObjRef(ptr) => match extract_string_content(heap, ptr) {
            Ok(s) => PrintItem::Text(s),
            Err(_) => PrintItem::Text(object_text_of(ptr)),
        },
        JvmValue::Int(value) => PrintItem::Text(u64_to_text(value as u64)),
        JvmValue::Long(value) => PrintItem::Text(u64_to_text(value)),
        JvmValue::Float(value) => PrintItem::Float(value as u32),
        JvmValue::Double(value) => PrintItem::Double(value),
        JvmValue::Boolean(value) => PrintItem::Text(u64_to_text(value as u64)),
        JvmValue::Char(value) => match char_from_u32(value as u32) {
            Some(ch) => {
                let mut s = String::new();
                push_char(&mut s, ch);
                assert(s@ =~= seq![(value as u32) as char]);
                PrintItem::Text(s)
            },
            None => {
                let n = u64_to_text(value as u64);
                PrintItem::Text(join3("[Invalid char: ", n.as_str(), "]"))
            },
        },
        JvmValue::Null => PrintItem::Text(String::from_str("null")),
        _ => PrintItem::Text(String::from_str("[Unsupported type]")),
    }
}

/// The text of a string object; fails with an `IllegalStateError` for null
/// ("Null pointer"), for a null `value` field, for memory that runs out and
/// for invalid UTF-16.
pub fn extract_string_content(heap: &Heap, ptr: RawPtr) -> (r: Result<String, JvmError>)
    ensures
        match string_content(heap.bytes(), ptr) {
            Some(s) => r matches Ok(t) && t@ == s,
            None => r matches Err(e) && e is IllegalStateError,
        },
        ptr.0 == 0 ==> (r matches Err(e) && e is IllegalStateError && e.message() == "Null pointer"@),
{
    if ptr.is_null() {
        return Err(JvmError::IllegalStateError(String::from_str("Null pointer")));
    }
    let len = heap.memory_len();
    if ptr.0 > len as u64 || len as u64 - ptr.0 < 16 {
        return Err(JvmError::IllegalStateError(String::from_str("Address out of bounds")));
    }
    let char_array_ptr = RawPtr(heap.read_u64(ptr.0 + 8));
    if char_array_ptr.is_null() {
        return Err(JvmError::IllegalStateError(String::from_str("String value field is null")));
    }
    extract_string_from_char_array(heap, char_array_ptr)
}

/// The text held by a `char[]` array.
fn extract_string_from_char_array(heap: &Heap, arr_ptr: RawPtr) -> (r: Result<String, JvmError>)
    requires
        arr_ptr.0 != 0,
    ensures
        match char_array_units(heap.bytes(), arr_ptr.0 as int) {
            Some(units) => match utf16_decode(units) {
                Some(cps) => r matches Ok(t) && t@ == chars_of(cps),
                None => r matches Err(e) && e is IllegalStateError,
            },
            None => r matches Err(e) && e is IllegalStateError,
        },
{
    let len = heap.memory_len();
    if arr_ptr.0 > len as u64 || len as u64 - arr_ptr.0 < 16 {
        return Err(JvmError::IllegalStateError(String::from_str("Address out of bounds")));
    }
    let ghost top: int = len as int;
    let length = heap.read_u64(arr_ptr.0 + 8);
    let room = len as u64 - arr_ptr.0 - 16;
    if length > room / 2 {
        return Err(JvmError::IllegalStateError(String::from_str("Address out of bounds")));
    }
    let ghost mem = heap.bytes();
    let mut chars: Vec<u16> = Vec::new();
    let mut i: u64 = 0;
    while i < length
        invariant
            mem == heap.bytes(),
            mem.len() == top,
            top <= u64::MAX,
            arr_ptr.0 + 16 + 2 * length <= mem.len(),
            i <= length,
            chars@ == Seq::new(i as nat, |k: int| read_u16(mem, arr_ptr.0 + 16 + 2 * k)),
        decreases length - i,
    {
        chars.push(heap.read_u16(arr_ptr.0 + 16 + i * 2));
        i = i + 1;
        assert(chars@ =~= Seq::new(i as nat, |k: int| read_u16(mem, arr_ptr.0 + 16 + 2 * k)));
    }
    match string_from_utf16(chars.as_slice()) {
        Some(s) => {
            Ok(s)
        },
        None => Err(JvmError::IllegalStateError(String::from_str("Invalid UTF-16 string"))),
    }
}

/// An entry of the native method registry: the built-in `println`, or a
/// method registered from outside.
pub enum NativeEntry<M> {
    SystemOut(SystemOutPrintln),
    Other(M),
}

/// Native methods by name, `class.method`. `M` is the type of the methods
/// registered besides the built-in `println`.
#[verifier::reject_recursive_types(M)]
pub struct NativeMethodRegistry<M = SystemOutPrintln> {
    methods: vstd::hash_map::StringHashMap<NativeEntry<M>>,
}

impl<M: NativeMethod> NativeMethodRegistry<M> {
    /// The registered names, each with whether it is the built-in `println`.
    pub closed spec fn entries(&self) -> Map<Seq<char>, bool> {
        Map::new(
            |k: Seq<char>| self.methods@.contains_key(k),
            |k: Seq<char>| self.methods@[k] is SystemOut,
        )
    }

    /// The registered methods by name.
    pub closed spec fn methods(&self) -> Map<Seq<char>, NativeEntry<M>> {
        self.methods@
    }

    /// `entries` says of each registered name whether it holds the built-in
    /// `println`.
    pub proof fn lemma_entries(&self)
        ensures
            self.entries().dom() == self.methods().dom(),
            forall|k: Seq<char>| #[trigger] self.methods().contains_key(k) ==> self.entries()[k] == (self.methods()[k] is SystemOut),
    {
        assert(self.entries().dom() =~= self.methods().dom());
    }

    /// A registry holding the built-in `java/lang/System.out.println`.
    pub fn new() -> (r: Self)
        ensures
            r.entries() == Map::<Seq<char>, bool>::empty().insert("java/lang/System.out.println"@, true),
            r.methods() == Map::<Seq<char>, NativeEntry<M>>::empty().insert(
                "java/lang/System.out.println"@,
                NativeEntry::SystemOut(SystemOutPrintln),
            ),
    {
        let mut registry = NativeMethodRegistry { methods: vstd::hash_map::StringHashMap::new() };
        registry.methods.insert(
            String::from_str("java/lang/System.out.println"),
            NativeEntry::SystemOut(SystemOutPrintln),
        );
        assert(registry.methods() =~= Map::<Seq<char>, NativeEntry<M>>::empty().insert(
            "java/lang/System.out.println"@,
            NativeEntry::SystemOut(SystemOutPrintln),
        ));
        assert(registry.entries() =~= Map::<Seq<char>, bool>::empty().insert(
            "java/lang/System.out.println"@,
            true,
        ));
        registry
    }

    /// Registers a method under a name, replacing what was there.
    pub fn register(&mut self, name: &str, method: M)
        ensures
            final(self).entries() == old(self).entries().insert(name@, false),
            final(self).methods() == old(self).methods().insert(name@, NativeEntry::Other(method)),
    {
        let ghost before = self.entries();
        self.methods.insert(String::from_str(name), NativeEntry::Other(method));
        assert(self.entries() =~= before.insert(name@, false));
    }

    /// The method registered under a name.
    pub fn get(&self, name: &str) -> (r: Option<&NativeEntry<M>>)
        ensures
            match r {
                Some(e) => self.entries().contains_key(name@) && self.entries()[name@] == (*e is SystemOut),
                None => !self.entries().contains_key(name@),
            },
            match r {
                Some(e) => self.methods().contains_key(name@) && *e == self.methods()[name@],
                None => !self.methods().contains_key(name@),
            },
    {
        self.methods.get(name)
    }
}

} // verus!
