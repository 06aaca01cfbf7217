use vstd::prelude::*;
use crate::JvmValue;
use crate::heap::RawPtr;
use crate::jvm_thread::{Frame, FrameView};
use crate::native_method::{PrintItem, PrintView};
use crate::text::{count_leading, decimal, u64_to_text, str_eq, starts_with, char_len, char_at, slice_chars};

verus! {

/// Whether a character names a primitive parameter type.
pub open spec fn is_primitive_letter(c: char) -> bool {
    c == 'B' || c == 'C' || c == 'D' || c == 'F' || c == 'I' || c == 'J' || c == 'S' || c == 'Z'
}

/// The position of the first `;` in `s`, or of its last character when it
/// has none.
pub open spec fn type_end(s: Seq<char>) -> int
    decreases s.len(),
{
    if s.len() <= 1 || s[0] == ';' {
        0
    } else {
        1 + type_end(s.drop_first())
    }
}

/// The parameter types listed at the start of `s`, up to `)`: each is a
/// run of `[` followed by a primitive letter or by `L...;`. A character that
/// starts no type is skipped together with the `[`s before it.
pub open spec fn parse_params(s: Seq<char>) -> Seq<Seq<char>>
    decreases s.len(),
{
    if s.len() == 0 || s[0] == ')' {
        Seq::empty()
    } else {
        let n = count_leading(s, '[') as int;
        if n >= s.len() {
            Seq::empty()
        } else if s[n] == 'L' {
            proof {
                lemma_type_end(s.subrange(n, s.len() as int));
            }
            let e = n + type_end(s.subrange(n, s.len() as int)) + 1;
            seq![s.subrange(0, e)] + parse_params(s.subrange(e, s.len() as int))
        } else if is_primitive_letter(s[n]) {
            seq![s.subrange(0, n + 1)] + parse_params(s.subrange(n + 1, s.len() as int))
        } else {
            parse_params(s.subrange(n + 1, s.len() as int))
        }
    }
}

/// The parameter types of a method descriptor; none when it does not start
/// with `(`.
pub open spec fn descriptor_params(d: Seq<char>) -> Seq<Seq<char>> {
    if d.len() == 0 || d[0] != '(' {
        Seq::empty()
    } else {
        parse_params(d.drop_first())
    }
}

pub proof fn lemma_count_leading_bound(s: Seq<char>, c: char)
    ensures
        count_leading(s, c) <= s.len(),
        forall|j: int| 0 <= j < count_leading(s, c) ==> s[j] == c,
        count_leading(s, c) < s.len() ==> s[count_leading(s, c) as int] != c,
    decreases s.len(),
{
    if s.len() > 0 && s[0] == c {
        lemma_count_leading_bound(s.drop_first(), c);
        assert forall|j: int| 0 <= j < count_leading(s, c) implies s[j] == c by {
            if j > 0 {
                assert(s[j] == s.drop_first()[j - 1]);
            }
        }
    }
}

pub proof fn lemma_type_end(s: Seq<char>)
    requires
        s.len() > 0,
    ensures
        0 <= type_end(s) < s.len(),
        forall|j: int| 0 <= j < type_end(s) ==> s[j] != ';',
        s[type_end(s)] == ';' || type_end(s) == s.len() - 1,
    decreases s.len(),
{
    if s.len() > 1 && s[0] != ';' {
        lemma_type_end(s.drop_first());
        assert forall|j: int| 0 <= j < type_end(s) implies s[j] != ';' by {
            if j > 0 {
                assert(s[j] == s.drop_first()[j - 1]);
            }
        }
    }
}

/// Reads the parameter type that starts at position `i` of a descriptor:
/// the type, if one starts there, and where the next one starts.
fn parse_one(descriptor: &str, i: usize, len: usize) -> (r: (Option<String>, usize))
    requires
        len == descriptor@.len(),
        1 <= i < len,
        descriptor@[i as int] != ')',
    ensures
        i < r.1 <= len,
        parse_params(descriptor@.subrange(i as int, len as int)) == (match r.0 {
            Some(t) => seq![t@] + parse_params(descriptor@.subrange(r.1 as int, len as int)),
            None => parse_params(descriptor@.subrange(r.1 as int, len as int)),
        }),
{
    let ghost s = descriptor@.subrange(i as int, len as int);
    let mut j = i;
    while j < len && char_at(descriptor, j) == '['
        invariant
            len == descriptor@.len(),
            i <= j <= len,
            forall|k: int| i <= k < j ==> descriptor@[k] == '[',
        decreases len - j,
    {
        j = j + 1;
    }
    proof {
        lemma_count_leading_bound(s, '[');
        let n = count_leading(s, '[') as int;
        assert forall|k: int| 0 <= k < j - i implies s[k] == '[' by {}
        if n < j - i {
            assert(s[n] == '[');
        }
        if j - i < n {
            assert(s[j - i] == '[');
        }
        assert(n == j - i);
    }
    if j >= len {
        proof {
            assert(descriptor@.subrange(len as int, len as int) =~= Seq::<char>::empty());
        }
        return (None, len);
    }
    let c = char_at(descriptor, j);
    if c == 'L' {
        let mut k = j;
        while k + 1 < len && char_at(descriptor, k) != ';'
            invariant
                len == descriptor@.len(),
                j <= k < len,
                forall|m: int| j <= m < k ==> descriptor@[m] != ';',
            decreases len - k,
        {
            k = k + 1;
        }
        proof {
            let rest = s.subrange(j - i, s.len() as int);
            lemma_type_end(rest);
            let t = type_end(rest);
            assert forall|m: int| 0 <= m < k - j implies rest[m] != ';' by {
                assert(rest[m] == descriptor@[j + m]);
            }
            if t < k - j {
                assert(rest[t] != ';');
                assert(t == rest.len() - 1);
            }
            if k - j < t {
                assert(rest[k - j] == descriptor@[k as int]);
                assert(rest[k - j] != ';');
            }
            assert(t == k - j);
            let e = (k + 1 - i) as int;
            assert(s.subrange(0, e) =~= descriptor@.subrange(i as int, k + 1));
            assert(s.subrange(e, s.len() as int) =~= descriptor@.subrange(k + 1, len as int));
        }
        let t = slice_chars(descriptor, i, k + 1);
        (Some(t), k + 1)
    } else if c == 'B' || c == 'C' || c == 'D' || c == 'F' || c == 'I' || c == 'J' || c == 'S' || c == 'Z' {
        proof {
            let e = (j + 1 - i) as int;
            assert(s.subrange(0, e) =~= descriptor@.subrange(i as int, j + 1));
            assert(s.subrange(e, s.len() as int) =~= descriptor@.subrange(j + 1, len as int));
        }
        let t = slice_chars(descriptor, i, j + 1);
        (Some(t), j + 1)
    } else {
        proof {
            let e = (j + 1 - i) as int;
            assert(s.subrange(e, s.len() as int) =~= descriptor@.subrange(j + 1, len as int));
        }
        (None, j + 1)
    }
}

/// The parameter types of a method descriptor, in order.
pub fn parse_method_descriptor(descriptor: &str) -> (r: Vec<String>)
    ensures
        r@.map_values(|t: String| t@) == descriptor_params(descriptor@),
{
    let mut param_types: Vec<String> = Vec::new();
    let len = char_len(descriptor);
    if len == 0 || char_at(descriptor, 0) != '(' {
        assert(param_types@.map_values(|t: String| t@) =~= Seq::<Seq<char>>::empty());
        return param_types;
    }
    let ghost whole = descriptor@.drop_first();
    let mut i: usize = 1;
    assert(descriptor@.subrange(1, len as int) =~= whole);
    assert(param_types@.map_values(|t: String| t@) =~= Seq::<Seq<char>>::empty());
    assert(Seq::<Seq<char>>::empty() + parse_params(whole) =~= parse_params(whole));
    while i < len && char_at(descriptor, i) != ')'
        invariant
            len == descriptor@.len(),
            1 <= i <= len,
            whole == descriptor@.drop_first(),
            param_types@.map_values(|t: String| t@) + parse_params(descriptor@.subrange(i as int, len as int))
                == parse_params(whole),
        decreases len - i,
    {
        let ghost before = param_types@.map_values(|t: String| t@);
        let (t, next) = parse_one(descriptor, i, len);
        match t {
            Some(t) => {
                let ghost tv = t@;
                param_types.push(t);
                assert(param_types@.map_values(|t: String| t@) =~= before.push(tv));
                assert(before.push(tv) + parse_params(descriptor@.subrange(next as int, len as int)) =~= before + (
                seq![tv] + parse_params(descriptor@.subrange(next as int, len as int))));
            },
            None => {},
        }
        i = next;
    }
    proof {
        let s = descriptor@.subrange(i as int, len as int);
        assert(s.len() == 0 || s[0] == ')');
        assert(parse_params(s) =~= Seq::<Seq<char>>::empty());
        assert(param_types@.map_values(|t: String| t@) + parse_params(s) =~= param_types@.map_values(
            |t: String| t@,
        ));
    }
    param_types
}

/// The 64-bit value whose high and low halves are the bits of two ints.
pub open spec fn long_bits(high: i32, low: i32) -> u64 {
    ((high as u32) as u64 * 0x1_0000_0000 + (low as u32) as u64) as u64
}

/// The argument of type `t` taken off a frame's stacks, and the frame
/// left: a missing int reads as 0 and a missing reference as null.
pub open spec fn pop_one(f: FrameView, t: Seq<char>) -> (JvmValue, FrameView) {
    if t == "I"@ || t == "S"@ || t == "B"@ || t == "Z"@ {
        if f.ints.len() > 0 {
            (JvmValue::Int(f.top_int() as u32), f.pop_int())
        } else {
            (JvmValue::Int(0), f)
        }
    } else if t == "J"@ || t == "D"@ {
        let (bits, g) = if f.ints.len() > 0 {
            let f1 = f.pop_int();
            if f1.ints.len() > 0 {
                (long_bits(f1.top_int(), f.top_int()), f1.pop_int())
            } else {
                (long_bits(0, f.top_int()), f1)
            }
        } else {
            (0u64, f)
        };
        (if t == "J"@ { JvmValue::Long(bits) } else { JvmValue::Double(bits) }, g)
    } else if t == "F"@ {
        if f.ints.len() > 0 {
            (JvmValue::Float(f.top_int() as u64), f.pop_int())
        } else {
            (JvmValue::Float(0), f)
        }
    } else if t.len() > 0 && (t[0] == 'L' || t[0] == '[') {
        if f.refs.len() > 0 {
            (JvmValue::ObjRef(f.top_ref()), f.pop_ref())
        } else {
            (JvmValue::Null, f)
        }
    } else {
        (JvmValue::Null, f)
    }
}

/// The arguments of the given types taken off a frame, the last one first,
/// in declaration order, and the frame left.
pub open spec fn pop_args(f: FrameView, types: Seq<Seq<char>>) -> (Seq<JvmValue>, FrameView)
    decreases types.len(),
{
    if types.len() == 0 {
        (Seq::empty(), f)
    } else {
        let (v, f1) = pop_one(f, types.last());
        let (vs, f2) = pop_args(f1, types.drop_last());
        (vs.push(v), f2)
    }
}

/// Takes one argument of type `t` off the frame.
fn pop_argument(frame: &mut Frame, t: &str) -> (v: JvmValue)
    ensures
        (v, final(frame)@) == pop_one(old(frame)@, t@),
{
    proof {
        reveal_strlit("I");
        reveal_strlit("S");
        reveal_strlit("B");
        reveal_strlit("Z");
        reveal_strlit("J");
        reveal_strlit("D");
        reveal_strlit("F");
        reveal_strlit("L");
        reveal_strlit("[");
        if t@.len() > 0 && t@[0] == 'L' {
            assert(t@.subrange(0, 1) =~= "L"@);
        }
        if t@.len() > 0 && t@[0] == '[' {
            assert(t@.subrange(0, 1) =~= "["@);
        }
    }
    if str_eq(t, "I") || str_eq(t, "S") || str_eq(t, "B") || str_eq(t, "Z") {
        if !frame.stack.is_values_empty() {
            JvmValue::Int(frame.stack.pop_int() as u32)
        } else {
            JvmValue::Int(0)
        }
    } else if str_eq(t, "J") || str_eq(t, "D") {
        let bits: u64 = if !frame.stack.is_values_empty() {
            let low = frame.stack.pop_int();
            let high: i32 = if !frame.stack.is_values_empty() {
                frame.stack.pop_int()
            } else {
                0
            };
            (high as u32) as u64 * 0x1_0000_0000 + (low as u32) as u64
        } else {
            0
        };
        if str_eq(t, "J") {
            JvmValue::Long(bits)
        } else {
            JvmValue::Double(bits)
        }
    } else if str_eq(t, "F") {
        if !frame.stack.is_values_empty() {
            JvmValue::Float(frame.stack.pop_int() as u64)
        } else {
            JvmValue::Float(0)
        }
    } else if starts_with(t, "L") || starts_with(t, "[") {
        proof {
            reveal_strlit("L");
            reveal_strlit("[");
            assert(t@.subrange(0, 1)[0] == t@[0]);
        }
        if !frame.stack.is_obj_refs_empty() {
            JvmValue::ObjRef(frame.stack.pop_obj_ref())
        } else {
            JvmValue::Null
        }
    } else {
        proof {
            reveal_strlit("L");
            reveal_strlit("[");
        }
        JvmValue::Null
    }
}

/// Takes the arguments of the given types off the frame, the last one
/// first, and gives them in declaration order.
pub fn pop_arguments(frame: &mut Frame, param_types: &[String]) -> (args: Vec<JvmValue>)
    ensures
        (args@, final(frame)@) == pop_args(old(frame)@, param_types@.map_values(|t: String| t@)),
{
    let ghost types = param_types@.map_values(|t: String| t@);
    let ghost f0 = frame@;
    let mut args: Vec<JvmValue> = Vec::new();
    let mut k = param_types.len();
    assert(types.take(k as int) =~= types);
    assert(pop_args(frame@, types.take(k as int)).0 + args@ =~= pop_args(f0, types).0);
    while k > 0
        invariant
            k <= param_types@.len(),
            types == param_types@.map_values(|t: String| t@),
            pop_args(f0, types) == (pop_args(frame@, types.take(k as int)).0 + args@, pop_args(
                frame@,
                types.take(k as int),
            ).1),
        decreases k,
    {
        let ghost fk = frame@;
        let ghost tail = args@;
        let v = pop_argument(frame, param_types[k - 1].as_str());
        args.insert(0, v);
        proof {
            let t = types.take(k as int);
            assert(t.drop_last() =~= types.take(k - 1));
            assert(t.last() == param_types@[k - 1]@);
            assert(args@ =~= seq![v] + tail);
            assert(pop_args(fk, t).0 =~= pop_args(frame@, types.take(k - 1)).0.push(v));
            assert(pop_args(fk, t).0 + tail =~= pop_args(frame@, types.take(k - 1)).0 + args@);
        }
        k = k - 1;
    }
    proof {
        assert(types.take(0) =~= Seq::<Seq<char>>::empty());
        assert(pop_args(frame@, types.take(0)).0 + args@ =~= args@);
    }
    args
}

/// The stacks after pushing a method's return value: an int for `Int`,
/// `Float` and the types with no case of their own; the high then the low
/// half for `Long` and `Double`; a reference for `ObjRef`, address 0 for
/// `Null`; nothing for no value.
pub open spec fn push_result(f: FrameView, v: Option<JvmValue>) -> FrameView {
    match v {
        None => f,
        Some(JvmValue::Int(x)) => f.push_int(x as i32),
        Some(JvmValue::Long(x)) => f.push_int((x / 0x1_0000_0000) as i32).push_int((x % 0x1_0000_0000) as i32),
        Some(JvmValue::Float(x)) => f.push_int(x as i32),
        Some(JvmValue::Double(x)) => f.push_int((x / 0x1_0000_0000) as i32).push_int((x % 0x1_0000_0000) as i32),
        Some(JvmValue::ObjRef(p)) => f.push_ref(p),
        Some(JvmValue::Null) => f.push_ref(RawPtr(0)),
        Some(_) => f.push_int(0),
    }
}

/// Whether the stacks have room for a return value.
pub open spec fn result_fits(f: FrameView, v: Option<JvmValue>) -> bool {
    match v {
        None => true,
        Some(JvmValue::Long(_)) | Some(JvmValue::Double(_)) => f.int_room(2),
        Some(JvmValue::ObjRef(_)) | Some(JvmValue::Null) => f.ref_room(1),
        Some(_) => f.int_room(1),
    }
}

/// Pushes a method's return value onto the frame.
pub fn push_return_value(frame: &mut Frame, return_value: Option<JvmValue>)
    requires
        result_fits(old(frame)@, return_value),
    ensures
        final(frame)@ == push_result(old(frame)@, return_value),
{
    match return_value {
        None => {},
        Some(value) => match value {
            JvmValue::Int(v) => frame.stack.push_int(v as i32),
            JvmValue::Long(v) => {
                frame.stack.push_int((v / 0x1_0000_0000) as i32);
                frame.stack.push_int((v % 0x1_0000_0000) as i32);
            },
            JvmValue::Float(v) => frame.stack.push_int(v as i32),
            JvmValue::Double(v) => {
                frame.stack.push_int((v / 0x1_0000_0000) as i32);
                frame.stack.push_int((v % 0x1_0000_0000) as i32);
            },
            JvmValue::ObjRef(ptr) => frame.stack.push_obj_ref(ptr),
            JvmValue::Null => frame.stack.push_obj_ref(RawPtr(0)),
            _ => frame.stack.push_int(0),
        },
    }
}

/// The line printed for a `PrintStream.println` handled directly.
pub open spec fn special_println_text(args: Seq<JvmValue>) -> Seq<char> {
    if args.len() == 0 {
        Seq::empty()
    } else {
        match args[0] {
            JvmValue::Null => "null"@,
            JvmValue::Int(v) => decimal(v as nat),
            JvmValue::Long(v) => decimal(v as nat),
            JvmValue::Boolean(v) => if v != 0 { "true"@ } else { "false"@ },
            JvmValue::ObjRef(p) => if p.0 == 0 { "null"@ } else { "[Object]"@ },
            _ => "[Unsupported type]"@,
        }
    }
}

/// Handles the calls the virtual machine answers itself:
/// `java/io/PrintStream.println`, which adds its line to `printed`, and
/// `java/lang/System.currentTimeMillis`, which pushes the high then the low
/// half of `now_millis`. Any other call is left alone (`None`).
pub fn handle_special_method_call(
    class_name: &str,
    method_name: &str,
    args: &[JvmValue],
    frame: &mut Frame,
    now_millis: u64,
    printed: &mut Vec<PrintItem>,
) -> (r: Option<bool>)
    requires
        class_name@ == "java/lang/System"@ && method_name@ == "currentTimeMillis"@ ==> old(frame)@.int_room(2),
    ensures
        class_name@ == "java/io/PrintStream"@ && method_name@ == "println"@ ==> {
            &&& r == Some(true)
            &&& final(frame)@ == old(frame)@
            &&& final(printed)@.map_values(|p: PrintItem| p@) == old(printed)@.map_values(|p: PrintItem| p@).push(
                PrintView::Text(special_println_text(args@)),
            )
        },
        class_name@ == "java/lang/System"@ && method_name@ == "currentTimeMillis"@ ==> {
            &&& r == Some(true)
            &&& final(frame)@ == old(frame)@.push_int((now_millis / 0x1_0000_0000) as i32).push_int(
                (now_millis % 0x1_0000_0000) as i32,
            )
            &&& final(printed)@ == old(printed)@
        },
        !(class_name@ == "java/io/PrintStream"@ && method_name@ == "println"@) && !(class_name@
            == "java/lang/System"@ && method_name@ == "currentTimeMillis"@) ==> {
            &&& r is None
            &&& final(frame)@ == old(frame)@
            &&& final(printed)@ == old(printed)@
        },
{
    proof {
        reveal_strlit("java/io/PrintStream");
        reveal_strlit("println");
        reveal_strlit("java/lang/System");
        reveal_strlit("currentTimeMillis");
        reveal_strlit("null");
        reveal_strlit("true");
        reveal_strlit("false");
        reveal_strlit("[Object]");
        reveal_strlit("[Unsupported type]");
    }
    if str_eq(class_name, "java/io/PrintStream") && str_eq(method_name, "println") {
        let line = if args.len() == 0 {
            String::new()
        } else {
            match args[0] {
                JvmValue::Null => String::from_str("null"),
                JvmValue::Int(v) => u64_to_text(v as u64),
                JvmValue::Long(v) => u64_to_text(v),
                JvmValue::Boolean(v) => if v != 0 {
                    String::from_str("true")
                } else {
                    String::from_str("false")
                },
                JvmValue::ObjRef(ptr) => if ptr.0 == 0 {
                    String::from_str("null")
                } else {
                    String::from_str("[Object]")
                },
                _ => String::from_str("[Unsupported type]"),
            }
        };
        let ghost before = printed@.map_values(|p: PrintItem| p@);
        printed.push(PrintItem::Text(line));
        assert(printed@.map_values(|p: PrintItem| p@) =~= before.push(PrintView::Text(special_println_text(args@))));
        assert("java/io/PrintStream"@.len() == 19);
        assert("java/lang/System"@.len() == 16);
        assert(class_name@ != "java/lang/System"@);
        Some(true)
    } else if str_eq(class_name, "java/lang/System") && str_eq(method_name, "currentTimeMillis") {
        let hi = (now_millis / 0x1_0000_0000) as i32;
        let lo = (now_millis % 0x1_0000_0000) as i32;
        let ghost f0 = frame@;
        frame.stack.push_int(hi);
        frame.stack.push_int(lo);
        assert(frame@.ints =~= f0.ints.push(hi).push(lo));
        assert(frame@ == f0.push_int(hi).push_int(lo));
        assert(hi == (now_millis / 0x1_0000_0000) as i32);
        assert(lo == (now_millis % 0x1_0000_0000) as i32);
        Some(true)
    } else {
        None
    }
}

/// Taking arguments off a frame only pops: the stacks shrink and the rest
/// of the frame stays.
pub proof fn lemma_pop_args_shrinks(f: FrameView, types: Seq<Seq<char>>)
    ensures
        pop_args(f, types).1.ints.len() <= f.ints.len(),
        pop_args(f, types).1.refs.len() <= f.refs.len(),
        pop_args(f, types).1.cap == f.cap,
        pop_args(f, types).1.pc == f.pc,
        pop_args(f, types).1.locals == f.locals,
        pop_args(f, types).1.method == f.method,
    decreases types.len(),
{
    if types.len() > 0 {
        let (v, f1) = pop_one(f, types.last());
        lemma_pop_args_shrinks(f1, types.drop_last());
    }
}

/// Whether the frame has room for a return value.
pub fn result_room(frame: &Frame, v: Option<JvmValue>) -> (b: bool)
    requires
        frame@.bounded(),
    ensures
        b == result_fits(frame@, v),
{
    match v {
        None => true,
        Some(JvmValue::Long(_)) | Some(JvmValue::Double(_)) => frame.stack.values_len() < frame.stack.max_size() && frame.stack.max_size() - frame.stack.values_len() >= 2,
        Some(JvmValue::ObjRef(_)) | Some(JvmValue::Null) => frame.stack.obj_refs_len() < frame.stack.max_size(),
        Some(_) => frame.stack.values_len() < frame.stack.max_size(),
    }
}

/// A copy of a list of values.
pub fn copy_values(v: &Vec<JvmValue>) -> (r: Vec<JvmValue>)
    ensures
        r@ == v@,
{
    let mut r: Vec<JvmValue> = Vec::new();
    let mut i: usize = 0;
    while i < v.len()
        invariant
            i <= v@.len(),
            r@ == v@.subrange(0, i as int),
        decreases v@.len() - i,
    {
        r.push(v[i]);
        i = i + 1;
        assert(r@ =~= v@.subrange(0, i as int));
    }
    assert(v@.subrange(0, i as int) =~= v@);
    r
}

} // verus!

verus! {

/// A return value pushed and then taken off again as an argument of its
/// own type gives back the value and the stacks as they were: an `int`
/// (`I`), a `long` (`J`), a `double` (`D`) or a reference (`L...` or
/// `[...`).
pub proof fn law_pushed_result_pops_back(f: FrameView, v: JvmValue, t: Seq<char>)
    requires
        (v is Int && t == "I"@) || (v is Long && t == "J"@) || (v is Double && t == "D"@) || (v is ObjRef && t.len()
            > 0 && (t[0] == 'L' || t[0] == '[')),
    ensures
        pop_args(push_result(f, Some(v)), seq![t]) == (seq![v], f),
{
    reveal_strlit("I");
    reveal_strlit("S");
    reveal_strlit("B");
    reveal_strlit("Z");
    reveal_strlit("J");
    reveal_strlit("D");
    reveal_strlit("F");
    reveal_with_fuel(pop_args, 2);
    let g = push_result(f, Some(v));
    assert(seq![t].last() == t);
    assert(seq![t].drop_last() =~= Seq::<Seq<char>>::empty());
    match v {
        JvmValue::Int(x) => {
            assert(((x as i32) as u32) == x) by (bit_vector);
            assert(g.ints.drop_last() =~= f.ints);
            assert(g.pop_int() == f);
            assert(pop_one(g, t) == (v, f));
        },
        JvmValue::Long(x) => {
            let hi = (x / 0x1_0000_0000) as i32;
            let lo = (x % 0x1_0000_0000) as i32;
            assert(((hi as u32) as u64 * 0x1_0000_0000 + (lo as u32) as u64) as u64 == x) by (bit_vector)
                requires
                    hi == (x / 0x1_0000_0000) as i32,
                    lo == (x % 0x1_0000_0000) as i32,
            ;
            assert(g.ints.drop_last().drop_last() =~= f.ints);
            assert(g.pop_int().pop_int() == f);
            assert(g.pop_int().top_int() == hi && g.top_int() == lo);
            assert(long_bits(hi, lo) == x);
            assert(t != "I"@ && t != "S"@ && t != "B"@ && t != "Z"@) by {
                assert(t[0] != "I"@[0] && t[0] != "S"@[0] && t[0] != "B"@[0] && t[0] != "Z"@[0]);
            }
            assert(pop_one(g, t) == (v, f));
        },
        JvmValue::Double(x) => {
            let hi = (x / 0x1_0000_0000) as i32;
            let lo = (x % 0x1_0000_0000) as i32;
            assert(((hi as u32) as u64 * 0x1_0000_0000 + (lo as u32) as u64) as u64 == x) by (bit_vector)
                requires
                    hi == (x / 0x1_0000_0000) as i32,
                    lo == (x % 0x1_0000_0000) as i32,
            ;
            assert(g.ints.drop_last().drop_last() =~= f.ints);
            assert(g.pop_int().pop_int() == f);
            assert(g.pop_int().top_int() == hi && g.top_int() == lo);
            assert(long_bits(hi, lo) == x);
            assert(t != "I"@ && t != "S"@ && t != "B"@ && t != "Z"@) by {
                assert(t[0] != "I"@[0] && t[0] != "S"@[0] && t[0] != "B"@[0] && t[0] != "Z"@[0]);
            }
            assert(pop_one(g, t) == (v, f));
        },
        JvmValue::ObjRef(p) => {
            assert(t != "I"@ && t != "S"@ && t != "B"@ && t != "Z"@ && t != "J"@ && t != "D"@ && t != "F"@) by {
                assert("I"@[0] == 'I');
                assert("S"@[0] == 'S');
                assert("B"@[0] == 'B');
                assert("Z"@[0] == 'Z');
                assert("J"@[0] == 'J');
                assert("D"@[0] == 'D');
                assert("F"@[0] == 'F');
            }
            assert(g.refs.drop_last() =~= f.refs);
            assert(g.pop_ref() == f);
            assert(pop_one(g, t) == (v, f));
        },
        _ => {},
    }
    assert(pop_args(f, seq![t].drop_last()) == (Seq::<JvmValue>::empty(), f));
    assert(Seq::<JvmValue>::empty().push(v) =~= seq![v]);
}

} // verus!

verus! {

/// Whether `c` is one of the letters `B C D F I J S Z`.
pub open spec fn base_type_letter(c: char) -> bool {
    ||| c == 'B'
    ||| c == 'C'
    ||| c == 'D'
    ||| c == 'F'
    ||| c == 'I'
    ||| c == 'J'
    ||| c == 'S'
    ||| c == 'Z'
}

proof fn lemma_letters_parse(p: Seq<char>, tail: Seq<char>)
    requires
        forall|i: int| 0 <= i < p.len() ==> base_type_letter(#[trigger] p[i]),
        tail.len() > 0,
        tail[0] == ')',
    ensures
        parse_params(p + tail).len() == p.len(),
        forall|i: int| 0 <= i < p.len() ==> #[trigger] parse_params(p + tail)[i] == seq![p[i]],
    decreases p.len(),
{
    let s = p + tail;
    if p.len() == 0 {
        assert(s =~= tail);
    } else {
        assert(s[0] == p[0]);
        assert(base_type_letter(p[0]));
        assert(count_leading(s, '[') == 0);
        let rest = p.drop_first();
        assert(s.subrange(1, s.len() as int) =~= rest + tail);
        assert(s.subrange(0, 1) =~= seq![p[0]]);
        assert forall|i: int| 0 <= i < rest.len() implies base_type_letter(#[trigger] rest[i]) by {
            assert(rest[i] == p[i + 1]);
        }
        lemma_letters_parse(rest, tail);
        let r = parse_params(s);
        assert(r == seq![seq![p[0]]] + parse_params(rest + tail));
        assert forall|i: int| 0 <= i < p.len() implies #[trigger] parse_params(p + tail)[i] == seq![p[i]] by {
            if i > 0 {
                assert(parse_params(rest + tail)[i - 1] == seq![rest[i - 1]]);
            }
        }
    }
}

/// A descriptor whose parameter list is made of the letters `B C D F I J S
/// Z` alone has one parameter type per letter, in order, each that letter:
/// `(JI)V` has `J` and then `I`.
pub proof fn law_base_type_letters_each_give_a_parameter(p: Seq<char>, ret: Seq<char>)
    requires
        forall|i: int| 0 <= i < p.len() ==> base_type_letter(#[trigger] p[i]),
    ensures
        descriptor_params(seq!['('] + p + seq![')'] + ret).len() == p.len(),
        forall|i: int|
            0 <= i < p.len() ==> #[trigger] descriptor_params(seq!['('] + p + seq![')'] + ret)[i] == seq![p[i]],
{
    let d = seq!['('] + p + seq![')'] + ret;
    let tail = seq![')'] + ret;
    assert(d.drop_first() =~= p + tail);
    lemma_letters_parse(p, tail);
}

} // verus!
