use vstd::prelude::*;
use crate::JvmValue;
use crate::classfile::{ClassFile, CpInfo, copy_pool, fieldref_at, get_fieldref_info};
use crate::field::{Field, FieldView, field_view_of, fq_key, descriptor_default};
use crate::method::{Method, MethodView, method_view_of};
use crate::heap::Heap;
use crate::text::{join3, str_eq, char_len};
use crate::vm::Vm;
use crate::class_loader::resolve_class;

verus! {

#[derive(Clone, Copy, Debug, PartialEq, Eq, Structural)]
pub enum ClassState {
    LOADED,
}

/// The element type of an array class.
#[derive(Debug)]
pub enum ComponentType {
    Void,
    Byte,
    Boolean,
    Char,
    Short,
    Int,
    Float,
    Long,
    Double,
    Object(Box<InstanceKlass>),
    Array(Box<ArrayKlass>),
}

/// A loaded class: an ordinary class or an array class.
#[derive(Debug)]
pub enum Klass {
    Instance(InstanceKlass),
    Array(ArrayKlass),
}

/// An ordinary class, with its methods and fields.
#[derive(Debug)]
pub struct InstanceKlass {
    pub(crate) class_id: usize,
    pub(crate) class_name: String,
    pub(crate) class_state: ClassState,
    pub(crate) super_class: String,
    methods: Vec<Method>,
    i_fields: Vec<Field>,
    s_fields: Vec<Field>,
    s_field_val: Vec<JvmValue>,
    /// Member key to position in `s_fields` or `i_fields`, in the order
    /// the class declares its fields; a later entry hides an earlier one.
    f_name_desc_lookup: Vec<(String, usize)>,
    cp: Vec<CpInfo>,
}

/// An array class.
#[derive(Debug)]
pub struct ArrayKlass {
    pub(crate) class_id: usize,
    pub(crate) dimension: usize,
    pub(crate) component_type: ComponentType,
}

pub ghost struct InstanceKlassView {
    pub class_id: usize,
    pub class_name: Seq<char>,
    pub super_class: Seq<char>,
    pub methods: Seq<MethodView>,
    pub i_fields: Seq<FieldView>,
    pub s_fields: Seq<FieldView>,
    pub s_field_val: Seq<JvmValue>,
    pub f_lookup: Seq<(Seq<char>, usize)>,
    pub cp: Seq<CpInfo>,
}

impl View for InstanceKlass {
    type V = InstanceKlassView;

    closed spec fn view(&self) -> InstanceKlassView {
        InstanceKlassView {
            class_id: self.class_id,
            class_name: self.class_name@,
            super_class: self.super_class@,
            methods: self.methods@.map_values(|m: Method| m@),
            i_fields: self.i_fields@.map_values(|f: Field| f@),
            s_fields: self.s_fields@.map_values(|f: Field| f@),
            s_field_val: self.s_field_val@,
            f_lookup: self.f_name_desc_lookup@.map_values(|e: (String, usize)| (e.0@, e.1)),
            cp: self.cp@,
        }
    }
}

/// The position of the last entry of a lookup list whose key is `key`.
pub open spec fn last_with_key(l: Seq<(Seq<char>, usize)>, key: Seq<char>) -> Option<int>
    decreases l.len(),
{
    if l.len() == 0 {
        None
    } else if l.last().0 == key {
        Some(l.len() - 1)
    } else {
        last_with_key(l.drop_last(), key)
    }
}

pub proof fn lemma_last_with_key_in_range(l: Seq<(Seq<char>, usize)>, key: Seq<char>)
    ensures
        last_with_key(l, key) matches Some(i) ==> 0 <= i < l.len() && l[i].0 == key,
    decreases l.len(),
{
    if l.len() > 0 && l.last().0 != key {
        lemma_last_with_key_in_range(l.drop_last(), key);
    }
}

pub proof fn lemma_last_method_in_range(ms: Seq<MethodView>, key: Seq<char>)
    ensures
        last_method_with_key(ms, key) matches Some(i) ==> 0 <= i < ms.len() && ms[i].fq() == key,
    decreases ms.len(),
{
    if ms.len() > 0 && ms.last().fq() != key {
        lemma_last_method_in_range(ms.drop_last(), key);
    }
}

/// The position of the last method whose name and descriptor make `key`.
pub open spec fn last_method_with_key(ms: Seq<MethodView>, key: Seq<char>) -> Option<int>
    decreases ms.len(),
{
    if ms.len() == 0 {
        None
    } else if ms.last().fq() == key {
        Some(ms.len() - 1)
    } else {
        last_method_with_key(ms.drop_last(), key)
    }
}

/// The fields of a class split into instance fields, static fields and the
/// lookup list from member key to position within its own kind.
pub open spec fn split_fields(fs: Seq<FieldView>) -> (Seq<FieldView>, Seq<FieldView>, Seq<(Seq<char>, usize)>)
    decreases fs.len(),
{
    if fs.len() == 0 {
        (Seq::empty(), Seq::empty(), Seq::empty())
    } else {
        let (i, s, l) = split_fields(fs.drop_last());
        let f = fs.last();
        if f.is_static() {
            (i, s.push(f), l.push((f.fq(), s.len() as usize)))
        } else {
            (i.push(f), s, l.push((f.fq(), i.len() as usize)))
        }
    }
}

/// `registerNatives()V` of `java/lang/Object` is treated as native.
pub open spec fn patched_method(class_name: Seq<char>, m: MethodView) -> MethodView {
    if class_name == "java/lang/Object"@ && m.name == "registerNatives"@ && m.descriptor == "()V"@ {
        MethodView { access_flags: m.access_flags | 0x0100, ..m }
    } else {
        m
    }
}

/// The class that a well-formed class file describes.
pub open spec fn klass_of(cf: ClassFile, class_id: usize) -> InstanceKlassView {
    let cp = cf.constant_pool@;
    let fields = Seq::new(cf.fields@.len(), |i: int| field_view_of(cf.fields@[i], cp));
    let (i_fields, s_fields, f_lookup) = split_fields(fields);
    InstanceKlassView {
        class_id,
        class_name: cf.spec_class_name(),
        super_class: cf.spec_super_class_name(),
        methods: Seq::new(
            cf.methods@.len(),
            |i: int| patched_method(cf.spec_class_name(), method_view_of(cf.methods@[i], cp)),
        ),
        i_fields,
        s_fields,
        s_field_val: s_fields.map_values(|f: FieldView| descriptor_default(f.descriptor)),
        f_lookup,
        cp,
    }
}

impl Clone for InstanceKlass {
    fn clone(&self) -> (r: Self)
        ensures
            r@ == self@,
    {
        let mut methods: Vec<Method> = Vec::new();
        let mut i: usize = 0;
        while i < self.methods.len()
            invariant
                i <= self.methods@.len(),
                methods@.len() == i,
                forall|k: int| 0 <= k < i ==> #[trigger] methods@[k]@ == self.methods@[k]@,
            decreases self.methods@.len() - i,
        {
            methods.push(self.methods[i].clone());
            i = i + 1;
        }
        assert(methods@.map_values(|m: Method| m@) =~= self.methods@.map_values(|m: Method| m@));
        let r = InstanceKlass {
            class_id: self.class_id,
            class_name: self.class_name.clone(),
            class_state: self.class_state,
            super_class: self.super_class.clone(),
            methods,
            i_fields: copy_fields(&self.i_fields),
            s_fields: copy_fields(&self.s_fields),
            s_field_val: copy_values(&self.s_field_val),
            f_name_desc_lookup: copy_lookup(&self.f_name_desc_lookup),
            cp: copy_pool(&self.cp),
        };
        assert(r@ =~= self@);
        r
    }
}

fn copy_fields(v: &Vec<Field>) -> (r: Vec<Field>)
    ensures
        r@.map_values(|f: Field| f@) == v@.map_values(|f: Field| f@),
{
    let mut r: Vec<Field> = Vec::new();
    let mut i: usize = 0;
    while i < v.len()
        invariant
            i <= v@.len(),
            r@.len() == i,
            forall|k: int| 0 <= k < i ==> #[trigger] r@[k]@ == v@[k]@,
        decreases v@.len() - i,
    {
        r.push(v[i].clone());
        i = i + 1;
    }
    assert(r@.map_values(|f: Field| f@) =~= v@.map_values(|f: Field| f@));
    r
}

fn copy_values(v: &Vec<JvmValue>) -> (r: Vec<JvmValue>)
    ensures
        r@ == v@,
{
    let mut r: Vec<JvmValue> = Vec::new();
    let mut i: usize = 0;
    while i < v.len()
        invariant
            i <= v@.len(),
            r@ == v@.subrange(0, i as int),
        decreases v@.len() - i,
    {
        r.push(v[i]);
        i = i + 1;
        assert(r@ =~= v@.subrange(0, i as int));
    }
    assert(v@.subrange(0, i as int) =~= v@);
    r
}

fn copy_lookup(v: &Vec<(String, usize)>) -> (r: Vec<(String, usize)>)
    ensures
        r@.map_values(|e: (String, usize)| (e.0@, e.1)) == v@.map_values(|e: (String, usize)| (e.0@, e.1)),
{
    let mut r: Vec<(String, usize)> = Vec::new();
    let mut i: usize = 0;
    while i < v.len()
        invariant
            i <= v@.len(),
            r@.len() == i,
            forall|k: int| 0 <= k < i ==> #[trigger] r@[k].0@ == v@[k].0@ && r@[k].1 == v@[k].1,
        decreases v@.len() - i,
    {
        let (k, x) = &v[i];
        r.push((k.clone(), *x));
        i = i + 1;
    }
    assert(r@.map_values(|e: (String, usize)| (e.0@, e.1)) =~= v@.map_values(|e: (String, usize)| (e.0@, e.1)));
    r
}


/// The fields of a class file, in the order it declares them.
pub open spec fn declared_fields(cf: ClassFile, n: int) -> Seq<FieldView> {
    Seq::new(n as nat, |i: int| field_view_of(cf.fields@[i], cf.constant_pool@))
}

impl InstanceKlass {
    /// The class that a class file describes: its methods (with
    /// `java/lang/Object.registerNatives()V` treated as native), its fields split
    /// into instance and static ones, and the static fields' default values.
    pub fn of(class_file: &ClassFile, class_id: usize, heap: &mut Heap) -> (k: InstanceKlass)
        requires
            class_file.wf(),
        ensures
            k@ == klass_of(*class_file, class_id),
            *final(heap) == *old(heap),
    {
        let cp = &class_file.constant_pool;
        let class_name = class_file.get_class_name();
        let is_object = str_eq(class_name.as_str(), "java/lang/Object");
        let ghost cn = class_name@;
        let mut methods: Vec<Method> = Vec::new();
        let mut idx: usize = 0;
        while idx < class_file.methods.len()
            invariant
                class_file.wf(),
                cp == &class_file.constant_pool,
                cn == class_file.spec_class_name(),
                is_object == (cn == "java/lang/Object"@),
                idx <= class_file.methods@.len(),
                methods@.len() == idx,
                forall|k: int| 0 <= k < idx ==> #[trigger] methods@[k]@ == patched_method(
                    cn,
                    method_view_of(class_file.methods@[k], cp@),
                ),
            decreases class_file.methods@.len() - idx,
        {
            let m_info = &class_file.methods[idx];
            assert(class_file.methods@[idx as int] == *m_info);
            let mut method = Method::from_method_info(m_info, cp);
            if is_object && str_eq(method.name.as_str(), "registerNatives") && str_eq(
                method.descriptor.as_str(),
                "()V",
            ) {
                method.access_flags = method.access_flags | 0x0100;
            }
            methods.push(method);
            idx = idx + 1;
        }
        let mut i_fields: Vec<Field> = Vec::new();
        let mut s_fields: Vec<Field> = Vec::new();
        let mut s_field_val: Vec<JvmValue> = Vec::new();
        let mut f_name_desc_lookup: Vec<(String, usize)> = Vec::new();
        let mut j: usize = 0;
        while j < class_file.fields.len()
            invariant
                class_file.wf(),
                cp == &class_file.constant_pool,
                j <= class_file.fields@.len(),
                (
                    i_fields@.map_values(|f: Field| f@),
                    s_fields@.map_values(|f: Field| f@),
                    f_name_desc_lookup@.map_values(|e: (String, usize)| (e.0@, e.1)),
                ) == split_fields(declared_fields(*class_file, j as int)),
                s_field_val@ == s_fields@.map_values(|f: Field| f@).map_values(
                    |f: FieldView| descriptor_default(f.descriptor),
                ),
            decreases class_file.fields@.len() - j,
        {
            let f_info = &class_file.fields[j];
            assert(class_file.fields@[j as int] == *f_info);
            let field = Field::new(f_info, cp);
            let key = field.get_fq_name_desc();
            let ghost prev = declared_fields(*class_file, j as int);
            assert(declared_fields(*class_file, j + 1).drop_last() =~= prev);
            assert(declared_fields(*class_file, j + 1).last() == field@);
            if field.is_static() {
                let default_val = field.get_default();
                f_name_desc_lookup.push((key, s_fields.len()));
                s_fields.push(field);
                s_field_val.push(default_val);
            } else {
                f_name_desc_lookup.push((key, i_fields.len()));
                i_fields.push(field);
            }
            j = j + 1;
            assert(i_fields@.map_values(|f: Field| f@) =~= split_fields(
                declared_fields(*class_file, j as int),
            ).0);
            assert(s_fields@.map_values(|f: Field| f@) =~= split_fields(
                declared_fields(*class_file, j as int),
            ).1);
            assert(f_name_desc_lookup@.map_values(|e: (String, usize)| (e.0@, e.1)) =~= split_fields(
                declared_fields(*class_file, j as int),
            ).2);
            assert(s_field_val@ =~= s_fields@.map_values(|f: Field| f@).map_values(
                |f: FieldView| descriptor_default(f.descriptor),
            ));
        }
        let k = InstanceKlass {
            class_id,
            class_name,
            class_state: ClassState::LOADED,
            super_class: class_file.get_super_class_name(),
            methods,
            i_fields,
            s_fields,
            s_field_val,
            f_name_desc_lookup,
            cp: copy_pool(cp),
        };
        assert(declared_fields(*class_file, j as int) =~= Seq::new(
            class_file.fields@.len(),
            |i: int| field_view_of(class_file.fields@[i], class_file.constant_pool@),
        ));
        assert(k@.methods =~= klass_of(*class_file, class_id).methods);
        assert(k@ =~= klass_of(*class_file, class_id));
        k
    }
}


impl InstanceKlass {
    /// The last method whose name and descriptor are the ones asked for.
    pub fn get_method(&self, method_name: &str, method_desc: &str) -> (r: Option<&Method>)
        ensures
            match last_method_with_key(self@.methods, fq_key(method_name@, method_desc@)) {
                Some(i) => r matches Some(m) && m@ == self@.methods[i],
                None => r is None,
            },
    {
        proof {
            reveal_strlit(".");
        }
        let fq_name = join3(method_name, ".", method_desc);
        let ghost ms = self@.methods;
        let mut i = self.methods.len();
        assert(ms.subrange(0, i as int) =~= ms);
        while i > 0
            invariant
                i <= self.methods@.len(),
                ms.len() == self.methods@.len(),
                ms == self@.methods,
                fq_name@ == fq_key(method_name@, method_desc@),
                last_method_with_key(ms, fq_name@) == last_method_with_key(ms.subrange(0, i as int), fq_name@),
            decreases i,
        {
            let m = &self.methods[i - 1];
            let key = m.get_fq_name_desc();
            assert(ms.subrange(0, i as int).drop_last() =~= ms.subrange(0, i - 1));
            assert(ms.subrange(0, i as int).last() == m@);
            if key == fq_name {
                return Some(m);
            }
            i = i - 1;
        }
        None
    }

    pub fn get_class_name(&self) -> (s: &str)
        ensures
            s@ == self@.class_name,
    {
        self.class_name.as_str()
    }

    pub fn get_super_class_name(&self) -> (s: &str)
        ensures
            s@ == self@.super_class,
    {
        self.super_class.as_str()
    }

    /// Class, name and descriptor of the field reference at a constant pool index.
    pub fn get_field_info(&self, cp_index: u16) -> (r: (String, String, String))
        requires
            fieldref_at(self@.cp, cp_index as int) is Some,
        ensures
            fieldref_at(self@.cp, cp_index as int) == Some((r.0@, r.1@, r.2@)),
    {
        match get_fieldref_info(&self.cp, cp_index) {
            Some(t) => t,
            None => (String::new(), String::new(), String::new()),
        }
    }

    /// The value slot that the lookup list gives for a field's name and
    /// descriptor, taken from the static field values.
    pub fn get_static_instance(&self, field_name: &str, field_desc: &str) -> (v: JvmValue)
        requires
            last_with_key(self@.f_lookup, fq_key(field_name@, field_desc@)) is Some,
            self@.f_lookup[last_with_key(self@.f_lookup, fq_key(field_name@, field_desc@))->0].1
                < self@.s_field_val.len(),
        ensures
            v == self@.s_field_val[self@.f_lookup[last_with_key(
                self@.f_lookup,
                fq_key(field_name@, field_desc@),
            )->0].1 as int],
    {
        proof {
            reveal_strlit(".");
        }
        let fq_name = join3(field_name, ".", field_desc);
        let ghost l = self@.f_lookup;
        let mut i = self.f_name_desc_lookup.len();
        assert(l.subrange(0, i as int) =~= l);
        proof {
            lemma_last_with_key_in_range(l, fq_name@);
        }
        while i > 0
            invariant
                i <= self.f_name_desc_lookup@.len(),
                l == self@.f_lookup,
                l.len() == self.f_name_desc_lookup@.len(),
                fq_name@ == fq_key(field_name@, field_desc@),
                last_with_key(l, fq_name@) == last_with_key(l.subrange(0, i as int), fq_name@),
                last_with_key(l, fq_name@) is Some,
                l[last_with_key(l, fq_name@)->0].1 < self@.s_field_val.len(),
            decreases i,
        {
            let (key, idx) = &self.f_name_desc_lookup[i - 1];
            assert(l.subrange(0, i as int).drop_last() =~= l.subrange(0, i - 1));
            assert(l.subrange(0, i as int).last() == (key@, *idx));
            if *key == fq_name {
                return self.s_field_val[*idx];
            }
            i = i - 1;
        }
        JvmValue::Null
    }

    pub fn get_static_fields(&self) -> (r: &Vec<Field>)
        ensures
            r@.map_values(|f: Field| f@) == self@.s_fields,
    {
        &self.s_fields
    }

    pub fn get_static_field_values(&self) -> (r: &Vec<JvmValue>)
        ensures
            r@ == self@.s_field_val,
    {
        &self.s_field_val
    }

    pub fn get_instance_fields(&self) -> (r: &Vec<Field>)
        ensures
            r@.map_values(|f: Field| f@) == self@.i_fields,
    {
        &self.i_fields
    }

    pub fn get_static_fields_mut(&mut self) -> (r: &mut Vec<Field>)
        ensures
            r@.map_values(|f: Field| f@) == old(self)@.s_fields,
            final(self)@ == (InstanceKlassView {
                s_fields: final(r)@.map_values(|f: Field| f@),
                ..old(self)@
            }),
    {
        &mut self.s_fields
    }

    pub fn get_static_field_values_mut(&mut self) -> (r: &mut Vec<JvmValue>)
        ensures
            r@ == old(self)@.s_field_val,
            final(self)@ == (InstanceKlassView { s_field_val: final(r)@, ..old(self)@ }),
    {
        &mut self.s_field_val
    }

    /// The number of instance fields.
    pub fn instance_field_count(&self) -> (n: usize)
        ensures
            n == self@.i_fields.len(),
    {
        self.i_fields.len()
    }

    pub fn get_class_id(&self) -> (id: usize)
        ensures
            id == self@.class_id,
    {
        self.class_id
    }
}


pub ghost enum ComponentTypeView {
    Void,
    Byte,
    Boolean,
    Char,
    Short,
    Int,
    Float,
    Long,
    Double,
    Object(InstanceKlassView),
    Array(ArrayKlassView),
}

pub ghost struct ArrayKlassView {
    pub class_id: usize,
    pub dimension: usize,
    pub component: Box<ComponentTypeView>,
}

pub ghost enum KlassView {
    Instance(InstanceKlassView),
    Array(ArrayKlassView),
}

pub closed spec fn component_view(c: &ComponentType) -> ComponentTypeView
    decreases c,
{
    match c {
        ComponentType::Void => ComponentTypeView::Void,
        ComponentType::Byte => ComponentTypeView::Byte,
        ComponentType::Boolean => ComponentTypeView::Boolean,
        ComponentType::Char => ComponentTypeView::Char,
        ComponentType::Short => ComponentTypeView::Short,
        ComponentType::Int => ComponentTypeView::Int,
        ComponentType::Float => ComponentTypeView::Float,
        ComponentType::Long => ComponentTypeView::Long,
        ComponentType::Double => ComponentTypeView::Double,
        ComponentType::Object(k) => ComponentTypeView::Object(k@),
        ComponentType::Array(a) => ComponentTypeView::Array(array_view(a)),
    }
}

pub closed spec fn array_view(a: &ArrayKlass) -> ArrayKlassView
    decreases a,
{
    ArrayKlassView {
        class_id: a.class_id,
        dimension: a.dimension,
        component: Box::new(component_view(&a.component_type)),
    }
}

/// How each kind of element type is seen.
pub proof fn lemma_component_views()
    ensures
        forall|k: InstanceKlass| #[trigger] component_view(&ComponentType::Object(Box::new(k))) == ComponentTypeView::Object(k@),
        forall|a: ArrayKlass| #[trigger] component_view(&ComponentType::Array(Box::new(a))) == ComponentTypeView::Array(a@),
        component_view(&ComponentType::Void) == ComponentTypeView::Void,
        component_view(&ComponentType::Byte) == ComponentTypeView::Byte,
        component_view(&ComponentType::Boolean) == ComponentTypeView::Boolean,
        component_view(&ComponentType::Char) == ComponentTypeView::Char,
        component_view(&ComponentType::Short) == ComponentTypeView::Short,
        component_view(&ComponentType::Int) == ComponentTypeView::Int,
        component_view(&ComponentType::Float) == ComponentTypeView::Float,
        component_view(&ComponentType::Long) == ComponentTypeView::Long,
        component_view(&ComponentType::Double) == ComponentTypeView::Double,
{
}

impl View for ArrayKlass {
    type V = ArrayKlassView;

    open spec fn view(&self) -> ArrayKlassView {
        array_view(self)
    }
}

impl View for Klass {
    type V = KlassView;

    open spec fn view(&self) -> KlassView {
        match self {
            Klass::Instance(k) => KlassView::Instance(k@),
            Klass::Array(a) => KlassView::Array(a@),
        }
    }
}

fn copy_component(c: &ComponentType) -> (r: ComponentType)
    ensures
        component_view(&r) == component_view(c),
    decreases c,
{
    match c {
        ComponentType::Void => ComponentType::Void,
        ComponentType::Byte => ComponentType::Byte,
        ComponentType::Boolean => ComponentType::Boolean,
        ComponentType::Char => ComponentType::Char,
        ComponentType::Short => ComponentType::Short,
        ComponentType::Int => ComponentType::Int,
        ComponentType::Float => ComponentType::Float,
        ComponentType::Long => ComponentType::Long,
        ComponentType::Double => ComponentType::Double,
        ComponentType::Object(k) => ComponentType::Object(Box::new((**k).clone())),
        ComponentType::Array(a) => ComponentType::Array(Box::new(copy_array(&**a))),
    }
}

fn copy_array(a: &ArrayKlass) -> (r: ArrayKlass)
    ensures
        array_view(&r) == array_view(a),
    decreases a,
{
    ArrayKlass {
        class_id: a.class_id,
        dimension: a.dimension,
        component_type: copy_component(&a.component_type),
    }
}

impl Clone for ComponentType {
    fn clone(&self) -> (r: Self)
        ensures
            component_view(&r) == component_view(self),
    {
        copy_component(self)
    }
}

impl Clone for ArrayKlass {
    fn clone(&self) -> (r: Self)
        ensures
            r@ == self@,
    {
        copy_array(self)
    }
}

impl Clone for Klass {
    fn clone(&self) -> (r: Self)
        ensures
            r@ == self@,
    {
        match self {
            Klass::Instance(k) => Klass::Instance(k.clone()),
            Klass::Array(a) => Klass::Array(a.clone()),
        }
    }
}

impl ArrayKlass {
    pub fn get_class_id(&self) -> (id: usize)
        ensures
            id == self@.class_id,
    {
        self.class_id
    }
}

/// The method a lookup by name and descriptor finds, starting at class
/// `k`: the last one the class declares with that name and descriptor;
/// failing that, for any name but `<clinit>` and `<init>`, what the same
/// lookup finds in the superclass, if it loads as an ordinary class. At
/// most `fuel` superclasses are visited.
pub open spec fn chain_lookup(
    files: Seq<ClassFile>,
    k: InstanceKlassView,
    name: Seq<char>,
    desc: Seq<char>,
    fuel: nat,
) -> Option<MethodView>
    decreases fuel,
{
    match last_method_with_key(k.methods, fq_key(name, desc)) {
        Some(i) => Some(k.methods[i]),
        None => if name == "<clinit>"@ || name == "<init>"@ || k.super_class.len() == 0 || fuel == 0 {
            None
        } else {
            match resolve_class(files, k.super_class, 0) {
                Ok(KlassView::Instance(s)) => chain_lookup(files, s, name, desc, (fuel - 1) as nat),
                _ => None,
            }
        },
    }
}

/// The lookup sees of a class only its methods and its superclass's name,
/// not the id it was given.
pub proof fn lemma_chain_lookup_same(
    files: Seq<ClassFile>,
    k1: InstanceKlassView,
    k2: InstanceKlassView,
    name: Seq<char>,
    desc: Seq<char>,
    fuel: nat,
)
    requires
        k1.methods == k2.methods,
        k1.super_class == k2.super_class,
    ensures
        chain_lookup(files, k1, name, desc, fuel) == chain_lookup(files, k2, name, desc, fuel),
{
}

impl InstanceKlass {
    /// Finds a method by name and descriptor here or up the superclasses,
    /// loading them as needed; no chain of superclasses is longer than the
    /// class path without a repetition, so at most that many are visited.
    pub fn lookup_method(&self, method_name: &str, method_desc: &str, vm: &mut Vm) -> (r: Option<Method>)
        requires
            old(vm).wf(),
        ensures
            final(vm).wf(),
            final(vm).loader().files() == old(vm).loader().files(),
            final(vm).heap_state() == old(vm).heap_state(),
            final(vm).statics() == old(vm).statics(),
            final(vm).builders() == old(vm).builders(),
            final(vm).strings() == old(vm).strings(),
            final(vm).natives() == old(vm).natives(),
            final(vm).clock() == old(vm).clock(),
            final(vm).printed() == old(vm).printed(),
            r matches Some(m) ==> chain_lookup(
                old(vm).loader().files(),
                self@,
                method_name@,
                method_desc@,
                old(vm).loader().files().len(),
            ) == Some(m@),
            r is None ==> chain_lookup(
                old(vm).loader().files(),
                self@,
                method_name@,
                method_desc@,
                old(vm).loader().files().len(),
            ) is None,
    {
        let fuel = vm.class_count();
        self.lookup_within(method_name, method_desc, vm, fuel)
    }

    /// `lookup_method`, visiting at most `fuel` superclasses.
    fn lookup_within(&self, method_name: &str, method_desc: &str, vm: &mut Vm, fuel: usize) -> (r: Option<Method>)
        requires
            old(vm).wf(),
        ensures
            final(vm).wf(),
            final(vm).loader().files() == old(vm).loader().files(),
            final(vm).heap_state() == old(vm).heap_state(),
            final(vm).statics() == old(vm).statics(),
            final(vm).builders() == old(vm).builders(),
            final(vm).strings() == old(vm).strings(),
            final(vm).natives() == old(vm).natives(),
            final(vm).clock() == old(vm).clock(),
            final(vm).printed() == old(vm).printed(),
            r matches Some(m) ==> chain_lookup(
                old(vm).loader().files(),
                self@,
                method_name@,
                method_desc@,
                fuel as nat,
            ) == Some(m@),
            r is None ==> chain_lookup(
                old(vm).loader().files(),
                self@,
                method_name@,
                method_desc@,
                fuel as nat,
            ) is None,
        decreases fuel,
    {
        proof {
            lemma_last_method_in_range(self@.methods, fq_key(method_name@, method_desc@));
        }
        match self.get_method(method_name, method_desc) {
            Some(m) => return Some(m.clone()),
            None => {},
        }
        proof {
            reveal_strlit("<clinit>");
            reveal_strlit("<init>");
        }
        if str_eq(method_name, "<clinit>") || str_eq(method_name, "<init>") || char_len(self.super_class.as_str()) == 0
            || fuel == 0 {
            return None;
        }
        let ghost vm0 = *vm;
        proof {
            crate::class_loader::lemma_resolve_ids(vm0.loader().files(), self@.super_class, vm0.loader().id_for(self@.super_class), 0);
            crate::class_loader::lemma_resolve_ids(vm0.loader().files(), self@.super_class, vm0.loader().class_id(), 0);
        }
        match vm.load(self.super_class.as_str()) {
            Ok(Klass::Instance(super_klass)) => {
                proof {
                    let s0 = resolve_class(vm0.loader().files(), self@.super_class, 0)->Ok_0->Instance_0;
                    lemma_chain_lookup_same(vm0.loader().files(), super_klass@, s0, method_name@, method_desc@, (fuel - 1) as nat);
                }
                super_klass.lookup_within(method_name, method_desc, vm, fuel - 1)
            },
            _ => None,
        }
    }
}

impl Klass {
    /// Finds a method by name and descriptor up an ordinary class's
    /// superclasses; an array class has none.
    pub fn lookup_method(&self, method_name: &str, method_desc: &str, vm: &mut Vm) -> (r: Option<Method>)
        requires
            old(vm).wf(),
        ensures
            final(vm).wf(),
            final(vm).loader().files() == old(vm).loader().files(),
            final(vm).heap_state() == old(vm).heap_state(),
            final(vm).statics() == old(vm).statics(),
            final(vm).builders() == old(vm).builders(),
            final(vm).strings() == old(vm).strings(),
            final(vm).natives() == old(vm).natives(),
            final(vm).clock() == old(vm).clock(),
            final(vm).printed() == old(vm).printed(),
            match self@ {
                KlassView::Instance(k) => match chain_lookup(
                    old(vm).loader().files(),
                    k,
                    method_name@,
                    method_desc@,
                    old(vm).loader().files().len(),
                ) {
                    Some(m) => r matches Some(x) && x@ == m,
                    None => r is None,
                },
                KlassView::Array(_) => r is None && *final(vm) == *old(vm),
            },
    {
        match self {
            Klass::Instance(instance) => instance.lookup_method(method_name, method_desc, vm),
            Klass::Array(_) => None,
        }
    }

    pub fn new_array(dimension: usize, component_type: ComponentType, class_id: usize) -> (a: ArrayKlass)
        ensures
            a@ == (ArrayKlassView {
                class_id,
                dimension,
                component: Box::new(component_view(&component_type)),
            }),
    {
        ArrayKlass { class_id, dimension, component_type }
    }

    pub fn get_method(&self, method_name: &str, method_desc: &str) -> (r: Option<&Method>)
        requires
            self@ is Instance,
        ensures
            match last_method_with_key(self@->Instance_0.methods, fq_key(method_name@, method_desc@)) {
                Some(i) => r matches Some(m) && m@ == self@->Instance_0.methods[i],
                None => r is None,
            },
    {
        match self {
            Klass::Instance(instance) => instance.get_method(method_name, method_desc),
            Klass::Array(_) => None,
        }
    }

    pub fn get_field_info(&self, index: u16) -> (r: (String, String, String))
        requires
            self@ is Instance,
            fieldref_at(self@->Instance_0.cp, index as int) is Some,
        ensures
            fieldref_at(self@->Instance_0.cp, index as int) == Some((r.0@, r.1@, r.2@)),
    {
        match self {
            Klass::Instance(instance) => instance.get_field_info(index),
            Klass::Array(_) => (String::new(), String::new(), String::new()),
        }
    }

    pub fn get_class_id(&self) -> (id: usize)
        ensures
            id == (match self@ {
                KlassView::Instance(k) => k.class_id,
                KlassView::Array(a) => a.class_id,
            }),
    {
        match self {
            Klass::Instance(instance) => instance.class_id,
            Klass::Array(array) => array.class_id,
        }
    }

    pub fn get_instance_field_cnt(&self) -> (n: usize)
        requires
            self@ is Instance,
        ensures
            n == self@->Instance_0.i_fields.len(),
    {
        match self {
            Klass::Instance(instance) => instance.instance_field_count(),
            Klass::Array(_) => 0,
        }
    }

    pub fn get_static_instance(&self, field_name: &str, desc: &str) -> (v: JvmValue)
        requires
            self@ is Instance,
            last_with_key(self@->Instance_0.f_lookup, fq_key(field_name@, desc@)) is Some,
            self@->Instance_0.f_lookup[last_with_key(self@->Instance_0.f_lookup, fq_key(field_name@, desc@))->0].1
                < self@->Instance_0.s_field_val.len(),
        ensures
            v == self@->Instance_0.s_field_val[self@->Instance_0.f_lookup[last_with_key(
                self@->Instance_0.f_lookup,
                fq_key(field_name@, desc@),
            )->0].1 as int],
    {
        match self {
            Klass::Instance(instance) => instance.get_static_instance(field_name, desc),
            Klass::Array(_) => JvmValue::Null,
        }
    }

    pub fn get_class_name(&self) -> (r: Option<&str>)
        ensures
            match self@ {
                KlassView::Instance(k) => r matches Some(s) && s@ == k.class_name,
                KlassView::Array(_) => r is None,
            },
    {
        match self {
            Klass::Instance(instance) => Some(instance.get_class_name()),
            Klass::Array(_) => None,
        }
    }
}

} // verus!

verus! {

/// Whether class `k` declares a method whose name and descriptor make the
/// key of `name` and `desc`.
pub open spec fn declares_method(k: InstanceKlassView, name: Seq<char>, desc: Seq<char>) -> bool {
    exists|i: int| 0 <= i < k.methods.len() && #[trigger] k.methods[i].fq() == fq_key(name, desc)
}

proof fn lemma_last_method_none(ms: Seq<MethodView>, key: Seq<char>)
    ensures
        last_method_with_key(ms, key) is None <==> !(exists|i: int| 0 <= i < ms.len() && #[trigger] ms[i].fq() == key),
    decreases ms.len(),
{
    lemma_last_method_in_range(ms, key);
    if ms.len() > 0 && ms.last().fq() != key {
        lemma_last_method_none(ms.drop_last(), key);
        if exists|i: int| 0 <= i < ms.len() && #[trigger] ms[i].fq() == key {
            let i = choose|i: int| 0 <= i < ms.len() && #[trigger] ms[i].fq() == key;
            assert(i < ms.len() - 1);
            assert(ms.drop_last()[i] == ms[i]);
        }
        if exists|i: int| 0 <= i < ms.drop_last().len() && #[trigger] ms.drop_last()[i].fq() == key {
            let i = choose|i: int| 0 <= i < ms.drop_last().len() && #[trigger] ms.drop_last()[i].fq() == key;
            assert(ms[i] == ms.drop_last()[i]);
        }
    } else if ms.len() > 0 {
        assert(ms[ms.len() - 1].fq() == key);
    }
}

/// Looking a method up finds one the class declares when it declares one;
/// when it declares none and the name is neither `<init>` nor `<clinit>`,
/// it goes on to a superclass that loads as an ordinary class and finds
/// the method that one declares; for `<init>` and `<clinit>` it never
/// looks past the class.
pub proof fn law_lookup_goes_to_the_superclass(
    files: Seq<ClassFile>,
    k: InstanceKlassView,
    name: Seq<char>,
    desc: Seq<char>,
    fuel: nat,
)
    ensures
        declares_method(k, name, desc) ==> (chain_lookup(files, k, name, desc, fuel) matches Some(m) && m.fq()
            == fq_key(name, desc) && k.methods.contains(m)),
        !declares_method(k, name, desc) && (name == "<init>"@ || name == "<clinit>"@) ==> chain_lookup(
            files,
            k,
            name,
            desc,
            fuel,
        ) is None,
        !declares_method(k, name, desc) && name != "<init>"@ && name != "<clinit>"@ && k.super_class.len() > 0
            && fuel > 0 ==> match resolve_class(files, k.super_class, 0) {
            Ok(KlassView::Instance(s)) => declares_method(s, name, desc) ==> (chain_lookup(
                files,
                k,
                name,
                desc,
                fuel,
            ) matches Some(m) && m.fq() == fq_key(name, desc) && s.methods.contains(m)),
            _ => true,
        },
{
    let key = fq_key(name, desc);
    lemma_last_method_none(k.methods, key);
    lemma_last_method_in_range(k.methods, key);
    if let Some(i) = last_method_with_key(k.methods, key) {
        assert(k.methods.contains(k.methods[i]));
    }
    if let Ok(KlassView::Instance(s)) = resolve_class(files, k.super_class, 0) {
        lemma_last_method_none(s.methods, key);
        lemma_last_method_in_range(s.methods, key);
        if let Some(j) = last_method_with_key(s.methods, key) {
            assert(s.methods.contains(s.methods[j]));
        }
        if fuel > 0 {
            reveal_with_fuel(chain_lookup, 2);
        }
    }
}

} // verus!
