use vstd::prelude::*;
use crate::JvmValue;
use crate::class::{
    ArrayKlass, ArrayKlassView, ComponentType, ComponentTypeView, InstanceKlass,
    InstanceKlassView, Klass, KlassView, klass_of,
};
use crate::classfile::ClassFile;
use crate::error::JvmError;
use crate::field::{Field, FieldView, descriptor_default};
use crate::heap::Heap;
use crate::text::{count_leading, trim_end, trim_start, leading_count, trim_both, suffix_from, first_char, str_eq};

verus! {

/// The class files the loader can find, each under the name its own
/// constant pool gives it. When two carry the same name, the one added
/// first is found.
pub struct ClassPath {
    classes: Vec<ClassFile>,
}

/// The position of the first class file named `name`.
pub open spec fn find_class(files: Seq<ClassFile>, name: Seq<char>) -> Option<int>
    decreases files.len(),
{
    if files.len() == 0 {
        None
    } else if files[0].spec_class_name() == name {
        Some(0)
    } else {
        match find_class(files.drop_first(), name) {
            Some(i) => Some(i + 1),
            None => None,
        }
    }
}

proof fn lemma_find_class_in_range(files: Seq<ClassFile>, name: Seq<char>)
    ensures
        find_class(files, name) matches Some(i) ==> 0 <= i < files.len() && files[i].spec_class_name() == name,
    decreases files.len(),
{
    if files.len() > 0 && files[0].spec_class_name() != name {
        lemma_find_class_in_range(files.drop_first(), name);
    }
}

impl ClassPath {
    /// The number of class files on the path.
    pub fn len(&self) -> (n: usize)
        ensures
            n == self.files().len(),
    {
        self.classes.len()
    }

    /// The class files, in the order they were added.
    pub closed spec fn files(&self) -> Seq<ClassFile> {
        self.classes@
    }

    /// Every class file on the path is well formed.
    pub closed spec fn wf(&self) -> bool {
        forall|i: int| 0 <= i < self.classes@.len() ==> #[trigger] self.classes@[i].wf()
    }

    pub fn new() -> (cp: Self)
        ensures
            cp.files() == Seq::<ClassFile>::empty(),
            cp.wf(),
    {
        ClassPath { classes: Vec::new() }
    }

    /// Adds a class file; one whose names do not resolve is refused and the
    /// path is left as it was.
    pub fn add_class(&mut self, class_file: ClassFile) -> (r: Result<(), JvmError>)
        requires
            old(self).wf(),
        ensures
            final(self).wf(),
            class_file.wf() ==> r is Ok && final(self).files() == old(self).files().push(class_file),
            !class_file.wf() ==> (r matches Err(e) && e is IllegalStateError) && final(self).files() == old(self).files(),
    {
        if class_file.is_well_formed() {
            self.classes.push(class_file);
            Ok(())
        } else {
            Err(JvmError::IllegalStateError(String::from_str("Malformed class file")))
        }
    }

    /// The first class file whose class is named `class_name`.
    pub fn search_class(&self, class_name: &str) -> (r: Option<&ClassFile>)
        requires
            self.wf(),
        ensures
            match find_class(self.files(), class_name@) {
                Some(i) => r matches Some(cf) && *cf == self.files()[i],
                None => r is None,
            },
            r matches Some(cf) ==> cf.wf(),
    {
        let mut i: usize = 0;
        assert(self.classes@.subrange(0, self.classes@.len() as int) =~= self.classes@);
        while i < self.classes.len()
            invariant
                self.wf(),
                i <= self.classes@.len(),
                find_class(self.classes@, class_name@) == (match find_class(
                    self.classes@.subrange(i as int, self.classes@.len() as int),
                    class_name@,
                ) {
                    Some(j) => Some(j + i),
                    None => None,
                }),
            decreases self.classes@.len() - i,
        {
            let ghost rest = self.classes@.subrange(i as int, self.classes@.len() as int);
            assert(rest.drop_first() =~= self.classes@.subrange(i + 1, self.classes@.len() as int));
            assert(rest[0] == self.classes@[i as int]);
            let cf = &self.classes[i];
            let name = cf.get_class_name();
            if str_eq(name.as_str(), class_name) {
                return Some(cf);
            }
            i = i + 1;
        }
        None
    }
}

/// The stage a class has reached in the loader.
#[derive(Debug, Clone, Copy, PartialEq, Eq, Structural)]
pub enum ClassLoadingState {
    NotLoaded,
    Loading,
    Loaded,
    Prepared,
    Initialized,
    Failed,
}

/// What the loader keeps about one class name.
pub struct ClassLoadingInfo {
    state: ClassLoadingState,
    klass: Option<Klass>,
    error: Option<String>,
    static_fields: Option<Vec<JvmValue>>,
}

pub ghost struct ClassLoadingInfoView {
    pub state: ClassLoadingState,
    pub klass: Option<KlassView>,
    pub error: Option<Seq<char>>,
    pub static_fields: Option<Seq<JvmValue>>,
}

impl View for ClassLoadingInfo {
    type V = ClassLoadingInfoView;

    closed spec fn view(&self) -> ClassLoadingInfoView {
        ClassLoadingInfoView {
            state: self.state,
            klass: match self.klass {
                Some(k) => Some(k@),
                None => None,
            },
            error: match self.error {
                Some(e) => Some(e@),
                None => None,
            },
            static_fields: match self.static_fields {
                Some(v) => Some(v@),
                None => None,
            },
        }
    }
}

/// A name the loader has not seen yet.
pub open spec fn fresh_info() -> ClassLoadingInfoView {
    ClassLoadingInfoView { state: ClassLoadingState::NotLoaded, klass: None, error: None, static_fields: None }
}

/// What holds of every entry of the loader between calls: a class that got
/// past loading has its class, one past preparation is an ordinary class
/// with its static values, a failed one has its error, and none is caught
/// in the middle of loading.
pub open spec fn info_ok(i: ClassLoadingInfoView) -> bool {
    &&& i.state != ClassLoadingState::Loading
    &&& (i.state == ClassLoadingState::Loaded || i.state == ClassLoadingState::Prepared
        || i.state == ClassLoadingState::Initialized) ==> i.klass is Some
    &&& (i.state == ClassLoadingState::Prepared || i.state == ClassLoadingState::Initialized)
        ==> (i.klass matches Some(KlassView::Instance(_))) && i.static_fields is Some
    &&& i.state == ClassLoadingState::Failed ==> i.error is Some
}

/// An entry agrees with the class path: the class it holds is the one the
/// path defines for the name, and a failure is kept only for a name the
/// path cannot define.
pub open spec fn info_agrees(files: Seq<ClassFile>, id: usize, name: Seq<char>, i: ClassLoadingInfoView) -> bool {
    &&& i.klass matches Some(k) ==> resolve_class(files, name, klass_id(k)) == Ok::<KlassView, Seq<char>>(k)
    &&& i.state == ClassLoadingState::Failed ==> resolve_class(files, name, id) is Err
}

/// The id a class carries.
pub open spec fn klass_id(k: KlassView) -> usize {
    match k {
        KlassView::Instance(i) => i.class_id,
        KlassView::Array(a) => a.class_id,
    }
}

/// The class id counter moved on by one, short of the largest `usize`.
pub open spec fn next_id(id: usize) -> usize {
    if id < usize::MAX {
        (id + 1) as usize
    } else {
        id
    }
}

/// The class id counter after `load` of a name whose entry was `i`: a class
/// loaded for the first time takes the current id and the counter moves
/// on; anything else leaves it.
pub open spec fn id_after_load(files: Seq<ClassFile>, id: usize, name: Seq<char>, i: ClassLoadingInfoView) -> usize {
    if i.state == ClassLoadingState::NotLoaded && resolve_class(files, name, id) is Ok {
        next_id(id)
    } else {
        id
    }
}

/// Whether a name resolves does not depend on the id its class is given,
/// nor does the error; an array class's element type is the same too.
pub proof fn lemma_array_ids(files: Seq<ClassFile>, n: Seq<char>, a: usize, b: usize)
    ensures
        resolve_array(files, n, a) is Ok <==> resolve_array(files, n, b) is Ok,
        resolve_array(files, n, a) matches Err(e) ==> resolve_array(files, n, b) == Err::<ArrayKlassView, Seq<char>>(e),
    decreases n.len(), 0int,
{
    if n.len() > 0 {
        lemma_element_ids(files, n.drop_first(), a, b);
    }
}

/// `lemma_array_ids` for element types.
pub proof fn lemma_element_ids(files: Seq<ClassFile>, e: Seq<char>, a: usize, b: usize)
    ensures
        resolve_element(files, e, a) is Ok <==> resolve_element(files, e, b) is Ok,
        resolve_element(files, e, a) matches Err(m) ==> resolve_element(files, e, b) == Err::<ComponentTypeView, Seq<char>>(m),
    decreases e.len(), 1int,
{
    if e.len() > 0 && e[0] == '[' {
        lemma_array_ids(files, e, a, b);
    }
}

/// What a name resolves to under one id and under another: the same
/// outcome, the same error, and an ordinary class that differs only in
/// its id.
pub proof fn lemma_resolve_ids(files: Seq<ClassFile>, n: Seq<char>, a: usize, b: usize)
    ensures
        resolve_class(files, n, a) is Ok <==> resolve_class(files, n, b) is Ok,
        resolve_class(files, n, a) matches Err(e) ==> resolve_class(files, n, b) == Err::<KlassView, Seq<char>>(e),
        resolve_class(files, n, a) matches Ok(KlassView::Instance(k)) ==> resolve_class(files, n, b) == Ok::<
            KlassView,
            Seq<char>,
        >(KlassView::Instance(InstanceKlassView { class_id: b, ..k })),
        resolve_class(files, n, a) matches Ok(KlassView::Array(_)) ==> resolve_class(files, n, b) is Ok
            && resolve_class(files, n, b)->Ok_0 is Array,
{
    if n.len() > 0 && n[0] == '[' {
        lemma_array_ids(files, n, a, b);
    }
}

/// The name under which an ordinary class is looked up: without the `L`s
/// it starts with and the `;`s it ends with.
pub open spec fn instance_name(n: Seq<char>) -> Seq<char> {
    trim_end(trim_start(n, 'L'), ';')
}

/// The ordinary class named by `n`, or why it cannot be had.
pub open spec fn resolve_instance(files: Seq<ClassFile>, n: Seq<char>, id: usize) -> Result<InstanceKlassView, Seq<char>> {
    let c = instance_name(n);
    match find_class(files, c) {
        Some(i) => Ok(klass_of(files[i], id)),
        None => Err("class "@ + c + " not found"@),
    }
}

/// The array class named by `n`, which starts with `[`: its dimension is
/// the number of `[` it starts with and its element type what follows the
/// first of them.
pub open spec fn resolve_array(files: Seq<ClassFile>, n: Seq<char>, id: usize) -> Result<ArrayKlassView, Seq<char>>
    decreases n.len(), 0int,
{
    if n.len() == 0 {
        Err("Missing element type"@)
    } else {
        match resolve_element(files, n.drop_first(), id) {
            Ok(c) => Ok(ArrayKlassView { class_id: id, dimension: count_leading(n, '[') as usize, component: Box::new(c) }),
            Err(e) => Err(e),
        }
    }
}

/// The element type that a descriptor names.
pub open spec fn resolve_element(files: Seq<ClassFile>, e: Seq<char>, id: usize) -> Result<ComponentTypeView, Seq<char>>
    decreases e.len(), 1int,
{
    if e.len() == 0 {
        Err("Missing element type"@)
    } else if e[0] == '[' {
        match resolve_array(files, e, id) {
            Ok(a) => Ok(ComponentTypeView::Array(a)),
            Err(m) => Err(m),
        }
    } else if e[0] == 'L' {
        match resolve_instance(files, e, id) {
            Ok(k) => Ok(ComponentTypeView::Object(k)),
            Err(m) => Err(m),
        }
    } else if e[0] == 'B' {
        Ok(ComponentTypeView::Byte)
    } else if e[0] == 'Z' {
        Ok(ComponentTypeView::Boolean)
    } else if e[0] == 'S' {
        Ok(ComponentTypeView::Short)
    } else if e[0] == 'C' {
        Ok(ComponentTypeView::Char)
    } else if e[0] == 'I' {
        Ok(ComponentTypeView::Int)
    } else if e[0] == 'J' {
        Ok(ComponentTypeView::Long)
    } else if e[0] == 'F' {
        Ok(ComponentTypeView::Float)
    } else if e[0] == 'D' {
        Ok(ComponentTypeView::Double)
    } else if e[0] == 'V' {
        Ok(ComponentTypeView::Void)
    } else {
        Err("Unknown element type "@ + e)
    }
}

/// The class that a name denotes: an array class for a name starting with
/// `[`, an ordinary class otherwise.
pub open spec fn resolve_class(files: Seq<ClassFile>, n: Seq<char>, id: usize) -> Result<KlassView, Seq<char>> {
    if n.len() > 0 && n[0] == '[' {
        match resolve_array(files, n, id) {
            Ok(a) => Ok(KlassView::Array(a)),
            Err(e) => Err(e),
        }
    } else {
        match resolve_instance(files, n, id) {
            Ok(k) => Ok(KlassView::Instance(k)),
            Err(e) => Err(e),
        }
    }
}

/// Preparation: an ordinary class that is loaded gets the default values of
/// its static fields; anything else is left as it is.
pub open spec fn prepared(i: ClassLoadingInfoView) -> ClassLoadingInfoView {
    match i.klass {
        Some(KlassView::Instance(k)) => if i.state == ClassLoadingState::Loaded {
            ClassLoadingInfoView {
                state: ClassLoadingState::Prepared,
                static_fields: Some(k.s_fields.map_values(|f: FieldView| descriptor_default(f.descriptor))),
                ..i
            }
        } else {
            i
        },
        _ => i,
    }
}

/// Initialization: an ordinary class that is prepared becomes initialized.
pub open spec fn initialized(i: ClassLoadingInfoView) -> ClassLoadingInfoView {
    if i.state == ClassLoadingState::Prepared && i.klass matches Some(KlassView::Instance(_)) {
        ClassLoadingInfoView { state: ClassLoadingState::Initialized, ..i }
    } else {
        i
    }
}

/// What the loader keeps about `name` after one call of `load`, from what it
/// kept before.
pub open spec fn after_load(files: Seq<ClassFile>, id: usize, name: Seq<char>, i: ClassLoadingInfoView) -> ClassLoadingInfoView {
    match i.state {
        ClassLoadingState::NotLoaded => match resolve_class(files, name, id) {
            Ok(k) => initialized(prepared(ClassLoadingInfoView { state: ClassLoadingState::Loaded, klass: Some(k), ..i })),
            Err(e) => ClassLoadingInfoView { state: ClassLoadingState::Failed, error: Some(e), ..i },
        },
        ClassLoadingState::Loaded | ClassLoadingState::Prepared => initialized(prepared(i)),
        _ => i,
    }
}

/// What `load` answers, from what the loader kept about `name` before: the
/// class, or the kind and message of the error.
pub open spec fn load_answer(files: Seq<ClassFile>, id: usize, name: Seq<char>, i: ClassLoadingInfoView) -> Result<KlassView, (Seq<char>, Seq<char>)> {
    match i.state {
        ClassLoadingState::NotLoaded => match resolve_class(files, name, id) {
            Ok(k) => Ok(k),
            Err(e) => Err(("ClassNotFoundError"@, "Failed to load class "@ + name + ": "@ + e)),
        },
        ClassLoadingState::Loading => Err(("IllegalStateError"@, "Circular dependency detected while loading class "@ + name)),
        ClassLoadingState::Failed => Err(("ClassNotFoundError"@, "Class "@ + name + " failed to load: "@ + i.error->0)),
        _ => Ok(i.klass->0),
    }
}

/// Whether a result matches an answer of `load_answer`.
pub open spec fn answers(r: Result<Klass, JvmError>, a: Result<KlassView, (Seq<char>, Seq<char>)>) -> bool {
    match a {
        Ok(k) => r matches Ok(kl) && kl@ == k,
        Err((kind, msg)) => r matches Err(e) && e.kind_text() == kind && e.message() == msg,
    }
}

/// Loads classes from a class path and remembers, for every name asked for,
/// how far loading it got.
pub struct BootstrapClassLoader {
    class_path: ClassPath,
    classes: vstd::hash_map::StringHashMap<ClassLoadingInfo>,
    nxt_id: usize,
}

impl BootstrapClassLoader {
    /// The number of class files the loader searches.
    pub fn class_count(&self) -> (n: usize)
        ensures
            n == self.files().len(),
    {
        self.class_path.len()
    }

    /// The class files the loader searches.
    pub closed spec fn files(&self) -> Seq<ClassFile> {
        self.class_path.files()
    }

    /// The id given to the classes it loads.
    pub closed spec fn class_id(&self) -> usize {
        self.nxt_id
    }

    /// What the loader keeps, by class name.
    pub closed spec fn infos(&self) -> Map<Seq<char>, ClassLoadingInfoView> {
        Map::new(|k: Seq<char>| self.classes@.contains_key(k), |k: Seq<char>| self.classes@[k]@)
    }

    /// The class path holds well-formed class files and every entry is in
    /// one of the states `info_ok` allows.
    pub closed spec fn wf(&self) -> bool {
        &&& self.class_path.wf()
        &&& forall|k: Seq<char>| #[trigger] self.classes@.contains_key(k) ==> info_ok(self.classes@[k]@)
            && info_agrees(self.class_path.files(), self.nxt_id, k, self.classes@[k]@)
    }

    /// What `load` answers agrees with the class path: the class the path
    /// defines, or a `ClassNotFoundError` for a name it cannot define.
    pub proof fn lemma_answer_agrees(&self, name: Seq<char>)
        requires
            self.wf(),
        ensures
            match load_answer(self.files(), self.class_id(), name, self.info_of(name)) {
                Ok(k) => resolve_class(self.files(), name, self.id_for(name)) == Ok::<KlassView, Seq<char>>(k),
                Err((kind, _)) => resolve_class(self.files(), name, self.class_id()) is Err && kind == "ClassNotFoundError"@,
            },
    {
        if self.infos().contains_key(name) {
            assert(self.classes@.contains_key(name));
        }
    }

    /// The id the class named `name` has, or gets when it is loaded now: the
    /// one it was loaded with, or the counter's for a name not loaded yet.
    pub open spec fn id_for(&self, name: Seq<char>) -> usize {
        let i = self.info_of(name);
        if i.state == ClassLoadingState::NotLoaded {
            self.class_id()
        } else {
            match i.klass {
                Some(k) => klass_id(k),
                None => self.class_id(),
            }
        }
    }

    /// What the loader keeps about a name, a fresh entry for one it has not seen.
    pub open spec fn info_of(&self, name: Seq<char>) -> ClassLoadingInfoView {
        if self.infos().contains_key(name) {
            self.infos()[name]
        } else {
            fresh_info()
        }
    }

    /// A loader over a class path that has seen no name yet.
    pub fn new(class_path: ClassPath) -> (l: Self)
        requires
            class_path.wf(),
        ensures
            l.wf(),
            l.files() == class_path.files(),
            l.class_id() == 0,
            l.infos() == Map::<Seq<char>, ClassLoadingInfoView>::empty(),
    {
        let l = BootstrapClassLoader {
            class_path,
            classes: vstd::hash_map::StringHashMap::new(),
            nxt_id: 0,
        };
        assert(l.infos() =~= Map::<Seq<char>, ClassLoadingInfoView>::empty());
        l
    }

    /// Loads a class, preparing and initializing it, and remembers the
    /// outcome: a later call for the same name answers from what was kept.
    pub fn load(&mut self, class_name: &str, heap: &mut Heap) -> (r: Result<Klass, JvmError>)
        requires
            old(self).wf(),
        ensures
            final(self).wf(),
            final(self).files() == old(self).files(),
            final(self).class_id() == id_after_load(
                old(self).files(),
                old(self).class_id(),
                class_name@,
                old(self).info_of(class_name@),
            ),
            final(self).infos() == old(self).infos().insert(
                class_name@,
                after_load(old(self).files(), old(self).class_id(), class_name@, old(self).info_of(class_name@)),
            ),
            answers(r, load_answer(old(self).files(), old(self).class_id(), class_name@, old(self).info_of(class_name@))),
            r is Ok <==> resolve_class(old(self).files(), class_name@, old(self).class_id()) is Ok,
            r matches Ok(k) ==> resolve_class(old(self).files(), class_name@, old(self).id_for(class_name@))
                == Ok::<KlassView, Seq<char>>(k@),
            *final(heap) == *old(heap),
    {
        proof {
            self.lemma_answer_agrees(class_name@);
            lemma_resolve_ids(self.files(), class_name@, self.id_for(class_name@), self.class_id());
        }
        let info = self.get_or_create_class_info(class_name);
        let fresh = info.state() == ClassLoadingState::NotLoaded;
        let ghost before = self.infos();
        let (next, r) = self.advance(class_name, info, heap);
        self.classes.insert(String::from_str(class_name), next);
        assert(self.infos() =~= before.insert(
            class_name@,
            after_load(self.files(), old(self).class_id(), class_name@, old(self).info_of(class_name@)),
        ));
        if fresh && r.is_ok() && self.nxt_id < usize::MAX {
            self.nxt_id = self.nxt_id + 1;
        }
        proof {
            let files = self.files();
            let id0 = old(self).class_id();
            assert forall|k: Seq<char>| #[trigger] self.classes@.contains_key(k) implies info_ok(self.classes@[k]@)
                && info_agrees(files, self.nxt_id, k, self.classes@[k]@) by {
                assert(self.infos().contains_key(k));
                assert(self.infos()[k] == self.classes@[k]@);
                if k == class_name@ {
                    assert(info_agrees(files, id0, k, self.classes@[k]@));
                } else {
                    assert(old(self).classes@.contains_key(k));
                    assert(info_agrees(files, id0, k, self.classes@[k]@));
                }
                lemma_resolve_ids(files, k, id0, self.nxt_id);
            }
        }
        r
    }

    /// A copy of what the loader keeps about a name; a fresh entry for a name
    /// it has not seen.
    pub fn get_or_create_class_info(&self, class_name: &str) -> (i: ClassLoadingInfo)
        requires
            self.wf(),
        ensures
            i@ == self.info_of(class_name@),
            info_ok(i@),
            info_agrees(self.files(), self.class_id(), class_name@, i@),
    {
        match self.classes.get(class_name) {
            Some(info) => {
                assert(self.infos().contains_key(class_name@));
                info.copy()
            },
            None => ClassLoadingInfo { state: ClassLoadingState::NotLoaded, klass: None, error: None, static_fields: None },
        }
    }

    /// One call of `load` on the entry of a name: the entry it leaves and
    /// what it answers.
    fn advance(&self, class_name: &str, info: ClassLoadingInfo, heap: &mut Heap) -> (r: (ClassLoadingInfo, Result<Klass, JvmError>))
        requires
            self.class_path.wf(),
            info_ok(info@),
            info_agrees(self.files(), self.class_id(), class_name@, info@),
        ensures
            r.0@ == after_load(self.files(), self.class_id(), class_name@, info@),
            info_ok(r.0@),
            info_agrees(self.files(), self.class_id(), class_name@, r.0@),
            answers(r.1, load_answer(self.files(), self.class_id(), class_name@, info@)),
            *final(heap) == *old(heap),
    {
        let mut info = info;
        proof {
            reveal_strlit("ClassNotFoundError");
            reveal_strlit("IllegalStateError");
        }
        match info.state {
            ClassLoadingState::NotLoaded => {
                info.state = ClassLoadingState::Loading;
                match self.do_load_class(class_name, heap) {
                    Ok(klass) => {
                        info.klass = Some(klass.clone());
                        info.state = ClassLoadingState::Loaded;
                        self.prepare_class(&mut info, heap);
                        self.initialize_class(&mut info, heap);
                        (info, Ok(klass))
                    },
                    Err(e) => {
                        info.state = ClassLoadingState::Failed;
                        let mut msg = String::from_str("Failed to load class ");
                        msg.append(class_name);
                        msg.append(": ");
                        msg.append(e.as_str());
                        info.error = Some(e);
                        (info, Err(JvmError::ClassNotFoundError(msg)))
                    },
                }
            },
            ClassLoadingState::Loading => {
                let mut msg = String::from_str("Circular dependency detected while loading class ");
                msg.append(class_name);
                (info, Err(JvmError::IllegalStateError(msg)))
            },
            ClassLoadingState::Loaded | ClassLoadingState::Prepared => {
                self.prepare_class(&mut info, heap);
                self.initialize_class(&mut info, heap);
                let k = match &info.klass {
                    Some(k) => k.clone(),
                    None => Klass::Array(Klass::new_array(0, ComponentType::Void, 0)),
                };
                (info, Ok(k))
            },
            ClassLoadingState::Initialized => {
                let k = match &info.klass {
                    Some(k) => k.clone(),
                    None => Klass::Array(Klass::new_array(0, ComponentType::Void, 0)),
                };
                (info, Ok(k))
            },
            ClassLoadingState::Failed => {
                let mut msg = String::from_str("Class ");
                msg.append(class_name);
                msg.append(" failed to load: ");
                match &info.error {
                    Some(e) => msg.append(e.as_str()),
                    None => {},
                }
                (info, Err(JvmError::ClassNotFoundError(msg)))
            },
        }
    }

    /// Gives a loaded ordinary class the default values of its static fields.
    fn prepare_class(&self, info: &mut ClassLoadingInfo, heap: &mut Heap)
        requires
            old(info).state == ClassLoadingState::Loaded ==> old(info).klass is Some,
        ensures
            final(info)@ == prepared(old(info)@),
            *final(heap) == *old(heap),
    {
        if info.state != ClassLoadingState::Loaded {
            return;
        }
        let mut static_fields: Vec<JvmValue> = Vec::new();
        let mut is_instance = false;
        match &info.klass {
            Some(Klass::Instance(instance)) => {
                let fields = instance.get_static_fields();
                let ghost fs = instance@.s_fields;
                let mut i: usize = 0;
                while i < fields.len()
                    invariant
                        fields@.map_values(|f: Field| f@) == fs,
                        i <= fields@.len(),
                        static_fields@ == fs.subrange(0, i as int).map_values(
                            |f: FieldView| descriptor_default(f.descriptor),
                        ),
                    decreases fields@.len() - i,
                {
                    let default_value = fields[i].get_default();
                    assert(fs[i as int] == fields@[i as int]@);
                    static_fields.push(default_value);
                    i = i + 1;
                    assert(static_fields@ =~= fs.subrange(0, i as int).map_values(
                        |f: FieldView| descriptor_default(f.descriptor),
                    ));
                }
                assert(fs.subrange(0, i as int) =~= fs);
                is_instance = true;
            },
            _ => {},
        }
        if is_instance {
            info.static_fields = Some(static_fields);
            info.state = ClassLoadingState::Prepared;
        }
    }

    /// Marks a prepared ordinary class initialized. Its static initializer is
    /// not run.
    fn initialize_class(&self, info: &mut ClassLoadingInfo, heap: &mut Heap)
        ensures
            final(info)@ == initialized(old(info)@),
            *final(heap) == *old(heap),
    {
        if info.state != ClassLoadingState::Prepared {
            return;
        }
        let is_instance = match &info.klass {
            Some(Klass::Instance(_)) => true,
            _ => false,
        };
        if is_instance {
            info.state = ClassLoadingState::Initialized;
        }
    }

    /// The class a name denotes, or why it cannot be had.
    fn do_load_class(&self, class_name: &str, heap: &mut Heap) -> (r: Result<Klass, String>)
        requires
            self.class_path.wf(),
        ensures
            match resolve_class(self.files(), class_name@, self.class_id()) {
                Ok(k) => r matches Ok(kl) && kl@ == k,
                Err(e) => r matches Err(m) && m@ == e,
            },
            *final(heap) == *old(heap),
    {
        match first_char(class_name) {
            Some('[') => match self.do_load_array(class_name, heap) {
                Ok(a) => Ok(Klass::Array(a)),
                Err(e) => Err(e),
            },
            _ => match self.do_load_instance(class_name, heap) {
                Ok(k) => Ok(Klass::Instance(k)),
                Err(e) => Err(e),
            },
        }
    }

    /// The array class a name starting with `[` denotes.
    fn do_load_array(&self, class_name: &str, heap: &mut Heap) -> (r: Result<ArrayKlass, String>)
        requires
            self.class_path.wf(),
            class_name@.len() > 0,
        ensures
            match resolve_array(self.files(), class_name@, self.class_id()) {
                Ok(a) => r matches Ok(ak) && ak@ == a,
                Err(e) => r matches Err(m) && m@ == e,
            },
            *final(heap) == *old(heap),
        decreases class_name@.len(), 0int,
    {
        let dimension_size = leading_count(class_name, '[');
        let rest = suffix_from(class_name, 1);
        assert(rest@ =~= class_name@.drop_first());
        match self.load_element_type(rest.as_str(), heap) {
            Ok(element_type) => Ok(Klass::new_array(dimension_size, element_type, self.nxt_id)),
            Err(e) => Err(e),
        }
    }

    /// The element type a descriptor names.
    fn load_element_type(&self, element_type: &str, heap: &mut Heap) -> (r: Result<ComponentType, String>)
        requires
            self.class_path.wf(),
        ensures
            match resolve_element(self.files(), element_type@, self.class_id()) {
                Ok(c) => r matches Ok(ct) && crate::class::component_view(&ct) == c,
                Err(e) => r matches Err(m) && m@ == e,
            },
            *final(heap) == *old(heap),
        decreases element_type@.len(), 1int,
    {
        proof {
            reveal_strlit("Missing element type");
            crate::class::lemma_component_views();
        }
        match first_char(element_type) {
            None => Err(String::from_str("Missing element type")),
            Some('[') => match self.do_load_array(element_type, heap) {
                Ok(a) => Ok(ComponentType::Array(Box::new(a))),
                Err(e) => Err(e),
            },
            Some('L') => match self.do_load_instance(element_type, heap) {
                Ok(k) => Ok(ComponentType::Object(Box::new(k))),
                Err(e) => Err(e),
            },
            Some('B') => Ok(ComponentType::Byte),
            Some('Z') => Ok(ComponentType::Boolean),
            Some('S') => Ok(ComponentType::Short),
            Some('C') => Ok(ComponentType::Char),
            Some('I') => Ok(ComponentType::Int),
            Some('J') => Ok(ComponentType::Long),
            Some('F') => Ok(ComponentType::Float),
            Some('D') => Ok(ComponentType::Double),
            Some('V') => Ok(ComponentType::Void),
            Some(_) => {
                let mut msg = String::from_str("Unknown element type ");
                msg.append(element_type);
                Err(msg)
            },
        }
    }

    /// The ordinary class a name denotes, looked up without the `L`s it
    /// starts with and the `;`s it ends with.
    fn do_load_instance(&self, class_name: &str, heap: &mut Heap) -> (r: Result<InstanceKlass, String>)
        requires
            self.class_path.wf(),
        ensures
            match resolve_instance(self.files(), class_name@, self.class_id()) {
                Ok(k) => r matches Ok(ik) && ik@ == k,
                Err(e) => r matches Err(m) && m@ == e,
            },
            *final(heap) == *old(heap),
    {
        let name = trim_both(class_name, 'L', ';');
        proof {
            lemma_find_class_in_range(self.files(), name@);
        }
        match self.class_path.search_class(name.as_str()) {
            Some(class_file) => Ok(InstanceKlass::of(class_file, self.nxt_id, heap)),
            None => {
                let mut msg = String::from_str("class ");
                msg.append(name.as_str());
                msg.append(" not found");
                Err(msg)
            },
        }
    }
}

impl ClassLoadingInfo {
    /// Whether the class's static field values have been set up.
    pub fn has_static_fields(&self) -> (b: bool)
        ensures
            b == self@.static_fields is Some,
    {
        self.static_fields.is_some()
    }

    /// The state the entry has reached.
    pub fn state(&self) -> (s: ClassLoadingState)
        ensures
            s == self@.state,
    {
        self.state
    }

    fn copy(&self) -> (r: ClassLoadingInfo)
        ensures
            r@ == self@,
    {
        ClassLoadingInfo {
            state: self.state,
            klass: match &self.klass {
                Some(k) => Some(k.clone()),
                None => None,
            },
            error: match &self.error {
                Some(e) => Some(e.clone()),
                None => None,
            },
            static_fields: match &self.static_fields {
                Some(v) => Some(v.clone()),
                None => None,
            },
        }
    }
}

/// Each class loaded for the first time takes the counter's id and the
/// counter moves on, so two classes loaded one after the other for the
/// first time get different ids.
pub proof fn law_first_loads_get_fresh_ids(files: Seq<ClassFile>, id: usize, a: Seq<char>, b: Seq<char>)
    requires
        id < usize::MAX,
        resolve_class(files, a, id) is Ok,
        resolve_class(files, b, next_id(id)) is Ok,
    ensures
        id_after_load(files, id, a, fresh_info()) == next_id(id),
        klass_id(resolve_class(files, a, id)->Ok_0) == id,
        klass_id(resolve_class(files, b, next_id(id))->Ok_0) == next_id(id),
        klass_id(resolve_class(files, a, id)->Ok_0) != klass_id(resolve_class(files, b, next_id(id))->Ok_0),
{
}

/// The classes the loader holds (`infos`, by name) have ids below the
/// counter `id`, and no two names hold classes of the same id.
pub open spec fn ids_fresh(infos: Map<Seq<char>, ClassLoadingInfoView>, id: usize) -> bool {
    &&& forall|n: Seq<char>| #[trigger] infos.contains_key(n) && infos[n].klass is Some ==> klass_id(infos[n].klass->0) < id
    &&& forall|n1: Seq<char>, n2: Seq<char>|
        #[trigger] infos.contains_key(n1) && #[trigger] infos.contains_key(n2) && n1 != n2 && infos[n1].klass is Some
            && infos[n2].klass is Some ==> klass_id(infos[n1].klass->0) != klass_id(infos[n2].klass->0)
}

/// Each load keeps the classes the loader holds apart by their ids, while
/// the counter is below the largest `usize`: two names loaded in any order
/// hold classes of different ids. A loader starts with no classes.
pub proof fn law_loaded_classes_have_distinct_ids(
    files: Seq<ClassFile>,
    infos: Map<Seq<char>, ClassLoadingInfoView>,
    id: usize,
    name: Seq<char>,
)
    requires
        ids_fresh(infos, id),
        id < usize::MAX,
    ensures
        ids_fresh(Map::empty(), 0),
        ({
            let i = if infos.contains_key(name) { infos[name] } else { fresh_info() };
            ids_fresh(infos.insert(name, after_load(files, id, name, i)), id_after_load(files, id, name, i))
        }),
{
    let i = if infos.contains_key(name) { infos[name] } else { fresh_info() };
    let after = infos.insert(name, after_load(files, id, name, i));
    let id2 = id_after_load(files, id, name, i);
    assert(id <= id2);
    if i.state == ClassLoadingState::NotLoaded && resolve_class(files, name, id) is Ok {
        assert(klass_id(resolve_class(files, name, id)->Ok_0) == id) by {
            lemma_resolve_ids(files, name, id, id);
        }
        assert(after_load(files, id, name, i).klass == Some(resolve_class(files, name, id)->Ok_0));
    } else {
        assert(after_load(files, id, name, i).klass == i.klass);
    }
    assert forall|n: Seq<char>| #[trigger] after.contains_key(n) && after[n].klass is Some implies klass_id(after[n].klass->0) < id2 by {
        if n != name {
            assert(infos.contains_key(n));
        }
    }
    assert forall|n1: Seq<char>, n2: Seq<char>|
        #[trigger] after.contains_key(n1) && #[trigger] after.contains_key(n2) && n1 != n2 && after[n1].klass is Some
            && after[n2].klass is Some implies klass_id(after[n1].klass->0) != klass_id(after[n2].klass->0) by {
        if n1 != name && n2 != name {
            assert(infos.contains_key(n1) && infos.contains_key(n2));
        } else if n1 == name {
            assert(infos.contains_key(n2));
        } else {
            assert(infos.contains_key(n1));
        }
    }
}

/// Loading a name a second time changes nothing more: what the loader
/// keeps after one `load` stays as it is under another.
pub proof fn law_load_settles(files: Seq<ClassFile>, id: usize, name: Seq<char>, i: ClassLoadingInfoView)
    requires
        info_ok(i),
    ensures
        after_load(files, id, name, after_load(files, id, name, i)) == after_load(files, id, name, i),
{
}

/// A second `load` of a name answers as the first did: the same class when
/// the first gave one, an error of the same kind when the first failed.
pub proof fn law_load_answers_again(files: Seq<ClassFile>, id: usize, name: Seq<char>, i: ClassLoadingInfoView)
    requires
        info_ok(i),
    ensures
        load_answer(files, id, name, i) matches Ok(k) ==> load_answer(
            files,
            id,
            name,
            after_load(files, id, name, i),
        ) == Ok::<KlassView, (Seq<char>, Seq<char>)>(k),
        load_answer(files, id, name, i) matches Err(e) ==> (load_answer(
            files,
            id,
            name,
            after_load(files, id, name, i),
        ) matches Err(e2) && e2.0 == e.0),
{
}

/// Every entry the loader keeps stays in a state `info_ok` allows: in
/// particular no name is ever left half loaded.
/// What `load` answers never depends on what the loader kept: it is the
/// class the class path defines for the name, or an error when there is none.
pub proof fn law_load_answers_from_class_path(files: Seq<ClassFile>, id: usize, name: Seq<char>, i: ClassLoadingInfoView)
    requires
        info_ok(i),
        info_agrees(files, id, name, i),
    ensures
        load_answer(files, id, name, i) is Ok <==> resolve_class(files, name, id) is Ok,
        load_answer(files, id, name, i) matches Ok(k) ==> resolve_class(
            files,
            name,
            if i.state == ClassLoadingState::NotLoaded { id } else { klass_id(k) },
        ) == Ok::<KlassView, Seq<char>>(k),
{
    if let Some(k) = i.klass {
        lemma_resolve_ids(files, name, klass_id(k), id);
    }
}

pub proof fn law_load_keeps_entries_ok(files: Seq<ClassFile>, id: usize, name: Seq<char>, i: ClassLoadingInfoView)
    requires
        info_ok(i),
    ensures
        info_ok(after_load(files, id, name, i)),
        after_load(files, id, name, i).state != ClassLoadingState::NotLoaded,
        info_agrees(files, id, name, i) ==> info_agrees(files, id, name, after_load(files, id, name, i)),
{
}

} // verus!

verus! {

/// An array class that a name resolves to has as many dimensions as the
/// name starts with `[`s: the first `dimension` characters are `[` and the
/// next one is not. `[[D` is an array class of two dimensions.
pub proof fn law_array_dimension_counts_brackets(files: Seq<ClassFile>, n: Seq<char>, id: usize)
    requires
        n.len() <= usize::MAX,
    ensures
        resolve_class(files, n, id) matches Ok(KlassView::Array(a)) ==> {
            &&& 1 <= a.dimension <= n.len()
            &&& forall|i: int| 0 <= i < a.dimension ==> n[i] == '['
            &&& a.dimension < n.len() ==> n[a.dimension as int] != '['
        },
{
    crate::instructions::method_utils::lemma_count_leading_bound(n, '[');
}

} // verus!
