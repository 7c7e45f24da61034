//! The object graph of the program being checked: its classes, modules,
//! metaclasses, and the classes that stand in the ancestry for included
//! modules, with the constants, methods and instance variables that each of
//! them defines.
//!
//! Objects are numbered in the order they are made and refer to each other
//! by number.

use std::rc::Rc;
use vstd::prelude::*;
use crate::ast::{Id, Loc, Node};
use crate::abstract_type::{Prototype, TypeNodeRef};
use crate::define::MethodVisibility;
use crate::text::{decimal, decimal_string, push_str, str_eq};

verus! {

broadcast use vstd::string::group_string_axioms;

/// Where, why and with which type arguments a module was included.
pub struct IncludeSite {
    pub loc: Loc,
    pub module: usize,
    pub reason: usize,
    pub type_parameters: Vec<TypeNodeRef>,
}

/// Why an include was refused.
pub enum IncludeError {
    CyclicInclude,
    DuplicateInclude(Loc),
}

/// A class, module or metaclass, or the stand-in for an included module
/// in the ancestry of the class that includes it.
pub enum RubyObject {
    Module {
        id: usize,
        class: usize,
        name: String,
        superclass: Option<usize>,
        type_parameters: Vec<Id>,
    },
    Class {
        id: usize,
        class: usize,
        name: String,
        superclass: Option<usize>,
        type_parameters: Vec<Id>,
    },
    Metaclass {
        id: usize,
        class: usize,
        superclass: Option<usize>,
        of: usize,
    },
    IClass {
        id: usize,
        superclass: Option<usize>,
        site: Rc<IncludeSite>,
    },
}

/// The next object in the ancestry after `o`.
pub open spec fn sup_of(o: RubyObject) -> Option<usize> {
    match o {
        RubyObject::Module { superclass, .. } => superclass,
        RubyObject::Class { superclass, .. } => superclass,
        RubyObject::Metaclass { superclass, .. } => superclass,
        RubyObject::IClass { superclass, .. } => superclass,
    }
}

/// `o` with `s` as the next object in its ancestry.
pub open spec fn with_sup(o: RubyObject, s: Option<usize>) -> RubyObject {
    match o {
        RubyObject::Module { id, class, name, type_parameters, .. } =>
            RubyObject::Module { id, class, name, superclass: s, type_parameters },
        RubyObject::Class { id, class, name, type_parameters, .. } =>
            RubyObject::Class { id, class, name, superclass: s, type_parameters },
        RubyObject::Metaclass { id, class, of, .. } => RubyObject::Metaclass { id, class, superclass: s, of },
        RubyObject::IClass { id, site, .. } => RubyObject::IClass { id, superclass: s, site },
    }
}

/// The class of `o`; an included-module stand-in has none.
pub open spec fn class_of(o: RubyObject) -> Option<usize> {
    match o {
        RubyObject::Module { class, .. } => Some(class),
        RubyObject::Class { class, .. } => Some(class),
        RubyObject::Metaclass { class, .. } => Some(class),
        RubyObject::IClass { .. } => None,
    }
}

/// `o` with `c` as its class.
pub open spec fn with_class(o: RubyObject, c: usize) -> RubyObject {
    match o {
        RubyObject::Module { id, name, superclass, type_parameters, .. } =>
            RubyObject::Module { id, class: c, name, superclass, type_parameters },
        RubyObject::Class { id, name, superclass, type_parameters, .. } =>
            RubyObject::Class { id, class: c, name, superclass, type_parameters },
        RubyObject::Metaclass { id, superclass, of, .. } => RubyObject::Metaclass { id, class: c, superclass, of },
        RubyObject::IClass { .. } => o,
    }
}

/// The number an object was made with.
pub open spec fn id_of(o: RubyObject) -> usize {
    match o {
        RubyObject::Module { id, .. } => id,
        RubyObject::Class { id, .. } => id,
        RubyObject::Metaclass { id, .. } => id,
        RubyObject::IClass { id, .. } => id,
    }
}

/// The object whose methods, constants and instance variables `i` stands
/// for: the included module for a stand-in, else `i` itself.
pub open spec fn delegate_of(objs: Seq<RubyObject>, i: usize) -> usize {
    match objs[i as int] {
        RubyObject::IClass { site, .. } => site.module,
        _ => i,
    }
}

/// The ancestry of `o`, following at most `fuel` links: `o`, then the
/// ancestry of the next object.
pub open spec fn chain(objs: Seq<RubyObject>, o: usize, fuel: nat) -> Seq<usize>
    decreases fuel,
{
    if fuel == 0 {
        seq![]
    } else {
        match sup_of(objs[o as int]) {
            None => seq![o],
            Some(s) => seq![o] + chain(objs, s, (fuel - 1) as nat),
        }
    }
}

/// The ancestry of `o`: `o` itself, its superclass or the stand-in for the
/// module it included last, and so on up to the root.
pub open spec fn ancestry(objs: Seq<RubyObject>, o: usize) -> Seq<usize> {
    chain(objs, o, objs.len())
}

/// Ranks that go down along every link, each below the number of objects:
/// they show that every ancestry ends.
pub open spec fn ranked(objs: Seq<RubyObject>, ranks: Seq<nat>) -> bool {
    &&& ranks.len() == objs.len()
    &&& forall|i: int| 0 <= i < objs.len() ==> #[trigger] ranks[i] < objs.len()
    &&& forall|i: int| 0 <= i < objs.len() ==> match #[trigger] sup_of(objs[i]) {
        Some(s) => s < objs.len() && ranks[s as int] < ranks[i],
        None => true,
    }
}

/// The references each object holds point at objects made before it, or
/// for classes at any object, and a stand-in stands for a module, class or
/// metaclass; each object carries its number plus one.
pub open spec fn refs_ok(objs: Seq<RubyObject>, i: int) -> bool {
    &&& id_of(objs[i]) == i + 1
    &&& match objs[i] {
        RubyObject::Module { class, .. } => class < objs.len(),
        RubyObject::Class { class, .. } => class < objs.len(),
        RubyObject::Metaclass { class, of, .. } => class < objs.len() && of < i,
        RubyObject::IClass { site, .. } => site.module < i && site.reason < i
            && !(objs[site.module as int] is IClass),
    }
}

/// When the class of object `i` is a metaclass, it is the metaclass of `i`.
pub open spec fn meta_ok(objs: Seq<RubyObject>, i: int) -> bool {
    match class_of(objs[i]) {
        Some(c) => (objs[c as int] matches RubyObject::Metaclass { of, .. } ==> of == i),
        None => true,
    }
}

/// Whether the class or module that `c` holds, if it holds one, is an
/// object of `objs` other than a stand-in.
pub open spec fn const_valid(objs: Seq<RubyObject>, c: ConstantEntry) -> bool {
    match c {
        ConstantEntry::Module { value, .. } => value < objs.len() && !(objs[value as int] is IClass),
        ConstantEntry::Expression { .. } => true,
    }
}

/// The type parameters of an object: none for a metaclass.
pub open spec fn type_params(o: RubyObject) -> Seq<Id> {
    match o {
        RubyObject::Module { type_parameters, .. } => type_parameters@,
        RubyObject::Class { type_parameters, .. } => type_parameters@,
        _ => seq![],
    }
}

/// A table from an object and a name to a value.
pub struct ClassTable<T> {
    entries: Vec<(usize, String, T)>,
}

/// Whether entry `e` is stored for `o` and `name`.
pub open spec fn key_is<T>(e: (usize, String, T), o: usize, name: Seq<char>) -> bool {
    e.0 == o && e.1@ == name
}

/// The value for `o` and `name` among `s`: the first entry for them.
pub open spec fn table_find<T>(s: Seq<(usize, String, T)>, o: usize, name: Seq<char>) -> Option<T>
    decreases s.len(),
{
    if s.len() == 0 {
        None
    } else if key_is(s[0], o, name) {
        Some(s[0].2)
    } else {
        table_find(s.drop_first(), o, name)
    }
}

proof fn lemma_table_find_push<T>(s: Seq<(usize, String, T)>, x: (usize, String, T), o: usize, name: Seq<char>)
    ensures
        table_find(s.push(x), o, name) == match table_find(s, o, name) {
            Some(v) => Some(v),
            None => if key_is(x, o, name) { Some(x.2) } else { None },
        },
    decreases s.len(),
{
    let t = s.push(x);
    if s.len() == 0 {
        assert(t[0] == x);
        assert(t.drop_first() =~= Seq::<(usize, String, T)>::empty());
        assert(table_find(t.drop_first(), o, name) is None);
    } else {
        assert(t[0] == s[0]);
        assert(t.drop_first() =~= s.drop_first().push(x));
        lemma_table_find_push(s.drop_first(), x, o, name);
    }
}

proof fn lemma_table_find_update<T>(s: Seq<(usize, String, T)>, k: int, x: (usize, String, T), o: usize, name: Seq<char>)
    requires
        0 <= k < s.len(),
        key_is(s[k], x.0, x.1@),
        forall|j: int| 0 <= j < k ==> !key_is(#[trigger] s[j], x.0, x.1@),
    ensures
        table_find(s.update(k, x), o, name) == if key_is(x, o, name) { Some(x.2) } else { table_find(s, o, name) },
    decreases s.len(),
{
    let t = s.update(k, x);
    if k == 0 {
        assert(t[0] == x);
        assert(t.drop_first() =~= s.drop_first());
    } else {
        assert(t[0] == s[0]);
        assert(!key_is(s[0], x.0, x.1@));
        assert(t.drop_first() =~= s.drop_first().update(k - 1, x));
        assert forall|j: int| 0 <= j < k - 1 implies !key_is(#[trigger] s.drop_first()[j], x.0, x.1@) by {
            assert(s.drop_first()[j] == s[j + 1]);
        }
        lemma_table_find_update(s.drop_first(), k - 1, x, o, name);
    }
}

proof fn lemma_table_find_absent<T>(s: Seq<(usize, String, T)>, o: usize, name: Seq<char>)
    requires
        forall|j: int| 0 <= j < s.len() ==> !key_is(#[trigger] s[j], o, name),
    ensures
        table_find(s, o, name) is None,
    decreases s.len(),
{
    if s.len() > 0 {
        assert(!key_is(s[0], o, name));
        assert forall|j: int| 0 <= j < s.drop_first().len() implies !key_is(#[trigger] s.drop_first()[j], o, name) by {
            assert(s.drop_first()[j] == s[j + 1]);
        }
        lemma_table_find_absent(s.drop_first(), o, name);
    }
}

impl<T> ClassTable<T> {
    /// The value stored for `o` and `name`.
    pub closed spec fn get(&self, o: usize, name: Seq<char>) -> Option<T> {
        table_find(self.entries@, o, name)
    }

    pub fn new() -> (r: Self)
        ensures
            forall|o: usize, name: Seq<char>| #[trigger] r.get(o, name) is None,
    {
        ClassTable { entries: Vec::new() }
    }

    /// The value stored for `o` and `name`, if any.
    pub fn lookup(&self, o: usize, name: &str) -> (r: Option<&T>)
        ensures
            match r {
                Some(v) => self.get(o, name@) == Some(*v),
                None => self.get(o, name@) is None,
            },
    {
        let mut i: usize = 0;
        assert(self.entries@.skip(0) =~= self.entries@);
        while i < self.entries.len()
            invariant
                i <= self.entries@.len(),
                table_find(self.entries@, o, name@) == table_find(self.entries@.skip(i as int), o, name@),
            decreases self.entries@.len() - i,
        {
            assert(self.entries@.skip(i as int)[0] == self.entries@[i as int]);
            assert(self.entries@.skip(i as int).drop_first() =~= self.entries@.skip(i + 1));
            if self.entries[i].0 == o && str_eq(self.entries[i].1.as_str(), name) {
                return Some(&self.entries[i].2);
            }
            i = i + 1;
        }
        assert(self.entries@.skip(i as int) =~= Seq::<(usize, String, T)>::empty());
        None
    }

    /// Stores `value` for `o` and `name`, in place of what was stored for
    /// them before; the other entries stay as they were.
    pub fn insert(&mut self, o: usize, name: String, value: T)
        ensures
            forall|o2: usize, n2: Seq<char>| #[trigger] final(self).get(o2, n2)
                == if o2 == o && n2 == name@ { Some(value) } else { old(self).get(o2, n2) },
    {
        let ghost key = name@;
        let mut i: usize = 0;
        while i < self.entries.len()
            invariant
                i <= self.entries@.len(),
                key == name@,
                self.entries@ == old(self).entries@,
                forall|j: int| 0 <= j < i ==> !key_is(#[trigger] self.entries@[j], o, key),
            decreases self.entries@.len() - i,
        {
            if self.entries[i].0 == o && str_eq(self.entries[i].1.as_str(), name.as_str()) {
                let ghost s = self.entries@;
                let ghost x = (o, name, value);
                self.entries.set(i, (o, name, value));
                proof {
                    assert(self.entries@ == s.update(i as int, x));
                    assert forall|o2: usize, n2: Seq<char>| #[trigger] self.get(o2, n2)
                        == if o2 == o && n2 == key { Some(value) } else { old(self).get(o2, n2) } by {
                        lemma_table_find_update(s, i as int, x, o2, n2);
                    }
                }
                return;
            }
            i = i + 1;
        }
        let ghost s = self.entries@;
        let ghost x = (o, name, value);
        proof {
            lemma_table_find_absent(s, o, key);
        }
        self.entries.push((o, name, value));
        proof {
            assert(self.entries@ == s.push(x));
            assert forall|o2: usize, n2: Seq<char>| #[trigger] self.get(o2, n2)
                == if o2 == o && n2 == key { Some(value) } else { old(self).get(o2, n2) } by {
                lemma_table_find_push(s, x, o2, n2);
            }
        }
    }
}

/// A method defined on a class or module.
pub struct MethodEntry {
    pub owner: usize,
    pub visibility: MethodVisibility,
    pub implementation: Rc<MethodImpl>,
}

/// What a method does.
pub enum MethodImpl {
    TypedRuby {
        name: String,
        proto: Prototype,
        body: Option<Rc<Node>>,
        scope: Rc<Scope>,
    },
    Ruby {
        name: String,
        proto: Prototype,
    },
    AttrReader {
        ivar: String,
        loc: Loc,
    },
    AttrWriter {
        ivar: String,
        loc: Loc,
    },
    Untyped,
    IntrinsicClassNew,
    IntrinsicProcCall,
    IntrinsicKernelRaise,
    IntrinsicKernelIsA,
    IntrinsicRevealType,
}

/// What a constant holds: a class or module, or the value of an expression
/// of a given type.
pub enum ConstantEntry {
    Module {
        loc: Option<Loc>,
        value: usize,
    },
    Expression {
        loc: Loc,
        ty: TypeNodeRef,
        scope_self: usize,
    },
}

impl ConstantEntry {
    /// The class or module the constant holds, if it holds one.
    pub fn module(&self) -> (r: Option<usize>)
        ensures
            r == match *self {
                ConstantEntry::Module { value, .. } => Some(value),
                _ => None,
            },
    {
        match self {
            ConstantEntry::Module { value, .. } => Some(*value),
            _ => None,
        }
    }

    /// The class or module the constant holds; it must hold one.
    pub fn expect_module(&self) -> (r: usize)
        requires
            *self is Module,
        ensures
            *self matches ConstantEntry::Module { value, .. } && r == value,
    {
        match self {
            ConstantEntry::Module { value, .. } => *value,
            _ => 0,
        }
    }
}

/// The type declared for an instance variable, and where.
pub struct IvarEntry {
    pub ivar_loc: Loc,
    pub ty: TypeNodeRef,
}

/// A lexical scope: the module whose body it is, inside its parent.
pub struct Scope {
    pub parent: Option<Rc<Scope>>,
    pub module: usize,
}

/// The outermost scope around `s`.
pub open spec fn scope_root(s: Scope) -> Scope
    decreases s,
{
    match s.parent {
        Some(p) => scope_root(*p),
        None => s,
    }
}

/// The modules of `s` and of the scopes around it, innermost first.
pub open spec fn scope_modules(s: Scope) -> Seq<usize>
    decreases s,
{
    match s.parent {
        Some(p) => seq![s.module] + scope_modules(*p),
        None => seq![s.module],
    }
}

/// Walks the ancestry of an object one object at a time: the object, then
/// the next one in its ancestry, and so on.
pub struct AncestorIterator {
    pub object: Option<usize>,
}

impl AncestorIterator {
    /// The current object, moving on to the next one in the ancestry.
    pub fn next(&mut self, graph: &ObjectGraph) -> (r: Option<usize>)
        requires
            graph.wf(),
            old(self).object matches Some(o) ==> o < graph@.len(),
        ensures
            r == old(self).object,
            final(self).object == match old(self).object {
                Some(o) => sup_of(graph@[o as int]),
                None => None,
            },
            final(self).object matches Some(o) ==> o < graph@.len(),
    {
        match self.object {
            Some(o) => {
                proof {
                    graph.lemma_wf_facts(o as int);
                }
                self.object = graph.superclass_link(o);
                Some(o)
            },
            None => None,
        }
    }
}

/// Walks a scope and the scopes around it, innermost first.
pub struct ScopeIter {
    pub scope: Option<Rc<Scope>>,
}

impl ScopeIter {
    /// The current scope, moving on to the one around it.
    pub fn next(&mut self) -> (r: Option<Rc<Scope>>)
        ensures
            r == old(self).scope,
            final(self).scope == match old(self).scope {
                Some(s) => s.parent,
                None => None,
            },
    {
        match &self.scope {
            Some(s) => {
                let s = Rc::clone(s);
                self.scope = match &s.parent {
                    Some(p) => Some(Rc::clone(p)),
                    None => None,
                };
                Some(s)
            },
            None => None,
        }
    }
}

impl Scope {
    /// The outermost scope around `scope`.
    pub fn root(scope: &Rc<Scope>) -> (r: Rc<Scope>)
        ensures
            *r == scope_root(**scope),
        decreases **scope,
    {
        match &scope.parent {
            Some(parent) => Scope::root(parent),
            None => Rc::clone(scope),
        }
    }

    /// `scope` and the scopes around it, innermost first.
    pub fn ancestors(scope: &Rc<Scope>) -> (r: Vec<Rc<Scope>>)
        ensures
            r@.len() == scope_modules(**scope).len(),
            r@.len() > 0 && r@[0] == *scope,
            forall|i: int| 0 <= i < r@.len() ==> #[trigger] r@[i].module == scope_modules(**scope)[i],
            forall|i: int| 0 < i < r@.len() ==> (#[trigger] r@[i - 1]).parent == Some(r@[i]),
            *r@.last() == scope_root(**scope),
            r@.last().parent is None,
        decreases **scope,
    {
        let mut r: Vec<Rc<Scope>> = Vec::new();
        r.push(Rc::clone(scope));
        match &scope.parent {
            Some(parent) => {
                let mut rest = Scope::ancestors(parent);
                let ghost tail = rest@;
                r.append(&mut rest);
                assert(r@.last() == tail.last());
            },
            None => {},
        }
        r
    }

    /// A scope for the body of `module` inside `scope`.
    pub fn spawn(scope: &Rc<Scope>, module: usize) -> (r: Rc<Scope>)
        ensures
            r.parent == Some(*scope),
            r.module == module,
    {
        Rc::new(Scope { parent: Some(Rc::clone(scope)), module })
    }
}


/// The text of a location: the file name and the byte range.
pub open spec fn loc_text(loc: Loc) -> Seq<char> {
    loc.file.filename@ + ":"@ + decimal(loc.begin_pos as nat) + ".."@ + decimal(loc.end_pos as nat)
}

/// The name of object `i`: its own for a class or module, `Class::[..]`
/// around the name of the object for a metaclass, and for a stand-in the
/// module, the includer and the place of the include.
pub open spec fn obj_name(objs: Seq<RubyObject>, i: int) -> Seq<char>
    decreases i,
{
    if i < 0 || i >= objs.len() {
        seq![]
    } else {
        match objs[i] {
            RubyObject::Module { name, .. } => name@,
            RubyObject::Class { name, .. } => name@,
            RubyObject::Metaclass { of, .. } =>
                if of < i { "Class::["@ + obj_name(objs, of as int) + "]"@ } else { seq![] },
            RubyObject::IClass { site, .. } =>
                if site.module < i && site.reason < i {
                    "iclass for "@ + obj_name(objs, site.module as int) + " (included from "@
                        + obj_name(objs, site.reason as int) + " at "@ + loc_text(site.loc) + ")"@
                } else {
                    seq![]
                },
        }
    }
}


/// The constant `name` defined on the first object along `anc` that
/// defines it, through delegates.
pub open spec fn const_along(g: ObjectGraph, anc: Seq<usize>, name: Seq<char>) -> Option<Rc<ConstantEntry>>
    decreases anc.len(),
{
    if anc.len() == 0 {
        None
    } else {
        match g.const_of(delegate_of(g@, anc[0]), name) {
            Some(c) => Some(c),
            None => const_along(g, anc.drop_first(), name),
        }
    }
}

/// The method `name` of the first object along `anc` that defines it.
pub open spec fn method_along(g: ObjectGraph, anc: Seq<usize>, name: Seq<char>) -> Option<Rc<MethodEntry>>
    decreases anc.len(),
{
    if anc.len() == 0 {
        None
    } else {
        match g.method_of(delegate_of(g@, anc[0]), name) {
            Some(m) => Some(m),
            None => method_along(g, anc.drop_first(), name),
        }
    }
}

/// The instance variable `name` of the first object along `anc` that
/// declares it.
pub open spec fn ivar_along(g: ObjectGraph, anc: Seq<usize>, name: Seq<char>) -> Option<Rc<IvarEntry>>
    decreases anc.len(),
{
    if anc.len() == 0 {
        None
    } else {
        match g.ivar_of(delegate_of(g@, anc[0]), name) {
            Some(v) => Some(v),
            None => ivar_along(g, anc.drop_first(), name),
        }
    }
}

/// The graph of all classes and modules.
#[allow(non_snake_case)]
pub struct ObjectGraph {
    objects: Vec<RubyObject>,
    ranks: Ghost<Seq<nat>>,
    pub BasicObject: usize,
    pub Object: usize,
    pub Module: usize,
    pub Class: usize,
    pub Kernel: usize,
    pub Boolean: usize,
    pub TrueClass: usize,
    pub FalseClass: usize,
    pub NilClass: usize,
    pub Symbol: usize,
    pub String: usize,
    pub Numeric: usize,
    pub Integer: usize,
    pub Float: usize,
    pub Regexp: usize,
    pub Proc: usize,
    pub Exception: usize,
    pub StandardError: usize,
    constants: ClassTable<Rc<ConstantEntry>>,
    methods: ClassTable<Rc<MethodEntry>>,
    ivars: ClassTable<Rc<IvarEntry>>,
}

impl View for ObjectGraph {
    type V = Seq<RubyObject>;

    closed spec fn view(&self) -> Seq<RubyObject> {
        self.objects@
    }
}

impl ObjectGraph {
    /// The constant `name` defined directly on `o`.
    pub closed spec fn const_of(&self, o: usize, name: Seq<char>) -> Option<Rc<ConstantEntry>> {
        self.constants.get(o, name)
    }

    /// The method `name` defined directly on `o`.
    pub closed spec fn method_of(&self, o: usize, name: Seq<char>) -> Option<Rc<MethodEntry>> {
        self.methods.get(o, name)
    }

    /// The instance variable `name` declared directly on `o`.
    pub closed spec fn ivar_of(&self, o: usize, name: Seq<char>) -> Option<Rc<IvarEntry>> {
        self.ivars.get(o, name)
    }

    /// The objects the graph names, made when it was built.
    pub closed spec fn named(&self) -> Seq<usize> {
        seq![self.BasicObject, self.Object, self.Module, self.Class, self.Kernel, self.Boolean,
            self.TrueClass, self.FalseClass, self.NilClass, self.Symbol, self.String, self.Numeric,
            self.Integer, self.Float, self.Regexp, self.Proc, self.Exception, self.StandardError]
    }

    /// Every ancestry ends, every reference points into the graph, and the
    /// objects the graph names are in it, `Object` being a class.
    pub closed spec fn wf(&self) -> bool {
        &&& ranked(self.objects@, self.ranks@)
        &&& forall|i: int| 0 <= i < self.objects@.len() ==> #[trigger] refs_ok(self.objects@, i)
        &&& forall|i: int| 0 <= i < self.objects@.len() ==> #[trigger] meta_ok(self.objects@, i)
        &&& forall|k: int| 0 <= k < self.named().len() ==> #[trigger] self.named()[k] < self.objects@.len()
        &&& self.objects@[self.Object as int] is Class
        &&& self.objects@[self.Class as int] is Class
        &&& self.objects@[self.Module as int] is Class
        &&& self.consts_valid()
    }

    /// Every constant that holds a class or module holds an object of the
    /// graph that is no stand-in.
    pub closed spec fn consts_valid(&self) -> bool {
        forall|o: usize, n: Seq<char>| #[trigger] self.constants.get(o, n) is Some
            ==> const_valid(self.objects@, *self.constants.get(o, n)->0)
    }

    /// Whether `o` is this graph's object with its number.
    pub open spec fn holds(&self, o: RubyObject) -> bool {
        1 <= id_of(o) <= self@.len() && self@[id_of(o) - 1] == o
    }

    /// The object numbered `i`.
    pub fn object(&self, i: usize) -> (r: &RubyObject)
        requires
            i < self@.len(),
        ensures
            *r == self@[i as int],
    {
        &self.objects[i]
    }

    /// The number of objects.
    pub fn size(&self) -> (r: usize)
        ensures
            r == self@.len(),
    {
        self.objects.len()
    }

    /// Each object of the graph is held by it under its own number.
    pub proof fn lemma_holds(&self, i: usize)
        requires
            self.wf(),
            i < self@.len(),
        ensures
            self.holds(self@[i as int]),
            id_of(self@[i as int]) - 1 == i,
    {
        self.lemma_wf_facts(i as int);
    }

    /// Delegating twice is delegating once: what a stand-in for an
    /// included module delegates to is never a stand-in itself.
    pub proof fn lemma_delegate_idempotent(&self, i: usize)
        requires
            self.wf(),
            i < self@.len(),
        ensures
            delegate_of(self@, delegate_of(self@, i)) == delegate_of(self@, i),
    {
        self.lemma_wf_facts(i as int);
    }

    /// Every ancestry ends at its root: an object with neither a
    /// superclass nor an included module after it.
    pub proof fn lemma_ancestry_ends_at_root(&self, o: usize)
        requires
            self.wf(),
            o < self@.len(),
        ensures
            ancestry(self@, o).len() > 0,
            sup_of(self@[ancestry(self@, o).last() as int]) is None,
    {
        self.lemma_wf_facts(o as int);
        lemma_chain_ends(self@, self.ranks@, o, self@.len());
    }

    proof fn lemma_wf_facts(&self, i: int)
        requires
            self.wf(),
            0 <= i < self@.len(),
        ensures
            refs_ok(self@, i),
            meta_ok(self@, i),
            self.ranks@.len() == self@.len(),
            self.ranks@[i] < self@.len(),
            sup_of(self@[i]) matches Some(s) ==> s < self@.len() && self.ranks@[s as int] < self.ranks@[i],
            delegate_of(self@, i as usize) < self@.len(),
            !(self@[delegate_of(self@, i as usize) as int] is IClass),
    {
        assert(refs_ok(self@, i));
        assert(meta_ok(self@, i));
        assert(self.ranks@[i] < self@.len());
        let _ = sup_of(self@[i]);
    }

    /// The ancestry of `o` as a vector.
    pub fn ancestors_of(&self, o: usize) -> (r: Vec<usize>)
        requires
            self.wf(),
            o < self@.len(),
        ensures
            r@ == ancestry(self@, o),
            forall|k: int| 0 <= k < r@.len() ==> #[trigger] r@[k] < self@.len(),
    {
        let ghost objs = self@;
        let ghost hs = self.ranks@;
        let mut r: Vec<usize> = Vec::new();
        let mut cur = o;
        proof {
            self.lemma_wf_facts(o as int);
        }
        loop
            invariant_except_break
                r@.len() + hs[cur as int] <= hs[o as int],
                ancestry(objs, o) == r@ + chain(objs, cur, (objs.len() - r@.len()) as nat),
            invariant
                self.wf(),
                objs == self@,
                hs == self.ranks@,
                o < objs.len(),
                cur < objs.len(),
                forall|k: int| 0 <= k < r@.len() ==> #[trigger] r@[k] < objs.len(),
            ensures
                r@ == ancestry(objs, o),
                forall|k: int| 0 <= k < r@.len() ==> #[trigger] r@[k] < objs.len(),
            decreases hs[cur as int],
        {
            proof {
                self.lemma_wf_facts(cur as int);
                self.lemma_wf_facts(o as int);
            }
            r.push(cur);
            match self.superclass_link(cur) {
                None => {
                    assert(ancestry(objs, o) =~= r@);
                    break;
                },
                Some(s) => {
                    proof {
                        self.lemma_wf_facts(s as int);
                        assert(ancestry(objs, o) =~= r@ + chain(objs, s, (objs.len() - r@.len()) as nat));
                    }
                    cur = s;
                },
            }
        }
        r
    }

    /// The next object in the ancestry after `i`.
    fn superclass_link(&self, i: usize) -> (r: Option<usize>)
        requires
            i < self@.len(),
        ensures
            r == sup_of(self@[i as int]),
    {
        match &self.objects[i] {
            RubyObject::Module { superclass, .. } => *superclass,
            RubyObject::Class { superclass, .. } => *superclass,
            RubyObject::Metaclass { superclass, .. } => *superclass,
            RubyObject::IClass { superclass, .. } => *superclass,
        }
    }
}



/// The include sites met along `anc` up to the first object that stands
/// for `d`, keyed by the module each includes, `acc` holding those met
/// before: a class, module or metaclass forgets those before it.
pub open spec fn include_tree(objs: Seq<RubyObject>, anc: Seq<usize>, d: usize, acc: Seq<(usize, Rc<IncludeSite>)>)
    -> Seq<(usize, Rc<IncludeSite>)>
    decreases anc.len(),
{
    if anc.len() == 0 {
        acc
    } else {
        let acc2 = match objs[anc[0] as int] {
            RubyObject::IClass { site, .. } => acc.push((site.module, site)),
            _ => seq![],
        };
        if delegate_of(objs, anc[0]) == d { acc2 } else { include_tree(objs, anc.drop_first(), d, acc2) }
    }
}

/// The site stored last for the module `k` in `t`.
pub open spec fn tree_get(t: Seq<(usize, Rc<IncludeSite>)>, k: usize) -> Option<Rc<IncludeSite>>
    decreases t.len(),
{
    if t.len() == 0 {
        None
    } else if t.last().0 == k {
        Some(t.last().1)
    } else {
        tree_get(t.drop_last(), k)
    }
}

/// The sites through which `cur` was included, following each to the
/// module that included it, at most `fuel` of them.
pub open spec fn chain_from(t: Seq<(usize, Rc<IncludeSite>)>, cur: usize, fuel: nat) -> Seq<Rc<IncludeSite>>
    decreases fuel,
{
    if fuel == 0 {
        seq![]
    } else {
        match tree_get(t, cur) {
            Some(site) => seq![site] + chain_from(t, site.reason, (fuel - 1) as nat),
            None => seq![],
        }
    }
}

/// The include sites through which the module `d` came into the ancestry
/// `anc`, outermost first.
pub open spec fn include_chain_of(objs: Seq<RubyObject>, anc: Seq<usize>, d: usize) -> Seq<Rc<IncludeSite>> {
    let t = include_tree(objs, anc, d, seq![]);
    chain_from(t, d, t.len()).reverse()
}


/// The site stored last for the module `k` in `tree`.
fn tree_lookup(tree: &Vec<(usize, Rc<IncludeSite>)>, k: usize) -> (r: Option<Rc<IncludeSite>>)
    ensures
        r == tree_get(tree@, k),
{
    let mut j: usize = tree.len();
    assert(tree@.take(tree@.len() as int) =~= tree@);
    while j > 0
        invariant
            j <= tree@.len(),
            tree_get(tree@, k) == tree_get(tree@.take(j as int), k),
        decreases j,
    {
        assert(tree@.take(j as int).drop_last() =~= tree@.take(j - 1));
        if tree[j - 1].0 == k {
            return Some(Rc::clone(&tree[j - 1].1));
        }
        j = j - 1;
    }
    None
}

/// The first object after `o` in its ancestry that is not a stand-in.
pub open spec fn superclass_in(objs: Seq<RubyObject>, anc: Seq<usize>) -> Option<usize>
    decreases anc.len(),
{
    if anc.len() == 0 {
        None
    } else if !(objs[anc[0] as int] is IClass) {
        Some(anc[0])
    } else {
        superclass_in(objs, anc.drop_first())
    }
}

impl RubyObject {
    fn id(&self) -> (r: usize)
        ensures
            r == id_of(*self),
    {
        match self {
            RubyObject::Module { id, .. } => *id,
            RubyObject::Class { id, .. } => *id,
            RubyObject::Metaclass { id, .. } => *id,
            RubyObject::IClass { id, .. } => *id,
        }
    }

    /// The number of the object whose methods and constants this one
    /// stands for: the included module for a stand-in, else itself.
    pub fn delegate(&self, graph: &ObjectGraph) -> (r: usize)
        requires
            graph.wf(),
            graph.holds(*self),
        ensures
            r == delegate_of(graph@, (id_of(*self) - 1) as usize),
            r < graph@.len(),
            !(graph@[r as int] is IClass),
    {
        proof {
            graph.lemma_wf_facts(id_of(*self) - 1);
        }
        match self {
            RubyObject::IClass { site, .. } => site.module,
            _ => self.id() - 1,
        }
    }

    /// The type parameters of a class or module; a metaclass has none.
    pub fn type_parameters(&self) -> (r: &[Id])
        requires
            !(*self is IClass),
        ensures
            r@ == type_params(*self),
    {
        match self {
            RubyObject::Metaclass { .. } => &[],
            RubyObject::Module { type_parameters, .. } => type_parameters.as_slice(),
            RubyObject::Class { type_parameters, .. } => type_parameters.as_slice(),
            RubyObject::IClass { .. } => &[],
        }
    }

    /// A walk over the ancestry of this object, starting at it.
    pub fn ancestor_iter(&self, graph: &ObjectGraph) -> (r: AncestorIterator)
        requires
            graph.holds(*self),
        ensures
            r.object == Some((id_of(*self) - 1) as usize),
    {
        AncestorIterator { object: Some(self.id() - 1) }
    }

    /// The ancestry of this object.
    pub fn ancestors(&self, graph: &ObjectGraph) -> (r: Vec<usize>)
        requires
            graph.wf(),
            graph.holds(*self),
        ensures
            r@ == ancestry(graph@, (id_of(*self) - 1) as usize),
    {
        graph.ancestors_of(self.id() - 1)
    }

    /// The include sites through which `module` came into the ancestry of
    /// this object, outermost first: from the include in this object's
    /// nearest class down to the one that included `module` itself.
    pub fn include_chain(&self, graph: &ObjectGraph, module: usize) -> (r: Vec<Rc<IncludeSite>>)
        requires
            graph.wf(),
            graph.holds(*self),
            module < graph@.len(),
        ensures
            r@ == include_chain_of(graph@, ancestry(graph@, (id_of(*self) - 1) as usize), delegate_of(graph@, module)),
    {
        let ghost objs = graph@;
        let anc = graph.ancestors_of(self.id() - 1);
        let d = graph.delegate_index(module);
        let mut tree: Vec<(usize, Rc<IncludeSite>)> = Vec::new();
        let mut i: usize = 0;
        assert(anc@.skip(0) =~= anc@);
        while i < anc.len()
            invariant_except_break
                include_tree(objs, anc@, d, seq![]) == include_tree(objs, anc@.skip(i as int), d, tree@),
            invariant
                i <= anc@.len(),
                graph.wf(),
                objs == graph@,
                forall|k: int| 0 <= k < anc@.len() ==> #[trigger] anc@[k] < graph@.len(),
            ensures
                include_tree(objs, anc@, d, seq![]) == tree@,
            decreases anc@.len() - i,
        {
            let a = anc[i];
            assert(anc@.skip(i as int)[0] == a);
            assert(anc@.skip(i as int).drop_first() =~= anc@.skip(i + 1));
            match graph.object(a) {
                RubyObject::IClass { site, .. } => {
                    tree.push((site.module, Rc::clone(site)));
                },
                _ => {
                    tree = Vec::new();
                    assert(tree@ =~= Seq::<(usize, Rc<IncludeSite>)>::empty());
                },
            }
            if graph.delegate_index(a) == d {
                break;
            }
            i = i + 1;
        }
        proof {
            if i == anc@.len() {
                assert(anc@.skip(i as int) =~= Seq::<usize>::empty());
            }
        }
        let ghost t = tree@;
        let mut chain: Vec<Rc<IncludeSite>> = Vec::new();
        let mut cur = d;
        let mut fuel = tree.len();
        loop
            invariant
                t == tree@,
                fuel <= t.len(),
                chain_from(t, d, t.len()) == chain@ + chain_from(t, cur, fuel as nat),
            ensures
                chain_from(t, d, t.len()) == chain@,
            decreases fuel,
        {
            if fuel == 0 {
                assert(chain@ + chain_from(t, cur, 0) =~= chain@);
                break;
            }
            match tree_lookup(&tree, cur) {
                Some(site) => {
                    let ghost before = chain@;
                    chain.push(Rc::clone(&site));
                    assert(before + chain_from(t, cur, fuel as nat) =~= chain@ + chain_from(t, site.reason, (fuel - 1) as nat));
                    cur = site.reason;
                    fuel = fuel - 1;
                },
                None => {
                    assert(chain@ + chain_from(t, cur, fuel as nat) =~= chain@);
                    break;
                },
            }
        }
        let mut r: Vec<Rc<IncludeSite>> = Vec::new();
        let mut j: usize = chain.len();
        while j > 0
            invariant
                j <= chain@.len(),
                r@ =~= chain@.subrange(j as int, chain@.len() as int).reverse(),
            decreases j,
        {
            j = j - 1;
            r.push(Rc::clone(&chain[j]));
            assert(chain@.subrange(j as int, chain@.len() as int).reverse()
                =~= chain@.subrange(j + 1, chain@.len() as int).reverse().push(chain@[j as int]));
        }
        assert(chain@.subrange(0, chain@.len() as int) =~= chain@);
        assert(r@ =~= chain@.reverse());
        r
    }

    /// Whether `other` is this object or one of its ancestors, an included
    /// module counting through its stand-in.
    pub fn is_a(&self, graph: &ObjectGraph, other: usize) -> (r: bool)
        requires
            graph.wf(),
            graph.holds(*self),
        ensures
            r == exists|k: int| 0 <= k < ancestry(graph@, (id_of(*self) - 1) as usize).len()
                && delegate_of(graph@, #[trigger] ancestry(graph@, (id_of(*self) - 1) as usize)[k]) == other,
    {
        let anc = graph.ancestors_of(self.id() - 1);
        let mut i: usize = 0;
        while i < anc.len()
            invariant
                i <= anc@.len(),
                graph.wf(),
                anc@ == ancestry(graph@, (id_of(*self) - 1) as usize),
                forall|k: int| 0 <= k < anc@.len() ==> #[trigger] anc@[k] < graph@.len(),
                forall|k: int| 0 <= k < i ==> delegate_of(graph@, #[trigger] anc@[k]) != other,
            decreases anc@.len() - i,
        {
            if graph.delegate_index(anc[i]) == other {
                return true;
            }
            i = i + 1;
        }
        false
    }

    /// The next class, module or metaclass in the ancestry, skipping the
    /// stand-ins for included modules.
    pub fn superclass(&self, graph: &ObjectGraph) -> (r: Option<usize>)
        requires
            graph.wf(),
            graph.holds(*self),
            !(*self is IClass),
        ensures
            r == superclass_in(graph@, ancestry(graph@, (id_of(*self) - 1) as usize).drop_first()),
    {
        graph.superclass_of(self.id() - 1)
    }

    /// The name of this object.
    pub fn name(&self, graph: &ObjectGraph) -> (r: String)
        requires
            graph.wf(),
            graph.holds(*self),
        ensures
            r@ == obj_name(graph@, id_of(*self) - 1),
    {
        graph.name_of(self.id() - 1)
    }
}

impl ObjectGraph {
    /// The delegate of object `i`.
    pub fn delegate_index(&self, i: usize) -> (r: usize)
        requires
            self.wf(),
            i < self@.len(),
        ensures
            r == delegate_of(self@, i),
            r < self@.len(),
            !(self@[r as int] is IClass),
    {
        proof {
            self.lemma_wf_facts(i as int);
        }
        match &self.objects[i] {
            RubyObject::IClass { site, .. } => site.module,
            _ => i,
        }
    }

    /// The first class, module or metaclass after `o` in its ancestry.
    pub fn superclass_of(&self, o: usize) -> (r: Option<usize>)
        requires
            self.wf(),
            o < self@.len(),
        ensures
            r == superclass_in(self@, ancestry(self@, o).drop_first()),
            r matches Some(c) ==> c < self@.len() && !(self@[c as int] is IClass),
    {
        let anc = self.ancestors_of(o);
        let mut i: usize = 1;
        proof {
            lemma_chain_nonempty(self@, o, self@.len());
            assert(anc@.drop_first() =~= anc@.skip(1));
        }
        while i < anc.len()
            invariant
                1 <= i <= anc@.len(),
                anc@ == ancestry(self@, o),
                self.wf(),
                forall|k: int| 0 <= k < anc@.len() ==> #[trigger] anc@[k] < self@.len(),
                superclass_in(self@, anc@.drop_first()) == superclass_in(self@, anc@.skip(i as int)),
            decreases anc@.len() - i,
        {
            assert(anc@.skip(i as int).drop_first() =~= anc@.skip(i + 1));
            assert(anc@.skip(i as int)[0] == anc@[i as int]);
            match &self.objects[anc[i]] {
                RubyObject::IClass { .. } => {},
                _ => {
                    return Some(anc[i]);
                },
            }
            i = i + 1;
        }
        None
    }

    /// The name of object `i`.
    pub fn name_of(&self, i: usize) -> (r: String)
        requires
            self.wf(),
            i < self@.len(),
        ensures
            r@ == obj_name(self@, i as int),
        decreases i,
    {
        proof {
            self.lemma_wf_facts(i as int);
        }
        match &self.objects[i] {
            RubyObject::Module { name, .. } => name.clone(),
            RubyObject::Class { name, .. } => name.clone(),
            RubyObject::Metaclass { of, .. } => {
                let mut r = "Class::[".to_owned();
                let inner = self.name_of(*of);
                push_str(&mut r, inner.as_str());
                push_str(&mut r, "]");
                assert(r@ =~= obj_name(self@, i as int));
                r
            },
            RubyObject::IClass { site, .. } => {
                let mut r = "iclass for ".to_owned();
                let m = self.name_of(site.module);
                push_str(&mut r, m.as_str());
                push_str(&mut r, " (included from ");
                let reason = self.name_of(site.reason);
                push_str(&mut r, reason.as_str());
                push_str(&mut r, " at ");
                push_str(&mut r, site.loc.file.filename.as_str());
                push_str(&mut r, ":");
                let b = decimal_string(site.loc.begin_pos);
                push_str(&mut r, b.as_str());
                push_str(&mut r, "..");
                let e = decimal_string(site.loc.end_pos);
                push_str(&mut r, e.as_str());
                push_str(&mut r, ")");
                assert(r@ =~= obj_name(self@, i as int));
                r
            },
        }
    }
}

proof fn lemma_chain_nonempty(objs: Seq<RubyObject>, o: usize, fuel: nat)
    requires
        fuel > 0,
    ensures
        chain(objs, o, fuel).len() >= 1,
        chain(objs, o, fuel)[0] == o,
{
}



proof fn lemma_chain_extend(objs: Seq<RubyObject>, hs: Seq<nat>, x: RubyObject, o: usize, f: nat)
    requires
        ranked(objs, hs),
        o < objs.len(),
    ensures
        chain(objs.push(x), o, f) == chain(objs, o, f),
    decreases f,
{
    if f > 0 {
        assert(objs.push(x)[o as int] == objs[o as int]);
        let _ = sup_of(objs[o as int]);
        match sup_of(objs[o as int]) {
            Some(s) => lemma_chain_extend(objs, hs, x, s, (f - 1) as nat),
            None => {},
        }
    }
}

proof fn lemma_chain_fuel(objs: Seq<RubyObject>, hs: Seq<nat>, o: usize, f: nat)
    requires
        ranked(objs, hs),
        o < objs.len(),
        f > hs[o as int],
    ensures
        chain(objs, o, f) == chain(objs, o, f + 1),
    decreases f,
{
    let _ = sup_of(objs[o as int]);
    match sup_of(objs[o as int]) {
        Some(s) => {
            lemma_chain_fuel(objs, hs, s, (f - 1) as nat);
        },
        None => {},
    }
}

proof fn lemma_chain_fuel_any(objs: Seq<RubyObject>, hs: Seq<nat>, o: usize, f: nat, g: nat)
    requires
        ranked(objs, hs),
        o < objs.len(),
        f > hs[o as int],
        g >= f,
    ensures
        chain(objs, o, g) == chain(objs, o, f),
    decreases g - f,
{
    if g > f {
        lemma_chain_fuel_any(objs, hs, o, f, (g - 1) as nat);
        lemma_chain_fuel(objs, hs, o, (g - 1) as nat);
    }
}

/// Objects that agree on every link give every object the same chain.
proof fn lemma_chain_same_links(a: Seq<RubyObject>, b: Seq<RubyObject>, hs: Seq<nat>, o: usize, f: nat)
    requires
        ranked(a, hs),
        o < a.len(),
        a.len() <= b.len(),
        forall|i: int| 0 <= i < a.len() ==> #[trigger] sup_of(b[i]) == sup_of(a[i]),
    ensures
        chain(b, o, f) == chain(a, o, f),
    decreases f,
{
    if f > 0 {
        let _ = sup_of(a[o as int]);
        assert(sup_of(b[o as int]) == sup_of(a[o as int]));
        match sup_of(a[o as int]) {
            Some(s) => lemma_chain_same_links(a, b, hs, s, (f - 1) as nat),
            None => {},
        }
    }
}

proof fn lemma_ancestry_same_links(a: Seq<RubyObject>, b: Seq<RubyObject>, hs: Seq<nat>, o: usize)
    requires
        ranked(a, hs),
        o < a.len(),
        a.len() <= b.len(),
        forall|i: int| 0 <= i < a.len() ==> #[trigger] sup_of(b[i]) == sup_of(a[i]),
    ensures
        ancestry(b, o) == ancestry(a, o),
{
    lemma_chain_same_links(a, b, hs, o, b.len());
    assert(hs[o as int] < a.len());
    lemma_chain_fuel_any(a, hs, o, a.len(), b.len());
}

/// The ranks shrink along an ancestry.
proof fn lemma_chain_ranks(objs: Seq<RubyObject>, hs: Seq<nat>, o: usize, f: nat, k: int)
    requires
        ranked(objs, hs),
        o < objs.len(),
        0 <= k < chain(objs, o, f).len(),
    ensures
        chain(objs, o, f)[k] < objs.len(),
        hs[chain(objs, o, f)[k] as int] + k <= hs[o as int],
    decreases f,
{
    let _ = sup_of(objs[o as int]);
    if k > 0 {
        match sup_of(objs[o as int]) {
            Some(s) => {
                assert(chain(objs, o, f)[k] == chain(objs, s, (f - 1) as nat)[k - 1]);
                lemma_chain_ranks(objs, hs, s, (f - 1) as nat, k - 1);
            },
            None => {},
        }
    }
}

proof fn lemma_superclass_in_member(objs: Seq<RubyObject>, anc: Seq<usize>)
    ensures
        superclass_in(objs, anc) matches Some(c) ==> exists|k: int| 0 <= k < anc.len() && anc[k] == c,
    decreases anc.len(),
{
    if anc.len() > 0 && objs[anc[0] as int] is IClass {
        lemma_superclass_in_member(objs, anc.drop_first());
        if let Some(c) = superclass_in(objs, anc) {
            let k = choose|k: int| 0 <= k < anc.drop_first().len() && anc.drop_first()[k] == c;
            assert(anc[k + 1] == c);
        }
    }
}

/// Whether `a` is `b` but for its class.
pub open spec fn same_but_class(a: RubyObject, b: RubyObject) -> bool {
    match class_of(a) {
        Some(c) => a == with_class(b, c),
        None => a == b,
    }
}

impl ObjectGraph {
    /// The constant `name` as seen from `o`: the first one along its
    /// ancestry.
    pub open spec fn const_seen(&self, o: usize, name: Seq<char>) -> Option<Rc<ConstantEntry>> {
        const_along(*self, ancestry(self@, o), name)
    }

    /// The method `name` as seen from `o`: the first one along its ancestry.
    pub open spec fn method_seen(&self, o: usize, name: Seq<char>) -> Option<Rc<MethodEntry>> {
        method_along(*self, ancestry(self@, o), name)
    }

    /// The instance variable `name` as seen from `o`.
    pub open spec fn ivar_seen(&self, o: usize, name: Seq<char>) -> Option<Rc<IvarEntry>> {
        ivar_along(*self, ancestry(self@, o), name)
    }

    pub closed spec fn consts_same(&self, other: &ObjectGraph) -> bool {
        self.constants == other.constants
    }

    pub closed spec fn methods_same(&self, other: &ObjectGraph) -> bool {
        self.methods == other.methods
    }

    pub closed spec fn ivars_same(&self, other: &ObjectGraph) -> bool {
        self.ivars == other.ivars
    }

    /// The same objects, under the same names.
    pub closed spec fn objects_same(&self, other: &ObjectGraph) -> bool {
        &&& self.objects@ == other.objects@
        &&& self.ranks@ == other.ranks@
        &&& self.named() == other.named()
    }

    /// The rank of `o`, which bounds how many objects follow it in its
    /// ancestry.
    pub closed spec fn rank(&self, o: usize) -> nat {
        self.ranks@[o as int]
    }

    proof fn lemma_named(&self)
        requires
            self.wf(),
        ensures
            self.BasicObject < self@.len(),
            self.Object < self@.len(),
            self.Module < self@.len(),
            self.Class < self@.len(),
            self.Kernel < self@.len(),
            self.Proc < self@.len(),
    {
        assert(self.named()[0] < self@.len());
        assert(self.named()[1] < self@.len());
        assert(self.named()[2] < self@.len());
        assert(self.named()[3] < self@.len());
        assert(self.named()[4] < self@.len());
        assert(self.named()[15] < self@.len());
    }

    proof fn lemma_rank_bound(&self, o: usize)
        requires
            self.wf(),
            o < self@.len(),
        ensures
            self.rank(o) < self@.len(),
    {
        self.lemma_wf_facts(o as int);
    }

    /// The first constant `name` along `anc`.
    fn const_in(&self, anc: &Vec<usize>, name: &str) -> (r: Option<Rc<ConstantEntry>>)
        requires
            self.wf(),
            forall|k: int| 0 <= k < anc@.len() ==> #[trigger] anc@[k] < self@.len(),
        ensures
            r == const_along(*self, anc@, name@),
    {
        let mut i: usize = 0;
        assert(anc@.skip(0) =~= anc@);
        while i < anc.len()
            invariant
                self.wf(),
                i <= anc@.len(),
                forall|k: int| 0 <= k < anc@.len() ==> #[trigger] anc@[k] < self@.len(),
                const_along(*self, anc@, name@) == const_along(*self, anc@.skip(i as int), name@),
            decreases anc@.len() - i,
        {
            assert(anc@.skip(i as int)[0] == anc@[i as int]);
            assert(anc@.skip(i as int).drop_first() =~= anc@.skip(i + 1));
            let d = self.delegate_index(anc[i]);
            match self.constants.lookup(d, name) {
                Some(v) => {
                    return Some(Rc::clone(v));
                },
                None => {},
            }
            i = i + 1;
        }
        assert(anc@.skip(i as int) =~= Seq::<usize>::empty());
        None
    }

    /// The first method `name` along `anc`.
    fn method_in(&self, anc: &Vec<usize>, name: &str) -> (r: Option<Rc<MethodEntry>>)
        requires
            self.wf(),
            forall|k: int| 0 <= k < anc@.len() ==> #[trigger] anc@[k] < self@.len(),
        ensures
            r == method_along(*self, anc@, name@),
    {
        let mut i: usize = 0;
        assert(anc@.skip(0) =~= anc@);
        while i < anc.len()
            invariant
                self.wf(),
                i <= anc@.len(),
                forall|k: int| 0 <= k < anc@.len() ==> #[trigger] anc@[k] < self@.len(),
                method_along(*self, anc@, name@) == method_along(*self, anc@.skip(i as int), name@),
            decreases anc@.len() - i,
        {
            assert(anc@.skip(i as int)[0] == anc@[i as int]);
            assert(anc@.skip(i as int).drop_first() =~= anc@.skip(i + 1));
            let d = self.delegate_index(anc[i]);
            match self.methods.lookup(d, name) {
                Some(v) => {
                    return Some(Rc::clone(v));
                },
                None => {},
            }
            i = i + 1;
        }
        assert(anc@.skip(i as int) =~= Seq::<usize>::empty());
        None
    }

    /// The first instance variable `name` along `anc`.
    fn ivar_in(&self, anc: &Vec<usize>, name: &str) -> (r: Option<Rc<IvarEntry>>)
        requires
            self.wf(),
            forall|k: int| 0 <= k < anc@.len() ==> #[trigger] anc@[k] < self@.len(),
        ensures
            r == ivar_along(*self, anc@, name@),
    {
        let mut i: usize = 0;
        assert(anc@.skip(0) =~= anc@);
        while i < anc.len()
            invariant
                self.wf(),
                i <= anc@.len(),
                forall|k: int| 0 <= k < anc@.len() ==> #[trigger] anc@[k] < self@.len(),
                ivar_along(*self, anc@, name@) == ivar_along(*self, anc@.skip(i as int), name@),
            decreases anc@.len() - i,
        {
            assert(anc@.skip(i as int)[0] == anc@[i as int]);
            assert(anc@.skip(i as int).drop_first() =~= anc@.skip(i + 1));
            let d = self.delegate_index(anc[i]);
            match self.ivars.lookup(d, name) {
                Some(v) => {
                    return Some(Rc::clone(v));
                },
                None => {},
            }
            i = i + 1;
        }
        assert(anc@.skip(i as int) =~= Seq::<usize>::empty());
        None
    }

    /// The constant `name` as seen from `object`: defined on it or on one
    /// of its ancestors, the nearest first.
    pub fn get_const(&self, object: usize, name: &str) -> (r: Option<Rc<ConstantEntry>>)
        requires
            self.wf(),
            object < self@.len(),
        ensures
            r == self.const_seen(object, name@),
    {
        let anc = self.ancestors_of(object);
        self.const_in(&anc, name)
    }

    /// Defines the constant `name` on `object`, unless it is defined there
    /// already.
    pub fn set_const(&mut self, object: usize, name: &str, entry: Rc<ConstantEntry>) -> (r: Result<(), ()>)
        requires
            old(self).wf(),
            const_valid(old(self)@, *entry),
            object < old(self)@.len(),
            !(old(self)@[object as int] is IClass),
        ensures
            final(self).wf(),
            final(self).objects_same(old(self)),
            final(self).methods_same(old(self)),
            final(self).ivars_same(old(self)),
            old(self).const_of(object, name@) is Some ==> r is Err && final(self).consts_same(old(self)),
            old(self).const_of(object, name@) is None ==> r is Ok
                && forall|o2: usize, n2: Seq<char>| #[trigger] final(self).const_of(o2, n2)
                    == if o2 == object && n2 == name@ { Some(entry) } else { old(self).const_of(o2, n2) },
    {
        match self.constants.lookup(object, name) {
            Some(_) => Err(()),
            None => {
                self.constants.insert(object, name.to_owned(), entry);
                proof {
                    assert forall|o: usize, n: Seq<char>| #[trigger] self.constants.get(o, n) is Some
                        implies const_valid(self.objects@, *self.constants.get(o, n)->0) by {
                        if !(o == object && n == name@) {
                            assert(old(self).constants.get(o, n) == self.constants.get(o, n));
                        }
                    }
                    Self::lemma_wf_same(old(self), self);
                }
                Ok(())
            },
        }
    }

    /// The constant `name` defined on `object` itself.
    pub fn get_own_const(&self, object: usize, name: &str) -> (r: Option<Rc<ConstantEntry>>)
        requires
            object < self@.len(),
            !(self@[object as int] is IClass),
        ensures
            r == self.const_of(object, name@),
    {
        match self.constants.lookup(object, name) {
            Some(c) => Some(Rc::clone(c)),
            None => None,
        }
    }

    /// The constant `name` as a class or module definition sees it: only
    /// `object`'s own, except that on `Object` the constants of its
    /// ancestors count too.
    pub fn get_const_for_definition(&self, object: usize, name: &str) -> (r: Option<Rc<ConstantEntry>>)
        requires
            self.wf(),
            object < self@.len(),
        ensures
            r == match self.const_of(object, name@) {
                Some(c) => Some(c),
                None => if object == self.object_index() {
                    match sup_of(self@[object as int]) {
                        Some(s) => self.const_seen(s, name@),
                        None => None,
                    }
                } else {
                    None
                },
            },
            r matches Some(c) ==> const_valid(self@, *c),
    {
        proof {
            self.lemma_const_of_valid(object, name@);
        }
        match self.constants.lookup(object, name) {
            Some(c) => Some(Rc::clone(c)),
            None => {
                if object == self.Object {
                    proof {
                        self.lemma_wf_facts(object as int);
                        if let Some(sup) = sup_of(self@[object as int]) {
                            self.lemma_const_seen_valid(sup, name@);
                        }
                    }
                    match self.superclass_link(object) {
                        None => None,
                        Some(c) => self.get_const(c, name),
                    }
                } else {
                    None
                }
            },
        }
    }

    /// The number of `Object`.
    pub closed spec fn object_index(&self) -> usize {
        self.Object
    }

    /// The number of `Class`.
    pub closed spec fn class_index(&self) -> usize {
        self.Class
    }

    /// The number of `Module`.
    pub closed spec fn module_index(&self) -> usize {
        self.Module
    }

    /// The number of `NilClass`.
    pub closed spec fn nil_index(&self) -> usize {
        self.NilClass
    }

    /// The number of `Symbol`.
    pub closed spec fn symbol_index(&self) -> usize {
        self.Symbol
    }

    /// The class `Symbol`.
    pub fn symbol_class(&self) -> (r: usize)
        ensures
            r == self.symbol_index(),
    {
        self.Symbol
    }

    /// The objects the graph names by `Object`, `Class` and `NilClass` are
    /// in it, the first two classes.
    pub proof fn lemma_named_in(&self)
        requires
            self.wf(),
        ensures
            self.object_index() < self@.len(),
            self.class_index() < self@.len(),
            self.nil_index() < self@.len(),
            self@[self.object_index() as int] is Class,
            self@[self.class_index() as int] is Class,
    {
        self.lemma_named();
        assert(self.named()[8] < self@.len());
    }

    /// The class `Object`.
    pub fn object_class(&self) -> (r: usize)
        ensures
            r == self.object_index(),
    {
        self.Object
    }

    /// The class `NilClass`.
    pub fn nil_class(&self) -> (r: usize)
        ensures
            r == self.nil_index(),
    {
        self.NilClass
    }

    /// The class `Class`.
    pub fn class_class(&self) -> (r: usize)
        ensures
            r == self.class_index(),
    {
        self.Class
    }

    /// The full name of the constant `name` defined on `object`.
    pub fn constant_path(&self, object: usize, name: &str) -> (r: String)
        requires
            self.wf(),
            object < self@.len(),
        ensures
            r@ == if object == self.object_index() { name@ } else { obj_name(self@, object as int) + "::"@ + name@ },
    {
        if object == self.Object {
            name.to_owned()
        } else {
            let mut r = self.name_of(object);
            push_str(&mut r, "::");
            push_str(&mut r, name);
            r
        }
    }

    /// Defines method `name` on `target`, in place of one defined there
    /// before.
    pub fn define_method(&mut self, target: usize, name: String, entry: Rc<MethodEntry>)
        requires
            old(self).wf(),
            target < old(self)@.len(),
            !(old(self)@[target as int] is IClass),
        ensures
            final(self).wf(),
            final(self).objects_same(old(self)),
            final(self).consts_same(old(self)),
            final(self).ivars_same(old(self)),
            forall|o2: usize, n2: Seq<char>| #[trigger] final(self).method_of(o2, n2)
                == if o2 == target && n2 == name@ { Some(entry) } else { old(self).method_of(o2, n2) },
    {
        self.methods.insert(target, name, entry);
        proof {
            Self::lemma_wf_same(old(self), self);
        }
    }

    /// The method `name` defined on what `module` stands for.
    pub fn lookup_method_direct(&self, module: usize, name: &str) -> (r: Option<Rc<MethodEntry>>)
        requires
            self.wf(),
            module < self@.len(),
        ensures
            r == self.method_of(delegate_of(self@, module), name@),
    {
        let d = self.delegate_index(module);
        match self.methods.lookup(d, name) {
            Some(m) => Some(Rc::clone(m)),
            None => None,
        }
    }

    /// The method `name` as seen from `klass`: the nearest along its
    /// ancestry.
    pub fn lookup_method(&self, klass: usize, name: &str) -> (r: Option<Rc<MethodEntry>>)
        requires
            self.wf(),
            klass < self@.len(),
        ensures
            r == self.method_seen(klass, name@),
    {
        let anc = self.ancestors_of(klass);
        self.method_in(&anc, name)
    }

    /// Declares instance variable `name` on `target`.
    pub fn define_ivar(&mut self, target: usize, name: String, ivar: Rc<IvarEntry>)
        requires
            old(self).wf(),
            target < old(self)@.len(),
            !(old(self)@[target as int] is IClass),
        ensures
            final(self).wf(),
            final(self).objects_same(old(self)),
            final(self).consts_same(old(self)),
            final(self).methods_same(old(self)),
            forall|o2: usize, n2: Seq<char>| #[trigger] final(self).ivar_of(o2, n2)
                == if o2 == target && n2 == name@ { Some(ivar) } else { old(self).ivar_of(o2, n2) },
    {
        self.ivars.insert(target, name, ivar);
        proof {
            Self::lemma_wf_same(old(self), self);
        }
    }

    /// The instance variable `name` as seen from `klass`.
    pub fn lookup_ivar(&self, klass: usize, name: &str) -> (r: Option<Rc<IvarEntry>>)
        requires
            self.wf(),
            klass < self@.len(),
        ensures
            r == self.ivar_seen(klass, name@),
    {
        let anc = self.ancestors_of(klass);
        self.ivar_in(&anc, name)
    }

    /// Adds `x` as a new object, ranked above all others.
    fn add_object(&mut self, x: RubyObject) -> (r: usize)
        requires
            old(self).wf(),
            id_of(x) == old(self)@.len() + 1,
            refs_ok(old(self)@.push(x), old(self)@.len() as int),
            sup_of(x) matches Some(s) ==> s < old(self)@.len(),
            class_of(x) matches Some(c) ==> c < old(self)@.len()
                && (old(self)@[c as int] matches RubyObject::Metaclass { of, .. } ==> of == old(self)@.len()),
        ensures
            final(self).wf(),
            r == old(self)@.len(),
            final(self)@ == old(self)@.push(x),
            final(self).rank(r) == old(self)@.len(),
            forall|o: usize| o < old(self)@.len() ==> #[trigger] final(self).rank(o) == old(self).rank(o),
            final(self).named() == old(self).named(),
            final(self).consts_same(old(self)),
            final(self).methods_same(old(self)),
            final(self).ivars_same(old(self)),
            forall|o: usize| o < old(self)@.len() ==> #[trigger] ancestry(final(self)@, o) == ancestry(old(self)@, o),
    {
        let ghost objs = self.objects@;
        let ghost hs = self.ranks@;
        let r = self.objects.len();
        self.objects.push(x);
        self.ranks = Ghost(hs.push(objs.len() as nat));
        proof {
            let objs2 = objs.push(x);
            let hs2 = hs.push(objs.len() as nat);
            assert forall|i: int| 0 <= i < objs2.len() implies #[trigger] hs2[i] < objs2.len() by {
                if i < objs.len() {
                    self.lemma_old_rank(objs, hs, i);
                }
            }
            assert forall|i: int| 0 <= i < objs2.len() implies match #[trigger] sup_of(objs2[i]) {
                Some(s) => s < objs2.len() && hs2[s as int] < hs2[i],
                None => true,
            } by {
                if i < objs.len() {
                    assert(objs2[i] == objs[i]);
                    let _ = sup_of(objs[i]);
                    assert(hs2[i] == hs[i]);
                    if let Some(s) = sup_of(objs[i]) {
                        assert(hs2[s as int] == hs[s as int]);
                    }
                } else {
                    if let Some(s) = sup_of(x) {
                        assert(hs[s as int] < objs.len());
                    }
                }
            }
            assert forall|i: int| 0 <= i < objs2.len() implies #[trigger] refs_ok(objs2, i) by {
                if i < objs.len() {
                    assert(refs_ok(objs, i));
                    assert(objs2[i] == objs[i]);
                    if let RubyObject::IClass { site, .. } = objs[i] {
                        assert(objs2[site.module as int] == objs[site.module as int]);
                    }
                }
            }
            assert forall|k: int| 0 <= k < self.named().len() implies #[trigger] self.named()[k] < objs2.len() by {
                assert(old(self).named()[k] < objs.len());
            }
            assert(objs2[self.Object as int] == objs[self.Object as int]);
            assert forall|i: int| 0 <= i < objs2.len() implies #[trigger] meta_ok(objs2, i) by {
                if i < objs.len() {
                    assert(meta_ok(objs, i));
                    assert(refs_ok(objs, i));
                    assert(objs2[i] == objs[i]);
                    if let Some(c) = class_of(objs[i]) {
                        assert(objs2[c as int] == objs[c as int]);
                    }
                }
            }
            assert forall|o: usize| o < objs.len() implies #[trigger] ancestry(objs2, o) == ancestry(objs, o) by {
                lemma_chain_extend(objs, hs, x, o, objs2.len());
                assert(hs[o as int] < objs.len());
                lemma_chain_fuel(objs, hs, o, objs.len());
            }
            assert forall|i: int| 0 <= i < objs.len() implies (#[trigger] objs2[i] is IClass) == (objs[i] is IClass) by {
                assert(objs2[i] == objs[i]);
            }
            Self::lemma_consts_kept(old(self), self);
        }
        r
    }

    proof fn lemma_wf_same(a: &ObjectGraph, b: &ObjectGraph)
        requires
            a.wf(),
            a.constants == b.constants || b.consts_valid(),
            a.objects@ == b.objects@,
            a.ranks@ == b.ranks@,
            a.named() == b.named(),
            a.Object == b.Object,
            a.Class == b.Class,
            a.Module == b.Module,
        ensures
            b.wf(),
    {
        assert forall|k: int| 0 <= k < b.named().len() implies #[trigger] b.named()[k] < b.objects@.len() by {
            assert(a.named()[k] < a.objects@.len());
        }
    }

    proof fn lemma_wf_same_named(a: ObjectGraph, b: ObjectGraph)
        requires
            a.wf(),
            a.constants == b.constants,
            a.objects@ == b.objects@,
            a.ranks@ == b.ranks@,
            a.Object == b.Object,
            a.Class == b.Class,
            a.Module == b.Module,
            forall|k: int| 0 <= k < b.named().len() ==> #[trigger] b.named()[k] < b.objects@.len(),
        ensures
            b.wf(),
    {
    }

    /// The constants stay valid when objects are only added or relinked.
    proof fn lemma_consts_kept(a: &ObjectGraph, b: &ObjectGraph)
        requires
            a.wf(),
            b.constants == a.constants,
            a.objects@.len() <= b.objects@.len(),
            forall|i: int| 0 <= i < a.objects@.len() ==> (#[trigger] b.objects@[i] is IClass) == (a.objects@[i] is IClass),
        ensures
            b.consts_valid(),
    {
        assert forall|o: usize, n: Seq<char>| #[trigger] b.constants.get(o, n) is Some
            implies const_valid(b.objects@, *b.constants.get(o, n)->0) by {
            assert(a.constants.get(o, n) == b.constants.get(o, n));
        }
    }

    proof fn lemma_old_rank(&self, objs: Seq<RubyObject>, hs: Seq<nat>, i: int)
        requires
            ranked(objs, hs),
            0 <= i < objs.len(),
        ensures
            hs[i] < objs.len(),
    {
    }
}

impl ObjectGraph {
    proof fn lemma_links_same_wf(a: &ObjectGraph, b: &ObjectGraph, i: int)
        requires
            a.wf(),
            0 <= i < a.objects@.len(),
            b.objects@ == a.objects@.update(i, b.objects@[i]),
            same_but_class(b.objects@[i], a.objects@[i]),
            class_of(b.objects@[i]) matches Some(c) ==> c < a.objects@.len()
                && (a.objects@[c as int] matches RubyObject::Metaclass { of, .. } ==> of == i),
            b.ranks@ == a.ranks@,
            b.named() == a.named(),
            b.Object == a.Object,
            b.Class == a.Class,
            b.Module == a.Module,
            b.constants == a.constants,
        ensures
            b.wf(),
            forall|o: usize| o < a.objects@.len() ==> #[trigger] ancestry(b.objects@, o) == ancestry(a.objects@, o),
    {
        assert forall|j: int| 0 <= j < a.objects@.len() implies (#[trigger] b.objects@[j] is IClass) == (a.objects@[j] is IClass) by {
            if j != i {
                assert(b.objects@[j] == a.objects@[j]);
            }
        }
        Self::lemma_consts_kept(a, b);
        let oa = a.objects@;
        let ob = b.objects@;
        assert(refs_ok(oa, i));
        assert forall|j: int| 0 <= j < ob.len() implies #[trigger] sup_of(ob[j]) == sup_of(oa[j]) by {
            if j == i {
                assert(refs_ok(oa, i));
            }
        }
        assert forall|j: int| 0 <= j < ob.len() implies #[trigger] a.ranks@[j] < ob.len() by {
            a.lemma_wf_facts(j);
        }
        assert forall|j: int| 0 <= j < ob.len() implies match #[trigger] sup_of(ob[j]) {
            Some(s) => s < ob.len() && b.ranks@[s as int] < b.ranks@[j],
            None => true,
        } by {
            a.lemma_wf_facts(j);
            assert(sup_of(ob[j]) == sup_of(oa[j]));
        }
        assert forall|j: int| 0 <= j < ob.len() implies #[trigger] refs_ok(ob, j) by {
            a.lemma_wf_facts(j);
            if let RubyObject::IClass { site, .. } = oa[j] {
                assert(ob[j] == oa[j]);
                if site.module as int == i {
                    assert(!(ob[i] is IClass));
                } else {
                    assert(ob[site.module as int] == oa[site.module as int]);
                }
            }
        }
        assert forall|j: int| 0 <= j < ob.len() implies #[trigger] meta_ok(ob, j) by {
            a.lemma_wf_facts(j);
            if j != i {
                assert(ob[j] == oa[j]);
                if let Some(c) = class_of(oa[j]) {
                    if c as int == i {
                        assert(ob[i] is Metaclass <==> oa[i] is Metaclass);
                    } else {
                        assert(ob[c as int] == oa[c as int]);
                    }
                }
            } else {
                if let Some(c) = class_of(ob[i]) {
                    if c as int != i {
                        assert(ob[c as int] == oa[c as int]);
                    }
                }
            }
        }
        assert forall|k: int| 0 <= k < b.named().len() implies #[trigger] b.named()[k] < ob.len() by {
            assert(a.named()[k] < oa.len());
        }
        assert forall|o: usize| o < oa.len() implies #[trigger] ancestry(ob, o) == ancestry(oa, o) by {
            lemma_ancestry_same_links(oa, ob, a.ranks@, o);
        }
        assert(ob[b.Object as int] is Class);
        assert(ob[b.Class as int] is Class);
        assert(ob[b.Module as int] is Class);
    }

    /// Sets the class of object `i` to `c`.
    fn set_class_of(&mut self, i: usize, c: usize)
        requires
            old(self).wf(),
            i < old(self)@.len(),
            !(old(self)@[i as int] is IClass),
            c < old(self)@.len(),
            old(self)@[c as int] matches RubyObject::Metaclass { of, .. } ==> of == i,
        ensures
            final(self).wf(),
            final(self)@ == old(self)@.update(i as int, with_class(old(self)@[i as int], c)),
            forall|o: usize| o < old(self)@.len() ==> #[trigger] final(self).rank(o) == old(self).rank(o),
            final(self).named() == old(self).named(),
            final(self).consts_same(old(self)),
            final(self).methods_same(old(self)),
            final(self).ivars_same(old(self)),
            forall|o: usize| o < old(self)@.len() ==> #[trigger] ancestry(final(self)@, o) == ancestry(old(self)@, o),
    {
        match &mut self.objects[i] {
            RubyObject::Module { class, .. } => {
                *class = c;
            },
            RubyObject::Class { class, .. } => {
                *class = c;
            },
            RubyObject::Metaclass { class, .. } => {
                *class = c;
            },
            RubyObject::IClass { .. } => {},
        }
        proof {
            assert(self.objects@ =~= old(self).objects@.update(i as int, with_class(old(self)@[i as int], c)));
            Self::lemma_links_same_wf(old(self), self, i as int);
        }
    }

    /// The class of object `i`.
    fn class_link(&self, i: usize) -> (r: usize)
        requires
            i < self@.len(),
            !(self@[i as int] is IClass),
        ensures
            class_of(self@[i as int]) == Some(r),
    {
        match &self.objects[i] {
            RubyObject::Module { class, .. } => *class,
            RubyObject::Class { class, .. } => *class,
            RubyObject::Metaclass { class, .. } => *class,
            RubyObject::IClass { .. } => 0,
        }
    }

    /// A new class named `name` under `superclass`.
    pub fn new_class(&mut self, name: String, superclass: usize, type_parameters: Vec<Id>) -> (r: usize)
        requires
            old(self).wf(),
            superclass < old(self)@.len(),
            old(self)@.len() + 1 < usize::MAX,
        ensures
            final(self).wf(),
            r == old(self)@.len(),
            final(self)@ == old(self)@.push(RubyObject::Class {
                id: (r + 1) as usize,
                class: old(self).class_index(),
                name,
                superclass: Some(superclass),
                type_parameters,
            }),
            final(self).named() == old(self).named(),
            final(self).object_index() == old(self).object_index(),
            final(self).class_index() == old(self).class_index(),
            final(self).module_index() == old(self).module_index(),
            final(self).consts_same(old(self)),
            final(self).methods_same(old(self)),
            final(self).ivars_same(old(self)),
            forall|o: usize| o < old(self)@.len() ==> #[trigger] ancestry(final(self)@, o) == ancestry(old(self)@, o),
            ancestry(final(self)@, r) == seq![r] + ancestry(old(self)@, superclass),
    {
        let id = self.objects.len() + 1;
        let class = self.Class;
        proof {
            self.lemma_named();
            self.lemma_wf_facts(class as int);
        }
        let r = self.add_object(RubyObject::Class {
            id,
            class,
            name,
            superclass: Some(superclass),
            type_parameters,
        });
        proof {
            assert(self@.take(r as int) =~= old(self)@);
            self.lemma_new_ancestry(old(self)@, r, superclass);
        }
        r
    }

    proof fn lemma_new_ancestry(&self, before: Seq<RubyObject>, r: usize, s: usize)
        requires
            self.wf(),
            r == before.len(),
            self@.len() == before.len() + 1,
            self@.take(r as int) == before,
            sup_of(self@[r as int]) == Some(s),
            s < before.len(),
            forall|o: usize| o < before.len() ==> #[trigger] ancestry(self@, o) == ancestry(before, o),
        ensures
            ancestry(self@, r) == seq![r] + ancestry(before, s),
    {
        let objs = self@;
        assert(objs.len() - 1 == before.len());
        assert(ancestry(objs, r) == seq![r] + chain(objs, s, before.len()));
        self.lemma_wf_facts(s as int);
        lemma_chain_fuel(objs, self.ranks@, s, before.len());
        assert(chain(objs, s, before.len()) == chain(objs, s, objs.len()));
        assert(ancestry(objs, s) == ancestry(before, s));
    }

    /// A new module named `name`.
    pub fn new_module(&mut self, name: String, type_parameters: Vec<Id>) -> (r: usize)
        requires
            old(self).wf(),
            old(self)@.len() + 1 < usize::MAX,
        ensures
            final(self).wf(),
            r == old(self)@.len(),
            final(self)@ == old(self)@.push(RubyObject::Module {
                id: (r + 1) as usize,
                class: old(self).module_index(),
                name,
                superclass: None,
                type_parameters,
            }),
            final(self).named() == old(self).named(),
            final(self).object_index() == old(self).object_index(),
            final(self).class_index() == old(self).class_index(),
            final(self).module_index() == old(self).module_index(),
            final(self).consts_same(old(self)),
            final(self).methods_same(old(self)),
            final(self).ivars_same(old(self)),
            forall|o: usize| o < old(self)@.len() ==> #[trigger] ancestry(final(self)@, o) == ancestry(old(self)@, o),
            ancestry(final(self)@, r) == seq![r],
    {
        let id = self.objects.len() + 1;
        let class = self.Module;
        proof {
            self.lemma_named();
            self.lemma_wf_facts(class as int);
        }
        let r = self.add_object(RubyObject::Module {
            id,
            class,
            name,
            superclass: None,
            type_parameters,
        });
        r
    }

    /// A new class `name` under `superclass`, defined as a constant of
    /// `owner`; the constant must not exist yet.
    pub fn define_class(&mut self, loc: Option<Loc>, owner: usize, name: &str, superclass: usize, type_parameters: Vec<Id>) -> (r: usize)
        requires
            old(self).wf(),
            owner < old(self)@.len(),
            !(old(self)@[owner as int] is IClass),
            superclass < old(self)@.len(),
            old(self).const_of(owner, name@) is None,
            old(self)@.len() + 1 < usize::MAX,
        ensures
            final(self).wf(),
            r == old(self)@.len(),
            final(self)@ == old(self)@.push(final(self)@[r as int]),
            final(self)@[r as int] matches RubyObject::Class { id, class, name: n, superclass: s, type_parameters: tp }
                && id == r + 1 && class == old(self).class_index() && s == Some(superclass) && tp@ == type_parameters@
                && n@ == (if owner == old(self).object_index() { name@ } else { obj_name(old(self)@, owner as int) + "::"@ + name@ }),
            final(self).named() == old(self).named(),
            final(self).object_index() == old(self).object_index(),
            final(self).class_index() == old(self).class_index(),
            final(self).module_index() == old(self).module_index(),
            final(self).methods_same(old(self)),
            final(self).ivars_same(old(self)),
            forall|o2: usize, n2: Seq<char>| #[trigger] final(self).const_of(o2, n2)
                == if o2 == owner && n2 == name@ {
                    Some(Rc::new(ConstantEntry::Module { loc, value: r }))
                } else {
                    old(self).const_of(o2, n2)
                },
            forall|o: usize| o < old(self)@.len() ==> #[trigger] ancestry(final(self)@, o) == ancestry(old(self)@, o),
            ancestry(final(self)@, r) == seq![r] + ancestry(old(self)@, superclass),
    {
        let path = self.constant_path(owner, name);
        let class = self.new_class(path, superclass, type_parameters);
        let ghost mid = *self;
        assert(self.const_of(owner, name@) is None);
        proof {
            assert(self@[owner as int] == old(self)@[owner as int]);
        }
        let entry = Rc::new(ConstantEntry::Module { loc, value: class });
        let res = self.set_const(owner, name, entry);
        class
    }

    /// A new module `name`, defined as a constant of `owner`; the constant
    /// must not exist yet.
    pub fn define_module(&mut self, loc: Option<Loc>, owner: usize, name: &str, type_parameters: Vec<Id>) -> (r: usize)
        requires
            old(self).wf(),
            owner < old(self)@.len(),
            !(old(self)@[owner as int] is IClass),
            old(self).const_of(owner, name@) is None,
            old(self)@.len() + 1 < usize::MAX,
        ensures
            final(self).wf(),
            r == old(self)@.len(),
            final(self)@ == old(self)@.push(final(self)@[r as int]),
            final(self)@[r as int] matches RubyObject::Module { id, class, name: n, superclass: s, type_parameters: tp }
                && id == r + 1 && class == old(self).module_index() && s is None && tp@ == type_parameters@
                && n@ == (if owner == old(self).object_index() { name@ } else { obj_name(old(self)@, owner as int) + "::"@ + name@ }),
            final(self).named() == old(self).named(),
            final(self).object_index() == old(self).object_index(),
            final(self).class_index() == old(self).class_index(),
            final(self).module_index() == old(self).module_index(),
            final(self).methods_same(old(self)),
            final(self).ivars_same(old(self)),
            forall|o2: usize, n2: Seq<char>| #[trigger] final(self).const_of(o2, n2)
                == if o2 == owner && n2 == name@ {
                    Some(Rc::new(ConstantEntry::Module { loc, value: r }))
                } else {
                    old(self).const_of(o2, n2)
                },
            forall|o: usize| o < old(self)@.len() ==> #[trigger] ancestry(final(self)@, o) == ancestry(old(self)@, o),
            ancestry(final(self)@, r) == seq![r],
    {
        let path = self.constant_path(owner, name);
        let module = self.new_module(path, type_parameters);
        assert(self.const_of(owner, name@) is None);
        proof {
            assert(self@[owner as int] == old(self)@[owner as int]);
        }
        let entry = Rc::new(ConstantEntry::Module { loc, value: module });
        let res = self.set_const(owner, name, entry);
        module
    }
}

impl ObjectGraph {
    proof fn lemma_superclass_rank(&self, o: usize)
        requires
            self.wf(),
            o < self@.len(),
        ensures
            superclass_in(self@, ancestry(self@, o).drop_first()) matches Some(c) ==>
                c < self@.len() && self.rank(c) < self.rank(o) && ancestry(self@, o).contains(c),
    {
        let anc = ancestry(self@, o);
        lemma_superclass_in_member(self@, anc.drop_first());
        if let Some(c) = superclass_in(self@, anc.drop_first()) {
            let k = choose|k: int| 0 <= k < anc.drop_first().len() && anc.drop_first()[k] == c;
            assert(anc[k + 1] == c);
            lemma_chain_ranks(self@, self.ranks@, o, self@.len(), k + 1);
        }
    }

    /// The metaclass of `o`, made first if `o` has none yet; a class's
    /// metaclass comes under the metaclass of its superclass, made too if
    /// need be, and a module's under the module's class.
    fn metaclass_rec(&mut self, o: usize) -> (r: usize)
        requires
            old(self).wf(),
            o < old(self)@.len(),
            !(old(self)@[o as int] is IClass),
            old(self)@.len() + old(self).rank(o) + 2 < usize::MAX,
        ensures
            final(self).wf(),
            old(self)@.len() <= final(self)@.len() <= old(self)@.len() + old(self).rank(o) + 1,
            r < final(self)@.len(),
            final(self)@[r as int] matches RubyObject::Metaclass { of, .. } && of == o,
            class_of(final(self)@[o as int]) == Some(r),
            forall|i: int| 0 <= i < old(self)@.len() ==> #[trigger] same_but_class(final(self)@[i], old(self)@[i]),
            forall|i: int| 0 <= i < old(self)@.len() && class_of(final(self)@[i]) != class_of(old(self)@[i])
                ==> #[trigger] ancestry(old(self)@, o).contains(i as usize),
            forall|i: int| old(self)@.len() <= i < final(self)@.len() ==> #[trigger] final(self)@[i] is Metaclass,
            forall|i: usize| i < old(self)@.len() ==> #[trigger] final(self).rank(i) == old(self).rank(i),
            forall|i: usize| i < old(self)@.len() ==> #[trigger] ancestry(final(self)@, i) == ancestry(old(self)@, i),
            final(self).named() == old(self).named(),
            final(self).object_index() == old(self).object_index(),
            final(self).class_index() == old(self).class_index(),
            final(self).module_index() == old(self).module_index(),
            final(self).consts_same(old(self)),
            final(self).methods_same(old(self)),
            final(self).ivars_same(old(self)),
            match class_of(old(self)@[o as int]) {
                Some(c) => if old(self)@[c as int] is Metaclass {
                    r == c && final(self)@ == old(self)@
                } else {
                    &&& r == final(self)@.len() - 1
                    &&& class_of(final(self)@[r as int]) == if old(self)@[o as int] is Module {
                        Some(old(self).class_index())
                    } else {
                        Some(c)
                    }
                    &&& sup_of(final(self)@[r as int]) == if old(self)@[o as int] is Module {
                        Some(c)
                    } else {
                        match superclass_in(old(self)@, ancestry(old(self)@, o).drop_first()) {
                            Some(s) => class_of(final(self)@[s as int]),
                            None => None,
                        }
                    }
                },
                None => false,
            },
        decreases old(self).rank(o),
    {
        proof {
            self.lemma_wf_facts(o as int);
            self.lemma_named();
        }
        let c = self.class_link(o);
        proof {
            self.lemma_wf_facts(c as int);
        }
        match &self.objects[c] {
            RubyObject::Metaclass { .. } => {
                return c;
            },
            _ => {},
        }
        let is_module = match &self.objects[o] {
            RubyObject::Module { .. } => true,
            _ => false,
        };
        if is_module {
            let id = self.objects.len() + 1;
            let class = self.Class;
            let m = self.add_object(RubyObject::Metaclass { id, class, superclass: Some(c), of: o });
            proof {
                assert(self@[o as int] == old(self)@[o as int]);
                assert(self@[m as int] is Metaclass);
            }
            self.set_class_of(o, m);
            proof {
                assert(self@[m as int] matches RubyObject::Metaclass { of, .. } && of == o);
                assert forall|i: int| 0 <= i < old(self)@.len() && class_of(self@[i]) != class_of(old(self)@[i])
                    implies #[trigger] ancestry(old(self)@, o).contains(i as usize) by {
                    assert(i == o);
                    lemma_chain_nonempty(old(self)@, o, old(self)@.len());
                    assert(ancestry(old(self)@, o)[0] == o);
                }
            }
            m
        } else {
            let ghost g0 = *self;
            let sc = self.superclass_of(o);
            proof {
                self.lemma_superclass_rank(o);
            }
            let sm = match sc {
                None => None,
                Some(s) => Some(self.metaclass_rec(s)),
            };
            proof {
                assert(same_but_class(self@[o as int], g0@[o as int]));
                if let Some(s) = sc {
                    if class_of(self@[o as int]) != class_of(g0@[o as int]) {
                        assert(ancestry(g0@, s).contains(o));
                        let k = choose|k: int| 0 <= k < ancestry(g0@, s).len() && ancestry(g0@, s)[k] == o;
                        lemma_chain_ranks(g0@, g0.ranks@, s, g0@.len(), k);
                    }
                }
                assert(class_of(self@[o as int]) == Some(c));
                assert(self@[c as int] == g0@[c as int] || c >= g0@.len() || true);
            }
            let id = self.objects.len() + 1;
            proof {
                assert(!(self@[c as int] is Metaclass)) by {
                    assert(same_but_class(self@[c as int], g0@[c as int]));
                }
                if let Some(m) = sm {
                    assert(self@[m as int] matches RubyObject::Metaclass { of, .. } && of == sc->0);
                }
            }
            let m = self.add_object(RubyObject::Metaclass { id, class: c, superclass: sm, of: o });
            self.set_class_of(o, m);
            proof {
                let anc0 = ancestry(g0@, o);
                lemma_chain_nonempty(g0@, o, g0@.len());
                assert forall|i: int| 0 <= i < old(self)@.len() && class_of(self@[i]) != class_of(old(self)@[i])
                    implies #[trigger] ancestry(old(self)@, o).contains(i as usize) by {
                    if i != o {
                        if let Some(s) = sc {
                            assert(ancestry(g0@, s).contains(i as usize));
                            self.lemma_ancestry_suffix(g0, o, s);
                        }
                    } else {
                        assert(anc0[0] == o);
                    }
                }
            }
            m
        }
    }

    /// The ancestry of `o` holds that of any of its members.
    proof fn lemma_ancestry_suffix(&self, g: ObjectGraph, o: usize, s: usize)
        requires
            g.wf(),
            o < g@.len(),
            ancestry(g@, o).contains(s),
        ensures
            forall|x: usize| ancestry(g@, s).contains(x) ==> #[trigger] ancestry(g@, o).contains(x),
    {
        let k = choose|k: int| 0 <= k < ancestry(g@, o).len() && ancestry(g@, o)[k] == s;
        lemma_chain_suffix(g@, g.ranks@, o, g@.len(), k);
        lemma_chain_ranks(g@, g.ranks@, o, g@.len(), k);
        g.lemma_wf_facts(o as int);
        g.lemma_wf_facts(s as int);
        lemma_chain_fuel_any(g@, g.ranks@, s, (g.ranks@[s as int] + 1) as nat, (g@.len() - k) as nat);
        lemma_chain_fuel_any(g@, g.ranks@, s, (g.ranks@[s as int] + 1) as nat, g@.len());
        assert forall|x: usize| ancestry(g@, s).contains(x) implies #[trigger] ancestry(g@, o).contains(x) by {
            let j = choose|j: int| 0 <= j < ancestry(g@, s).len() && ancestry(g@, s)[j] == x;
            assert(ancestry(g@, o)[k + j] == x);
        }
    }

    /// The metaclass of `o`, made first if `o` has none yet.
    ///
    /// Once made, the metaclass is the class of `o`, so asking again gives
    /// the same metaclass and changes nothing; that call needs no room to
    /// grow.
    pub fn metaclass(&mut self, o: usize) -> (r: usize)
        requires
            old(self).wf(),
            o < old(self)@.len(),
            !(old(self)@[o as int] is IClass),
            metaclass_made(old(self)@, o) || 2 * old(self)@.len() + 2 < usize::MAX,
        ensures
            metaclass_done(*old(self), *final(self), o, r),
    {
        proof {
            self.lemma_wf_facts(o as int);
        }
        let class = match &self.objects[o] {
            RubyObject::Module { class, .. } => *class,
            RubyObject::Class { class, .. } => *class,
            RubyObject::Metaclass { class, .. } => *class,
            RubyObject::IClass { .. } => o,
        };
        if matches!(self.objects[class], RubyObject::Metaclass { .. }) {
            proof {
                assert(grows(*self, *self));
                assert forall|i: usize| i < self@.len() implies #[trigger] ancestry(self@, i) == ancestry(self@, i) by {}
            }
            return class;
        }
        proof {
            self.lemma_rank_bound(o);
            self.lemma_named();
        }
        let r = self.metaclass_rec(o);
        proof {
            assert(self.named() == old(self).named());
            assert(self.named()[8] == old(self).named()[8]);
        }
        r
    }
}

proof fn lemma_chain_suffix(objs: Seq<RubyObject>, hs: Seq<nat>, o: usize, f: nat, k: int)
    requires
        ranked(objs, hs),
        o < objs.len(),
        0 <= k < chain(objs, o, f).len(),
    ensures
        chain(objs, o, f).skip(k) == chain(objs, chain(objs, o, f)[k], (f - k) as nat),
    decreases f,
{
    let _ = sup_of(objs[o as int]);
    if k > 0 {
        match sup_of(objs[o as int]) {
            Some(s) => {
                lemma_chain_suffix(objs, hs, s, (f - 1) as nat, k - 1);
                assert(chain(objs, o, f).skip(k) =~= chain(objs, s, (f - 1) as nat).skip(k - 1));
            },
            None => {},
        }
    } else {
        assert(chain(objs, o, f).skip(0) =~= chain(objs, o, f));
    }
}

/// The first stand-in along `anc` for the module `d`, with whether a class,
/// module or metaclass came before it (`seen` counts one that came earlier).
pub open spec fn scan_for(objs: Seq<RubyObject>, anc: Seq<usize>, d: usize, seen: bool) -> Option<(usize, bool)>
    decreases anc.len(),
{
    if anc.len() == 0 {
        None
    } else {
        match objs[anc[0] as int] {
            RubyObject::IClass { site, .. } =>
                if site.module == d { Some((anc[0], seen)) } else { scan_for(objs, anc.drop_first(), d, seen) },
            _ => scan_for(objs, anc.drop_first(), d, true),
        }
    }
}

/// Whether `a` is of the kind of `b`, with the same site if both are
/// stand-ins.
pub open spec fn same_kind_site(a: RubyObject, b: RubyObject) -> bool {
    match (a, b) {
        (RubyObject::IClass { site: s1, .. }, RubyObject::IClass { site: s2, .. }) => s1 == s2,
        (RubyObject::IClass { .. }, _) => false,
        (_, RubyObject::IClass { .. }) => false,
        _ => true,
    }
}

/// Whether `o` is a stand-in for a module included without type arguments.
pub open spec fn untyped_iclass(o: RubyObject) -> bool {
    match o {
        RubyObject::IClass { site, .. } => site.type_parameters@.len() == 0,
        _ => false,
    }
}

/// `objs` with a stand-in for `site` put right after `cur` in the ancestry.
pub open spec fn with_iclass(objs: Seq<RubyObject>, cur: usize, site: Rc<IncludeSite>) -> Seq<RubyObject> {
    objs.update(cur as int, with_sup(objs[cur as int], Some(objs.len() as usize))).push(RubyObject::IClass {
        id: (objs.len() + 1) as usize,
        superclass: sup_of(objs[cur as int]),
        site,
    })
}

/// Including into `target` the modules `mods` in turn, each put after the
/// stand-in made for the one before, starting after `cur`: a module that
/// is `target` itself refuses the include; a module already included above
/// `target` is skipped (the next one going after it when no superclass
/// comes between), unless it was included with type arguments, which
/// refuses the include; any other gets a stand-in, with the site of the
/// stand-in it copies or else `site`.
pub open spec fn include_from(objs: Seq<RubyObject>, target: usize, mods: Seq<usize>, cur: usize, site: Rc<IncludeSite>)
    -> (Seq<RubyObject>, Result<(), IncludeError>)
    decreases mods.len(),
{
    if mods.len() == 0 {
        (objs, Ok(()))
    } else {
        let nm = mods[0];
        let d = delegate_of(objs, nm);
        if target == d {
            (objs, Err(IncludeError::CyclicInclude))
        } else {
            match scan_for(objs, ancestry(objs, target).drop_first(), d, false) {
                Some((at, seen)) => {
                    let cur2 = if !seen { at } else { cur };
                    match objs[at as int] {
                        RubyObject::IClass { site: found, .. } =>
                            if found.type_parameters@.len() == 0 {
                                include_from(objs, target, mods.drop_first(), cur2, site)
                            } else {
                                (objs, Err(IncludeError::DuplicateInclude(found.loc)))
                            },
                        _ => (objs, Ok(())),
                    }
                },
                None => {
                    let s = match objs[nm as int] {
                        RubyObject::IClass { site: copied, .. } => copied,
                        _ => site,
                    };
                    include_from(with_iclass(objs, cur, s), target, mods.drop_first(), objs.len() as usize, site)
                },
            }
        }
    }
}

impl ObjectGraph {
    /// Sets the next object in the ancestry of `i` to `s`, leaving the
    /// ranks to the caller.
    fn set_sup_raw(&mut self, i: usize, s: Option<usize>)
        requires
            i < old(self).objects@.len(),
        ensures
            final(self).objects@ == old(self).objects@.update(i as int, with_sup(old(self).objects@[i as int], s)),
            final(self).ranks == old(self).ranks,
            final(self).named() == old(self).named(),
            final(self).Object == old(self).Object,
            final(self).Class == old(self).Class,
            final(self).Module == old(self).Module,
            final(self).consts_same(old(self)),
            final(self).methods_same(old(self)),
            final(self).ivars_same(old(self)),
    {
        match &mut self.objects[i] {
            RubyObject::Module { superclass, .. } => {
                *superclass = s;
            },
            RubyObject::Class { superclass, .. } => {
                *superclass = s;
            },
            RubyObject::Metaclass { superclass, .. } => {
                *superclass = s;
            },
            RubyObject::IClass { superclass, .. } => {
                *superclass = s;
            },
        }
        assert(self.objects@ =~= old(self).objects@.update(i as int, with_sup(old(self).objects@[i as int], s)));
    }

    /// Puts a new stand-in for `site` right after `cur` in the ancestry.
    fn insert_iclass(&mut self, cur: usize, site: Rc<IncludeSite>) -> (r: usize)
        requires
            old(self).wf(),
            cur < old(self)@.len(),
            site.module < old(self)@.len(),
            site.reason < old(self)@.len(),
            !(old(self)@[site.module as int] is IClass),
            old(self)@.len() + 1 < usize::MAX,
        ensures
            final(self).wf(),
            r == old(self)@.len(),
            final(self)@ == with_iclass(old(self)@, cur, site),
            final(self).named() == old(self).named(),
            final(self).object_index() == old(self).object_index(),
            final(self).class_index() == old(self).class_index(),
            final(self).module_index() == old(self).module_index(),
            final(self).consts_same(old(self)),
            final(self).methods_same(old(self)),
            final(self).ivars_same(old(self)),
    {
        let ghost objs = self.objects@;
        let ghost hs = self.ranks@;
        let n = self.objects.len();
        let old_sup = self.superclass_link(cur);
        proof {
            self.lemma_wf_facts(cur as int);
            self.lemma_named();
        }
        self.objects.push(RubyObject::IClass { id: n + 1, superclass: old_sup, site });
        self.set_sup_raw(cur, Some(n));
        let ghost t = hs[cur as int];
        let ghost hs2 = Seq::new(objs.len(), |j: int| if hs[j] >= t { (hs[j] + 1) as nat } else { hs[j] }).push(t);
        self.ranks = Ghost(hs2);
        proof {
            let objs2 = self.objects@;
            assert(objs2 == with_iclass(objs, cur, site));
            assert forall|j: int| 0 <= j < objs2.len() implies #[trigger] hs2[j] < objs2.len() by {
                if j < objs.len() {
                    old(self).lemma_wf_facts(j);
                }
            }
            assert forall|j: int| 0 <= j < objs2.len() implies match #[trigger] sup_of(objs2[j]) {
                Some(s) => s < objs2.len() && hs2[s as int] < hs2[j],
                None => true,
            } by {
                if j < objs.len() {
                    old(self).lemma_wf_facts(j);
                    if j != cur {
                        assert(objs2[j] == objs[j]);
                        if let Some(s) = sup_of(objs[j]) {
                            old(self).lemma_wf_facts(s as int);
                        }
                    }
                } else {
                    if let Some(s) = sup_of(objs[cur as int]) {
                        old(self).lemma_wf_facts(s as int);
                    }
                }
            }
            assert forall|j: int| 0 <= j < objs2.len() implies #[trigger] refs_ok(objs2, j) by {
                if j < objs.len() {
                    old(self).lemma_wf_facts(j);
                    if let RubyObject::IClass { site: s2, .. } = objs[j] {
                        if s2.module as int != cur {
                            assert(objs2[s2.module as int] == objs[s2.module as int]);
                        }
                    }
                } else {
                    if site.module as int == cur {
                        assert(!(objs2[cur as int] is IClass));
                    } else {
                        assert(objs2[site.module as int] == objs[site.module as int]);
                    }
                }
            }
            assert forall|j: int| 0 <= j < objs2.len() implies #[trigger] meta_ok(objs2, j) by {
                if j < objs.len() {
                    old(self).lemma_wf_facts(j);
                    if let Some(c) = class_of(objs[j]) {
                        if c as int != cur {
                            assert(objs2[c as int] == objs[c as int]);
                        }
                    }
                }
            }
            assert forall|k: int| 0 <= k < self.named().len() implies #[trigger] self.named()[k] < objs2.len() by {
                assert(old(self).named()[k] < objs.len());
            }
            assert(objs2[self.Object as int] is Class);
            assert(objs2[self.Class as int] is Class);
            assert(objs2[self.Module as int] is Class);
            assert forall|j: int| 0 <= j < objs.len() implies (#[trigger] objs2[j] is IClass) == (objs[j] is IClass) by {
                if j != cur {
                    assert(objs2[j] == objs[j]);
                }
            }
            Self::lemma_consts_kept(old(self), self);
        }
        n
    }

    /// Includes `module`, and the modules it includes, into `target`; the
    /// type arguments of the include are `type_parameters`.
    pub fn include_module(&mut self, target: usize, module: usize, type_parameters: Vec<TypeNodeRef>, loc: Loc)
        -> (r: Result<(), IncludeError>)
        requires
            old(self).wf(),
            target < old(self)@.len(),
            module < old(self)@.len(),
            target == delegate_of(old(self)@, module) || (!(old(self)@[module as int] is IClass)
                && type_params(old(self)@[module as int]).len() == type_parameters@.len()),
            2 * old(self)@.len() + 2 < usize::MAX,
        ensures
            include_done(*old(self), *final(self), target, module, type_parameters, loc, r),
    {
        let dm = self.delegate_index(module);
        let ghost site0 = Rc::new(IncludeSite { loc, module: dm, reason: target, type_parameters });
        let mods = self.ancestors_of(module);
        proof {
            lemma_chain_nonempty(self@, module, self@.len());
            lemma_chain_len(self@, module, self@.len());
        }
        if target == dm {
            return Err(IncludeError::CyclicInclude);
        }
        let include_site = Rc::new(IncludeSite { loc, module: dm, type_parameters, reason: target });
        let mut cur = target;
        let mut k: usize = 0;
        assert(mods@.skip(0) =~= mods@);
        while k < mods.len()
            invariant
                old(self).wf(),
                self.wf(),
                k <= mods@.len(),
                mods@ == ancestry(old(self)@, module),
                mods@.len() <= old(self)@.len(),
                forall|i: int| 0 <= i < mods@.len() ==> #[trigger] mods@[i] < old(self)@.len(),
                old(self)@.len() <= self@.len() <= old(self)@.len() + k,
                2 * old(self)@.len() + 2 < usize::MAX,
                target < old(self)@.len(),
                cur < self@.len(),
                *include_site == *site0,
                site0 == Rc::new(IncludeSite { loc, module: delegate_of(old(self)@, module), reason: target, type_parameters }),
                include_site.module < old(self)@.len(),
                include_site.reason < old(self)@.len(),
                !(self@[include_site.module as int] is IClass),
                forall|i: int| 0 <= i < old(self)@.len() ==> #[trigger] same_kind_site(self@[i], old(self)@[i]),
                include_from(old(self)@, target, mods@, target, site0)
                    == include_from(self@, target, mods@.skip(k as int), cur, site0),
                self.named() == old(self).named(),
                self.Object == old(self).Object,
                self.Class == old(self).Class,
                self.Module == old(self).Module,
                self.consts_same(old(self)),
                self.methods_same(old(self)),
                self.ivars_same(old(self)),
            decreases mods@.len() - k,
        {
            let nm = mods[k];
            assert(mods@.skip(k as int)[0] == nm);
            assert(mods@.skip(k as int).drop_first() =~= mods@.skip(k + 1));
            let dn = self.delegate_index(nm);
            if target == dn {
                return Err(IncludeError::CyclicInclude);
            }
            let anc = self.ancestors_of(target);
            proof {
                lemma_chain_nonempty(self@, target, self@.len());
                assert(anc@.drop_first() =~= anc@.skip(1));
            }
            let ghost cur0 = cur;
            let mut superclass_seen = false;
            let mut found = false;
            let mut dup: Option<Loc> = None;
            let mut j: usize = 1;
            while j < anc.len()
                invariant_except_break
                    !found,
                    dup is None,
                    cur == cur0,
                    scan_for(self@, anc@.drop_first(), dn, false) == scan_for(self@, anc@.skip(j as int), dn, superclass_seen),
                invariant
                    self.wf(),
                    1 <= j <= anc@.len(),
                    anc@ == ancestry(self@, target),
                    forall|i: int| 0 <= i < anc@.len() ==> #[trigger] anc@[i] < self@.len(),
                    cur < self@.len(),
                ensures
                    found ==> dup is None && match scan_for(self@, anc@.drop_first(), dn, false) {
                        Some((at, seen)) => cur == (if !seen { at } else { cur0 }) && untyped_iclass(self@[at as int]),
                        None => false,
                    },
                    dup matches Some(l) ==> !found && match scan_for(self@, anc@.drop_first(), dn, false) {
                        Some((at, seen)) => self@[at as int] matches RubyObject::IClass { site, .. }
                            && site.type_parameters@.len() != 0 && site.loc == l,
                        None => false,
                    },
                    !found && dup is None ==> cur == cur0 && scan_for(self@, anc@.drop_first(), dn, false) is None,
                decreases anc@.len() - j,
            {
                assert(anc@.skip(j as int)[0] == anc@[j as int]);
                assert(anc@.skip(j as int).drop_first() =~= anc@.skip(j + 1));
                match &self.objects[anc[j]] {
                    RubyObject::IClass { site, .. } => {
                        if site.module == dn {
                            if !superclass_seen {
                                cur = anc[j];
                            }
                            if site.type_parameters.len() == 0 {
                                found = true;
                                break;
                            }
                            dup = Some(site.loc.clone());
                            break;
                        }
                    },
                    _ => {
                        superclass_seen = true;
                    },
                }
                j = j + 1;
            }
            match dup {
                Some(l) => {
                    return Err(IncludeError::DuplicateInclude(l));
                },
                None => {},
            }
            if !found {
                proof {
                    old(self).lemma_wf_facts(nm as int);
                    assert(same_kind_site(self@[nm as int], old(self)@[nm as int]));
                }
                let site = match &self.objects[nm] {
                    RubyObject::IClass { site, .. } => Rc::clone(site),
                    _ => Rc::clone(&include_site),
                };
                let ghost before = self@;
                let n = self.insert_iclass(cur, site);
                proof {
                    assert forall|i: int| 0 <= i < old(self)@.len() implies #[trigger] same_kind_site(self@[i], old(self)@[i]) by {
                        assert(same_kind_site(before[i], old(self)@[i]));
                        if i != cur {
                            assert(self@[i] == before[i]);
                        }
                    }
                }
                cur = n;
            }
            k = k + 1;
        }
        assert(mods@.skip(k as int) =~= Seq::<usize>::empty());
        Ok(())
    }
}

/// Following links from `o` with more steps than its rank ends at an
/// object with no link.
proof fn lemma_chain_ends(objs: Seq<RubyObject>, hs: Seq<nat>, o: usize, f: nat)
    requires
        ranked(objs, hs),
        o < objs.len(),
        f > hs[o as int],
    ensures
        chain(objs, o, f).len() > 0,
        sup_of(objs[chain(objs, o, f).last() as int]) is None,
    decreases f,
{
    match sup_of(objs[o as int]) {
        Some(s) => {
            lemma_chain_ends(objs, hs, s, (f - 1) as nat);
            assert((seq![o] + chain(objs, s, (f - 1) as nat)).last() == chain(objs, s, (f - 1) as nat).last());
        },
        None => {},
    }
}

proof fn lemma_chain_len(objs: Seq<RubyObject>, o: usize, f: nat)
    ensures
        chain(objs, o, f).len() <= f,
    decreases f,
{
    if f > 0 {
        if let Some(s) = sup_of(objs[o as int]) {
            lemma_chain_len(objs, s, (f - 1) as nat);
        }
    }
}

/// The names of the classes and modules every graph starts with, in the
/// order of `named_objects`.
pub open spec fn core_names() -> Seq<Seq<char>> {
    seq!["BasicObject"@, "Object"@, "Module"@, "Class"@, "Kernel"@, "Boolean"@,
        "TrueClass"@, "FalseClass"@, "NilClass"@, "Symbol"@, "String"@, "Numeric"@,
        "Integer"@, "Float"@, "Regexp"@, "Proc"@, "Exception"@, "StandardError"@]
}

/// No two core names are the same: each pair differs in its length or in
/// one of its first two characters.
proof fn lemma_core_names_distinct()
    ensures
        forall|i: int, j: int| 0 <= i < j < 18 ==> #[trigger] core_names()[i] != #[trigger] core_names()[j],
{
    reveal_strlit("BasicObject");
    reveal_strlit("Object");
    reveal_strlit("Module");
    reveal_strlit("Class");
    reveal_strlit("Kernel");
    reveal_strlit("Boolean");
    reveal_strlit("TrueClass");
    reveal_strlit("FalseClass");
    reveal_strlit("NilClass");
    reveal_strlit("Symbol");
    reveal_strlit("String");
    reveal_strlit("Numeric");
    reveal_strlit("Integer");
    reveal_strlit("Float");
    reveal_strlit("Regexp");
    reveal_strlit("Proc");
    reveal_strlit("Exception");
    reveal_strlit("StandardError");
    let names = core_names();
    assert forall|i: int, j: int| 0 <= i < j < 18 implies names[i] != names[j] by {
        let a = names[i];
        let b = names[j];
        assert(a.len() != b.len() || a[0] != b[0] || a[1] != b[1]);
    }
}

/// What `metaclass` of `o` does to the graph `g0`, giving `g1` and the
/// metaclass `r`.
pub open spec fn metaclass_done(g0: ObjectGraph, g1: ObjectGraph, o: usize, r: usize) -> bool {
    &&& metaclass_made(g1@, o)
    &&& g1.wf()
    &&& grows_mc(g0, g1)
    &&& g0@.len() <= g1@.len() <= 2 * g0@.len()
    &&& r < g1@.len()
    &&& g1@[r as int] matches RubyObject::Metaclass { of, .. } && of == o
    &&& class_of(g1@[o as int]) == Some(r)
    &&& forall|i: int| 0 <= i < g0@.len() ==> #[trigger] same_but_class(g1@[i], g0@[i])
    &&& forall|i: int| g0@.len() <= i < g1@.len() ==> #[trigger] g1@[i] is Metaclass
    &&& forall|i: usize| i < g0@.len() ==> #[trigger] ancestry(g1@, i) == ancestry(g0@, i)
    &&& g1.named() == g0.named()
    &&& g1.object_index() == g0.object_index()
    &&& g1.class_index() == g0.class_index()
    &&& g1.module_index() == g0.module_index()
    &&& g1.consts_same(&g0)
    &&& g1.methods_same(&g0)
    &&& g1.ivars_same(&g0)
    &&& match class_of(g0@[o as int]) {
        Some(c) => if g0@[c as int] is Metaclass {
            r == c && g1@ == g0@
        } else {
            &&& r == g1@.len() - 1
            &&& class_of(g1@[r as int]) == if g0@[o as int] is Module {
                Some(g0.class_index())
            } else {
                Some(c)
            }
            &&& sup_of(g1@[r as int]) == if g0@[o as int] is Module {
                Some(c)
            } else {
                match superclass_in(g0@, ancestry(g0@, o).drop_first()) {
                    Some(s) => class_of(g1@[s as int]),
                    None => None,
                }
            }
        },
        None => false,
    }
}

/// What `include_module` of `module` into `target` does to the graph `g0`,
/// giving `g1` and the result `r`.
pub open spec fn include_done(g0: ObjectGraph, g1: ObjectGraph, target: usize, module: usize,
    type_parameters: Vec<TypeNodeRef>, loc: Loc, r: Result<(), IncludeError>) -> bool {
    &&& g1.wf()
    &&& (g1@, r) == include_from(g0@, target, ancestry(g0@, module), target,
        Rc::new(IncludeSite { loc, module: delegate_of(g0@, module), reason: target, type_parameters }))
    &&& g1.named() == g0.named()
    &&& g1.object_index() == g0.object_index()
    &&& g1.class_index() == g0.class_index()
    &&& g1.module_index() == g0.module_index()
    &&& g1.consts_same(&g0)
    &&& g1.methods_same(&g0)
    &&& g1.ivars_same(&g0)
}

/// Whether `o` has its metaclass already: its class is a metaclass.
pub open spec fn metaclass_made(objs: Seq<RubyObject>, o: usize) -> bool {
    class_of(objs[o as int]) matches Some(c) && c < objs.len() && objs[c as int] is Metaclass
}

/// Whether `c` is a constant holding the class or module `v`, defined
/// without a location.
pub open spec fn holds_module(c: Option<Rc<ConstantEntry>>, v: usize) -> bool {
    c matches Some(e) && *e == (ConstantEntry::Module { loc: None, value: v })
}

/// Whether `m` is a public method of `owner` implemented by `i`.
pub open spec fn intrinsic(m: Option<Rc<MethodEntry>>, owner: usize, i: MethodImpl) -> bool {
    m matches Some(e) && e.owner == owner && e.visibility == MethodVisibility::Public && *e.implementation == i
}

impl ObjectGraph {
    /// The objects the graph names, in the order of its fields:
    /// `BasicObject`, `Object`, `Module`, `Class`, `Kernel`, `Boolean`,
    /// `TrueClass`, `FalseClass`, `NilClass`, `Symbol`, `String`,
    /// `Numeric`, `Integer`, `Float`, `Regexp`, `Proc`, `Exception`,
    /// `StandardError`.
    pub closed spec fn named_objects(&self) -> Seq<usize> {
        self.named()
    }

    /// The graph every program starts from: the classes `BasicObject`,
    /// `Object`, `Module` and `Class` tied together with the metaclass of
    /// `BasicObject`, then `Kernel` and the core classes defined as
    /// constants of `Object`, and the methods the checker knows itself.
    #[verifier::rlimit(100)]
    pub fn new() -> (o: ObjectGraph)
        ensures
            o.wf(),
            o.named_objects().len() == 18,
            o.object_index() == o.named_objects()[1],
            o.module_index() == o.named_objects()[2],
            o.class_index() == o.named_objects()[3],
            ancestry(o@, o.named_objects()[0]) == seq![o.named_objects()[0]],
            ancestry(o@, o.named_objects()[1]) == seq![o.named_objects()[1], o.named_objects()[0]],
            ancestry(o@, o.named_objects()[3]) == seq![o.named_objects()[3], o.named_objects()[2], o.named_objects()[1], o.named_objects()[0]],
            holds_module(o.const_of(o.named_objects()[0], "BasicObject"@), o.named_objects()[0]),
            holds_module(o.const_of(o.named_objects()[1], "Object"@), o.named_objects()[1]),
            holds_module(o.const_of(o.named_objects()[1], "Module"@), o.named_objects()[2]),
            holds_module(o.const_of(o.named_objects()[1], "Class"@), o.named_objects()[3]),
            holds_module(o.const_of(o.named_objects()[1], "Kernel"@), o.named_objects()[4]),
            holds_module(o.const_of(o.named_objects()[1], "Integer"@), o.named_objects()[12]),
            holds_module(o.const_of(o.named_objects()[1], "StandardError"@), o.named_objects()[17]),
            ancestry(o@, o.named_objects()[12]) == seq![o.named_objects()[12], o.named_objects()[11], o.named_objects()[1], o.named_objects()[0]],
            ancestry(o@, o.named_objects()[17]) == seq![o.named_objects()[17], o.named_objects()[16], o.named_objects()[1], o.named_objects()[0]],
            holds_module(o.const_of(o.named_objects()[1], "Boolean"@), o.named_objects()[5]),
            holds_module(o.const_of(o.named_objects()[1], "TrueClass"@), o.named_objects()[6]),
            holds_module(o.const_of(o.named_objects()[1], "FalseClass"@), o.named_objects()[7]),
            holds_module(o.const_of(o.named_objects()[1], "NilClass"@), o.named_objects()[8]),
            holds_module(o.const_of(o.named_objects()[1], "Symbol"@), o.named_objects()[9]),
            holds_module(o.const_of(o.named_objects()[1], "String"@), o.named_objects()[10]),
            holds_module(o.const_of(o.named_objects()[1], "Numeric"@), o.named_objects()[11]),
            holds_module(o.const_of(o.named_objects()[1], "Float"@), o.named_objects()[13]),
            holds_module(o.const_of(o.named_objects()[1], "Regexp"@), o.named_objects()[14]),
            holds_module(o.const_of(o.named_objects()[1], "Proc"@), o.named_objects()[15]),
            holds_module(o.const_of(o.named_objects()[1], "Exception"@), o.named_objects()[16]),
            ancestry(o@, o.named_objects()[2]) == seq![o.named_objects()[2], o.named_objects()[1], o.named_objects()[0]],
            ancestry(o@, o.named_objects()[4]) == seq![o.named_objects()[4]],
            ancestry(o@, o.named_objects()[5]) == seq![o.named_objects()[5], o.named_objects()[1], o.named_objects()[0]],
            ancestry(o@, o.named_objects()[6]) == seq![o.named_objects()[6], o.named_objects()[5], o.named_objects()[1], o.named_objects()[0]],
            ancestry(o@, o.named_objects()[7]) == seq![o.named_objects()[7], o.named_objects()[5], o.named_objects()[1], o.named_objects()[0]],
            ancestry(o@, o.named_objects()[8]) == seq![o.named_objects()[8], o.named_objects()[1], o.named_objects()[0]],
            ancestry(o@, o.named_objects()[9]) == seq![o.named_objects()[9], o.named_objects()[1], o.named_objects()[0]],
            ancestry(o@, o.named_objects()[10]) == seq![o.named_objects()[10], o.named_objects()[1], o.named_objects()[0]],
            ancestry(o@, o.named_objects()[11]) == seq![o.named_objects()[11], o.named_objects()[1], o.named_objects()[0]],
            ancestry(o@, o.named_objects()[13]) == seq![o.named_objects()[13], o.named_objects()[11], o.named_objects()[1], o.named_objects()[0]],
            ancestry(o@, o.named_objects()[14]) == seq![o.named_objects()[14], o.named_objects()[1], o.named_objects()[0]],
            ancestry(o@, o.named_objects()[15]) == seq![o.named_objects()[15], o.named_objects()[1], o.named_objects()[0]],
            ancestry(o@, o.named_objects()[16]) == seq![o.named_objects()[16], o.named_objects()[1], o.named_objects()[0]],
            intrinsic(o.method_of(o.named_objects()[3], "new"@), o.named_objects()[3], MethodImpl::IntrinsicClassNew),
            intrinsic(o.method_of(o.named_objects()[15], "call"@), o.named_objects()[15], MethodImpl::IntrinsicProcCall),
            intrinsic(o.method_of(o.named_objects()[4], "raise"@), o.named_objects()[4], MethodImpl::IntrinsicKernelRaise),
            intrinsic(o.method_of(o.named_objects()[4], "is_a?"@), o.named_objects()[4], MethodImpl::IntrinsicKernelIsA),
            intrinsic(o.method_of(o.named_objects()[4], "reveal_type"@), o.named_objects()[4], MethodImpl::IntrinsicRevealType),
    {
        let mut objects: Vec<RubyObject> = Vec::new();
        objects.push(RubyObject::Class { id: 1, name: "BasicObject".to_owned(), class: 4, superclass: None, type_parameters: Vec::new() });
        objects.push(RubyObject::Class { id: 2, name: "Object".to_owned(), class: 3, superclass: Some(0), type_parameters: Vec::new() });
        objects.push(RubyObject::Class { id: 3, name: "Module".to_owned(), class: 3, superclass: Some(1), type_parameters: Vec::new() });
        objects.push(RubyObject::Class { id: 4, name: "Class".to_owned(), class: 3, superclass: Some(2), type_parameters: Vec::new() });
        objects.push(RubyObject::Metaclass { id: 5, of: 0, class: 3, superclass: Some(3) });
        let ghost ranks = seq![0nat, 1nat, 2nat, 3nat, 4nat];
        let mut o = ObjectGraph {
            objects,
            ranks: Ghost(ranks),
            BasicObject: 0,
            Object: 1,
            Module: 2,
            Class: 3,
            Kernel: 1,
            Boolean: 1,
            TrueClass: 1,
            FalseClass: 1,
            NilClass: 1,
            Symbol: 1,
            String: 1,
            Numeric: 1,
            Integer: 1,
            Float: 1,
            Regexp: 1,
            Proc: 1,
            Exception: 1,
            StandardError: 1,
            constants: ClassTable::new(),
            methods: ClassTable::new(),
            ivars: ClassTable::new(),
        };
        proof {
            let objs = o.objects@;
            assert forall|i: int| 0 <= i < objs.len() implies #[trigger] refs_ok(objs, i) by {}
            assert forall|i: int| 0 <= i < objs.len() implies #[trigger] meta_ok(objs, i) by {}
            assert forall|i: int| 0 <= i < objs.len() implies #[trigger] ranks[i] < objs.len() by {}
            assert forall|i: int| 0 <= i < objs.len() implies match #[trigger] sup_of(objs[i]) {
                Some(s) => s < objs.len() && ranks[s as int] < ranks[i],
                None => true,
            } by {}
            assert forall|k: int| 0 <= k < o.named().len() implies #[trigger] o.named()[k] < objs.len() by {}
            assert(o.wf());
            lemma_core_names_distinct();
            let names = core_names();
            assert(names[0] == "BasicObject"@ && names[1] == "Object"@ && names[2] == "Module"@
                && names[3] == "Class"@ && names[4] == "Kernel"@ && names[5] == "Boolean"@
                && names[6] == "TrueClass"@ && names[7] == "FalseClass"@ && names[8] == "NilClass"@
                && names[9] == "Symbol"@ && names[10] == "String"@ && names[11] == "Numeric"@
                && names[12] == "Integer"@ && names[13] == "Float"@ && names[14] == "Regexp"@
                && names[15] == "Proc"@ && names[16] == "Exception"@ && names[17] == "StandardError"@);
        }
        proof {
            let objs = o.objects@;
            assert(chain(objs, 0, 2) == seq![0usize]);
            assert(chain(objs, 1, 3) == seq![1usize, 0usize]);
            assert(chain(objs, 2, 4) == seq![2usize, 1usize, 0usize]);
            assert(chain(objs, 3, 5) == seq![3usize, 2usize, 1usize, 0usize]);
            lemma_chain_fuel_any(objs, ranks, 0, 2, 5);
            lemma_chain_fuel_any(objs, ranks, 1, 3, 5);
            lemma_chain_fuel_any(objs, ranks, 3, 5, 5);
        }
        assert(o.const_of(0, "BasicObject"@) is None);
        assert(o.const_of(1, "Object"@) is None);
        assert(o.const_of(1, "Module"@) is None);
        assert(o.const_of(1, "Class"@) is None);
        assert(o.const_of(1, "Kernel"@) is None);
        assert(o.const_of(1, "Boolean"@) is None);
        assert(o.const_of(1, "TrueClass"@) is None);
        assert(o.const_of(1, "FalseClass"@) is None);
        assert(o.const_of(1, "NilClass"@) is None);
        assert(o.const_of(1, "Symbol"@) is None);
        assert(o.const_of(1, "String"@) is None);
        assert(o.const_of(1, "Numeric"@) is None);
        assert(o.const_of(1, "Integer"@) is None);
        assert(o.const_of(1, "Float"@) is None);
        assert(o.const_of(1, "Regexp"@) is None);
        assert(o.const_of(1, "Proc"@) is None);
        assert(o.const_of(1, "Exception"@) is None);
        assert(o.const_of(1, "StandardError"@) is None);
        assert(o.method_of(3, "new"@) is None);
        let _ = o.set_const(0, "BasicObject", Rc::new(ConstantEntry::Module { loc: None, value: 0 }));
        let _ = o.set_const(1, "Object", Rc::new(ConstantEntry::Module { loc: None, value: 1 }));
        let _ = o.set_const(1, "Module", Rc::new(ConstantEntry::Module { loc: None, value: 2 }));
        let _ = o.set_const(1, "Class", Rc::new(ConstantEntry::Module { loc: None, value: 3 }));
        let kernel = o.define_module(None, 1, "Kernel", Vec::new());
        let boolean = o.define_class(None, 1, "Boolean", 1, Vec::new());
        let true_class = o.define_class(None, 1, "TrueClass", boolean, Vec::new());
        let false_class = o.define_class(None, 1, "FalseClass", boolean, Vec::new());
        let nil_class = o.define_class(None, 1, "NilClass", 1, Vec::new());
        let symbol = o.define_class(None, 1, "Symbol", 1, Vec::new());
        let string = o.define_class(None, 1, "String", 1, Vec::new());
        let numeric = o.define_class(None, 1, "Numeric", 1, Vec::new());
        let integer = o.define_class(None, 1, "Integer", numeric, Vec::new());
        let float = o.define_class(None, 1, "Float", numeric, Vec::new());
        let regexp = o.define_class(None, 1, "Regexp", 1, Vec::new());
        let proc_ = o.define_class(None, 1, "Proc", 1, Vec::new());
        let exception = o.define_class(None, 1, "Exception", 1, Vec::new());
        let standard_error = o.define_class(None, 1, "StandardError", exception, Vec::new());
        let ghost gc = o;
        proof {
            assert(holds_module(gc.const_of(0, "BasicObject"@), 0));
            assert(holds_module(gc.const_of(1, "Object"@), 1));
            assert(holds_module(gc.const_of(1, "Module"@), 2));
            assert(holds_module(gc.const_of(1, "Class"@), 3));
            assert(holds_module(gc.const_of(1, "Kernel"@), kernel));
            assert(holds_module(gc.const_of(1, "Integer"@), integer));
            assert(holds_module(gc.const_of(1, "StandardError"@), standard_error));
            assert(holds_module(gc.const_of(1, "Boolean"@), boolean));
            assert(holds_module(gc.const_of(1, "TrueClass"@), true_class));
            assert(holds_module(gc.const_of(1, "FalseClass"@), false_class));
            assert(holds_module(gc.const_of(1, "NilClass"@), nil_class));
            assert(holds_module(gc.const_of(1, "Symbol"@), symbol));
            assert(holds_module(gc.const_of(1, "String"@), string));
            assert(holds_module(gc.const_of(1, "Numeric"@), numeric));
            assert(holds_module(gc.const_of(1, "Float"@), float));
            assert(holds_module(gc.const_of(1, "Regexp"@), regexp));
            assert(holds_module(gc.const_of(1, "Proc"@), proc_));
            assert(holds_module(gc.const_of(1, "Exception"@), exception));
        }
        o.define_method(3, "new".to_owned(), Rc::new(MethodEntry {
            owner: 3,
            visibility: MethodVisibility::Public,
            implementation: Rc::new(MethodImpl::IntrinsicClassNew),
        }));
        o.define_method(proc_, "call".to_owned(), Rc::new(MethodEntry {
            owner: proc_,
            visibility: MethodVisibility::Public,
            implementation: Rc::new(MethodImpl::IntrinsicProcCall),
        }));
        o.define_method(kernel, "raise".to_owned(), Rc::new(MethodEntry {
            owner: kernel,
            visibility: MethodVisibility::Public,
            implementation: Rc::new(MethodImpl::IntrinsicKernelRaise),
        }));
        o.define_method(kernel, "is_a?".to_owned(), Rc::new(MethodEntry {
            owner: kernel,
            visibility: MethodVisibility::Public,
            implementation: Rc::new(MethodImpl::IntrinsicKernelIsA),
        }));
        o.define_method(kernel, "reveal_type".to_owned(), Rc::new(MethodEntry {
            owner: kernel,
            visibility: MethodVisibility::Public,
            implementation: Rc::new(MethodImpl::IntrinsicRevealType),
        }));
        let ghost g = o;
        proof {
            reveal_strlit("new");
            reveal_strlit("call");
            reveal_strlit("raise");
            reveal_strlit("is_a?");
            reveal_strlit("reveal_type");
            assert("raise"@[0] != "is_a?"@[0]);
            assert("raise"@.len() != "reveal_type"@.len());
            assert("is_a?"@.len() != "reveal_type"@.len());
            assert(g.const_of(0, "BasicObject"@) == gc.const_of(0, "BasicObject"@));
            assert(g.const_of(1, "Object"@) == gc.const_of(1, "Object"@));
            assert(g.const_of(1, "Module"@) == gc.const_of(1, "Module"@));
            assert(g.const_of(1, "Class"@) == gc.const_of(1, "Class"@));
            assert(g.const_of(1, "Kernel"@) == gc.const_of(1, "Kernel"@));
            assert(g.const_of(1, "Integer"@) == gc.const_of(1, "Integer"@));
            assert(g.const_of(1, "StandardError"@) == gc.const_of(1, "StandardError"@));
            assert(g.const_of(1, "Boolean"@) == gc.const_of(1, "Boolean"@));
            assert(g.const_of(1, "TrueClass"@) == gc.const_of(1, "TrueClass"@));
            assert(g.const_of(1, "FalseClass"@) == gc.const_of(1, "FalseClass"@));
            assert(g.const_of(1, "NilClass"@) == gc.const_of(1, "NilClass"@));
            assert(g.const_of(1, "Symbol"@) == gc.const_of(1, "Symbol"@));
            assert(g.const_of(1, "String"@) == gc.const_of(1, "String"@));
            assert(g.const_of(1, "Numeric"@) == gc.const_of(1, "Numeric"@));
            assert(g.const_of(1, "Float"@) == gc.const_of(1, "Float"@));
            assert(g.const_of(1, "Regexp"@) == gc.const_of(1, "Regexp"@));
            assert(g.const_of(1, "Proc"@) == gc.const_of(1, "Proc"@));
            assert(g.const_of(1, "Exception"@) == gc.const_of(1, "Exception"@));
            assert(intrinsic(g.method_of(3, "new"@), 3, MethodImpl::IntrinsicClassNew));
            assert(intrinsic(g.method_of(proc_, "call"@), proc_, MethodImpl::IntrinsicProcCall));
            assert(intrinsic(g.method_of(kernel, "raise"@), kernel, MethodImpl::IntrinsicKernelRaise));
            assert(intrinsic(g.method_of(kernel, "is_a?"@), kernel, MethodImpl::IntrinsicKernelIsA));
            assert(intrinsic(g.method_of(kernel, "reveal_type"@), kernel, MethodImpl::IntrinsicRevealType));
            assert(ancestry(g@, 0) == seq![0usize]);
            assert(ancestry(g@, 1) == seq![1usize, 0usize]);
            assert(ancestry(g@, 3) == seq![3usize, 2usize, 1usize, 0usize]);
            assert(ancestry(g@, integer) == seq![integer, numeric, 1usize, 0usize]);
            assert(ancestry(g@, standard_error) == seq![standard_error, exception, 1usize, 0usize]);
            assert(ancestry(g@, 2usize) == seq![2usize, 1usize, 0usize]);
            assert(ancestry(g@, kernel) == seq![kernel]);
            assert(ancestry(g@, boolean) == seq![boolean, 1usize, 0usize]);
            assert(ancestry(g@, true_class) == seq![true_class, boolean, 1usize, 0usize]);
            assert(ancestry(g@, false_class) == seq![false_class, boolean, 1usize, 0usize]);
            assert(ancestry(g@, nil_class) == seq![nil_class, 1usize, 0usize]);
            assert(ancestry(g@, symbol) == seq![symbol, 1usize, 0usize]);
            assert(ancestry(g@, string) == seq![string, 1usize, 0usize]);
            assert(ancestry(g@, numeric) == seq![numeric, 1usize, 0usize]);
            assert(ancestry(g@, float) == seq![float, numeric, 1usize, 0usize]);
            assert(ancestry(g@, regexp) == seq![regexp, 1usize, 0usize]);
            assert(ancestry(g@, proc_) == seq![proc_, 1usize, 0usize]);
            assert(ancestry(g@, exception) == seq![exception, 1usize, 0usize]);
        }
        o.Kernel = kernel;
        o.Boolean = boolean;
        o.TrueClass = true_class;
        o.FalseClass = false_class;
        o.NilClass = nil_class;
        o.Symbol = symbol;
        o.String = string;
        o.Numeric = numeric;
        o.Integer = integer;
        o.Float = float;
        o.Regexp = regexp;
        o.Proc = proc_;
        o.Exception = exception;
        o.StandardError = standard_error;
        proof {
            assert forall|k: int| 0 <= k < o.named().len() implies #[trigger] o.named()[k] < o@.len() by {}
            Self::lemma_wf_same_named(g, o);
        }
        o
    }
}


/// `g2` is `g1` with objects added after its own and the classes of its
/// objects changed, its constants the same: what making metaclasses does,
/// and defining methods and instance variables.
pub open spec fn grows(g1: ObjectGraph, g2: ObjectGraph) -> bool {
    &&& g1.wf()
    &&& g2.wf()
    &&& g1@.len() <= g2@.len()
    &&& forall|i: int| 0 <= i < g1@.len() ==> #[trigger] same_but_class(g2@[i], g1@[i])
    &&& forall|i: usize| i < g1@.len() ==> #[trigger] ancestry(g2@, i) == ancestry(g1@, i)
    &&& g2.named() == g1.named()
    &&& g2.nil_index() == g1.nil_index()
    &&& g2.object_index() == g1.object_index()
    &&& g2.class_index() == g1.class_index()
    &&& g2.module_index() == g1.module_index()
    &&& g2.consts_same(&g1)
}

/// `g2` grows from `g1` and has the same methods and instance variables:
/// what making metaclasses does.
pub open spec fn grows_mc(g1: ObjectGraph, g2: ObjectGraph) -> bool {
    &&& grows(g1, g2)
    &&& g2.methods_same(&g1)
    &&& g2.ivars_same(&g1)
}

/// The class or module that the constant `name` of `Object` holds, if it
/// holds one.
pub open spec fn class_named(g: ObjectGraph, name: Seq<char>) -> Option<usize> {
    match g.const_seen(g.object_index(), name) {
        Some(c) => match *c {
            ConstantEntry::Module { value, .. } => Some(value),
            ConstantEntry::Expression { .. } => None,
        },
        None => None,
    }
}

proof fn lemma_const_along_valid(g: ObjectGraph, anc: Seq<usize>, name: Seq<char>)
    requires
        g.wf(),
        forall|k: int| 0 <= k < anc.len() ==> #[trigger] anc[k] < g@.len(),
    ensures
        const_along(g, anc, name) matches Some(c) ==> const_valid(g@, *c),
    decreases anc.len(),
{
    if anc.len() > 0 {
        let d = delegate_of(g@, anc[0]);
        assert(g.constants.get(d, name) == g.const_of(d, name));
        lemma_const_along_valid(g, anc.drop_first(), name);
    }
}

proof fn lemma_const_along_grows(g1: ObjectGraph, g2: ObjectGraph, anc: Seq<usize>, name: Seq<char>)
    requires
        grows(g1, g2),
        forall|k: int| 0 <= k < anc.len() ==> #[trigger] anc[k] < g1@.len(),
    ensures
        const_along(g2, anc, name) == const_along(g1, anc, name),
    decreases anc.len(),
{
    if anc.len() > 0 {
        let i = anc[0] as int;
        assert(same_but_class(g2@[i], g1@[i]));
        assert(delegate_of(g2@, anc[0]) == delegate_of(g1@, anc[0]));
        lemma_const_along_grows(g1, g2, anc.drop_first(), name);
    }
}

impl ObjectGraph {
    /// A constant seen from an object of the graph that holds a class or
    /// module holds one of the graph's objects, no stand-in.
    pub proof fn lemma_const_seen_valid(&self, o: usize, name: Seq<char>)
        requires
            self.wf(),
            o < self@.len(),
        ensures
            self.const_seen(o, name) matches Some(c) ==> const_valid(self@, *c),
    {
        let anc = ancestry(self@, o);
        assert forall|k: int| 0 <= k < anc.len() implies #[trigger] anc[k] < self@.len() by {
            lemma_ancestry_bound(*self, o, k);
        }
        lemma_const_along_valid(*self, anc, name);
    }

    /// A constant defined directly on an object holds, where it holds a
    /// class or module, an object of the graph that is no stand-in.
    pub proof fn lemma_const_of_valid(&self, o: usize, name: Seq<char>)
        requires
            self.wf(),
        ensures
            self.const_of(o, name) matches Some(c) ==> const_valid(self@, *c),
    {
        if self.const_of(o, name) is Some {
            assert(self.constants.get(o, name) is Some);
        }
    }

    /// Every graph grows into itself.
    pub proof fn lemma_grows_refl(&self)
        requires
            self.wf(),
        ensures
            grows(*self, *self),
    {
        assert forall|i: int| 0 <= i < self@.len() implies #[trigger] same_but_class(self@[i], self@[i]) by {
            match class_of(self@[i]) {
                Some(c) => { assert(with_class(self@[i], c) == self@[i]); },
                None => {},
            }
        }
    }

    /// A graph with the same objects and constants grows from the other.
    pub proof fn lemma_grows_same_objects(g1: ObjectGraph, g2: ObjectGraph)
        requires
            g1.wf(),
            g2.wf(),
            g2.objects_same(&g1),
            g2.consts_same(&g1),
        ensures
            grows(g1, g2),
    {
        g1.lemma_grows_refl();
    }

    /// Every graph grows into itself, by no metaclass.
    pub proof fn lemma_grows_mc_refl(&self)
        requires
            self.wf(),
        ensures
            grows_mc(*self, *self),
    {
        self.lemma_grows_refl();
    }

    /// Growing by metaclasses twice is growing by metaclasses.
    pub proof fn lemma_grows_mc_trans(g1: ObjectGraph, g2: ObjectGraph, g3: ObjectGraph)
        requires
            grows_mc(g1, g2),
            grows_mc(g2, g3),
        ensures
            grows_mc(g1, g3),
    {
        Self::lemma_grows_trans(g1, g2, g3);
    }

    /// Graphs with the same objects hold the same objects.
    pub proof fn lemma_objects_same(g1: ObjectGraph, g2: ObjectGraph)
        requires
            g2.objects_same(&g1),
        ensures
            g2@ == g1@,
    {
    }

    /// Graphs with the same constants define the same constants.
    pub proof fn lemma_consts_same(g1: ObjectGraph, g2: ObjectGraph)
        requires
            g2.consts_same(&g1),
        ensures
            forall|o: usize, n: Seq<char>| #[trigger] g2.const_of(o, n) == g1.const_of(o, n),
    {
    }

    /// Graphs with the same methods define the same methods.
    pub proof fn lemma_methods_same(g1: ObjectGraph, g2: ObjectGraph)
        requires
            g2.methods_same(&g1),
        ensures
            forall|o: usize, n: Seq<char>| #[trigger] g2.method_of(o, n) == g1.method_of(o, n),
    {
    }

    /// Graphs with the same instance variables declare the same ones.
    pub proof fn lemma_ivars_same(g1: ObjectGraph, g2: ObjectGraph)
        requires
            g2.ivars_same(&g1),
        ensures
            forall|o: usize, n: Seq<char>| #[trigger] g2.ivar_of(o, n) == g1.ivar_of(o, n),
    {
    }

    /// Growing twice is growing.
    pub proof fn lemma_grows_trans(g1: ObjectGraph, g2: ObjectGraph, g3: ObjectGraph)
        requires
            grows(g1, g2),
            grows(g2, g3),
        ensures
            grows(g1, g3),
    {
        assert forall|i: int| 0 <= i < g1@.len() implies #[trigger] same_but_class(g3@[i], g1@[i]) by {
            assert(same_but_class(g3@[i], g2@[i]));
            assert(same_but_class(g2@[i], g1@[i]));
        }
        assert forall|i: usize| i < g1@.len() implies #[trigger] ancestry(g3@, i) == ancestry(g1@, i) by {
            assert(ancestry(g3@, i) == ancestry(g2@, i));
        }
    }

    /// What an object of a graph sees of its constants stays as the graph
    /// grows.
    pub proof fn lemma_grows_const_seen(g1: ObjectGraph, g2: ObjectGraph, o: usize, name: Seq<char>)
        requires
            grows(g1, g2),
            o < g1@.len(),
        ensures
            g2.const_seen(o, name) == g1.const_seen(o, name),
    {
        let anc = ancestry(g1@, o);
        assert(ancestry(g2@, o) == anc);
        assert forall|k: int| 0 <= k < anc.len() implies #[trigger] anc[k] < g1@.len() by {
            lemma_ancestry_bound(g1, o, k);
        }
        lemma_const_along_grows(g1, g2, anc, name);
    }

    /// The names of the objects of a graph stay as the graph grows.
    pub proof fn lemma_grows_name(g1: ObjectGraph, g2: ObjectGraph, i: int)
        requires
            grows(g1, g2),
            0 <= i < g1@.len(),
        ensures
            obj_name(g2@, i) == obj_name(g1@, i),
        decreases i,
    {
        assert(same_but_class(g2@[i], g1@[i]));
        match g1@[i] {
            RubyObject::Metaclass { of, .. } => {
                if of < i {
                    Self::lemma_grows_name(g1, g2, of as int);
                }
            },
            RubyObject::IClass { site, .. } => {
                if site.module < i && site.reason < i {
                    Self::lemma_grows_name(g1, g2, site.module as int);
                    Self::lemma_grows_name(g1, g2, site.reason as int);
                }
            },
            _ => {},
        }
    }

    /// The class or module that the constant `name` of `Object` holds; it
    /// must hold one.
    fn expect_class(&self, name: &str) -> (r: usize)
        requires
            self.wf(),
            class_named(*self, name@) is Some,
        ensures
            Some(r) == class_named(*self, name@),
            r < self@.len(),
            !(self@[r as int] is IClass),
    {
        proof {
            self.lemma_named();
            self.lemma_const_seen_valid(self.Object, name@);
        }
        let c = self.get_const(self.Object, name);
        match c {
            Some(c) => c.expect_module(),
            None => 0,
        }
    }

    /// The class `Array`.
    pub fn array_class(&self) -> (r: usize)
        requires
            self.wf(),
            class_named(*self, "Array"@) is Some,
        ensures
            Some(r) == class_named(*self, "Array"@),
            r < self@.len(),
            !(self@[r as int] is IClass),
    {
        self.expect_class("Array")
    }

    /// The class `Hash`.
    pub fn hash_class(&self) -> (r: usize)
        requires
            self.wf(),
            class_named(*self, "Hash"@) is Some,
        ensures
            Some(r) == class_named(*self, "Hash"@),
            r < self@.len(),
            !(self@[r as int] is IClass),
    {
        self.expect_class("Hash")
    }

    /// The class `Range`.
    pub fn range_class(&self) -> (r: usize)
        requires
            self.wf(),
            class_named(*self, "Range"@) is Some,
        ensures
            Some(r) == class_named(*self, "Range"@),
            r < self@.len(),
            !(self@[r as int] is IClass),
    {
        self.expect_class("Range")
    }

    /// Whether `class` is a `Hash`: `Hash` is it or one of its ancestors.
    pub fn is_hash(&self, class: usize) -> (r: bool)
        requires
            self.wf(),
            class < self@.len(),
            class_named(*self, "Hash"@) is Some,
        ensures
            r == exists|k: int| 0 <= k < ancestry(self@, class).len()
                && delegate_of(self@, #[trigger] ancestry(self@, class)[k]) == class_named(*self, "Hash"@)->0,
    {
        let h = self.hash_class();
        proof {
            self.lemma_wf_facts(class as int);
        }
        self.object(class).is_a(self, h)
    }

    /// Whether `class` is an `Array`: `Array` is it or one of its ancestors.
    pub fn is_array(&self, class: usize) -> (r: bool)
        requires
            self.wf(),
            class < self@.len(),
            class_named(*self, "Array"@) is Some,
        ensures
            r == exists|k: int| 0 <= k < ancestry(self@, class).len()
                && delegate_of(self@, #[trigger] ancestry(self@, class)[k]) == class_named(*self, "Array"@)->0,
    {
        let a = self.array_class();
        proof {
            self.lemma_wf_facts(class as int);
        }
        self.object(class).is_a(self, a)
    }
}

proof fn lemma_ancestry_bound(g: ObjectGraph, o: usize, k: int)
    requires
        g.wf(),
        o < g@.len(),
        0 <= k < ancestry(g@, o).len(),
    ensures
        ancestry(g@, o)[k] < g@.len(),
{
    g.lemma_wf_facts(o as int);
    lemma_chain_bound(g@, g.ranks@, o, g@.len(), k);
}

proof fn lemma_chain_bound(objs: Seq<RubyObject>, hs: Seq<nat>, o: usize, f: nat, k: int)
    requires
        ranked(objs, hs),
        o < objs.len(),
        0 <= k < chain(objs, o, f).len(),
    ensures
        chain(objs, o, f)[k] < objs.len(),
    decreases f,
{
    let _ = sup_of(objs[o as int]);
    if k > 0 {
        match sup_of(objs[o as int]) {
            Some(s) => lemma_chain_bound(objs, hs, s, (f - 1) as nat, k - 1),
            None => {},
        }
    }
}

} // verus!
