//! Definitions collected while loading files, to be entered into the
//! object graph once loading is done.

use std::rc::Rc;
use vstd::prelude::*;
use crate::abstract_type::{scope_extended, AnnotationStatus, Prototype, TypeNode, TypeScope};
use crate::ast::{Id, Loc, Node};
use crate::environment::scope_in;
use crate::errors::{reports_view, Report, ReportView};
use crate::object::{
    class_of, grows, obj_name, type_params, IvarEntry, MethodEntry, MethodImpl, ObjectGraph, RubyObject, Scope,
};
use crate::resolve::{
    constant_scope_of, doubled, lemma_extended_constant, proto_budget, proto_is, proto_ok, proto_reps, proto_status,
    push_report1, push_report2, report1, type_budget, type_is, type_ok, type_reps,
};
use crate::text::push_str;

verus! {

/// Who may call a method.
#[derive(Clone, Copy, Debug, PartialEq, Eq, Structural)]
pub enum MethodVisibility {
    Public,
    Protected,
    Private,
}

/// A method definition waiting to be entered.
pub enum MethodDef {
    Def {
        module: usize,
        visi: MethodVisibility,
        name: Id,
        node: Rc<Node>,
        scope: Rc<Scope>,
    },
    Alias {
        module: usize,
        to: Id,
        from: Id,
        emit_error: bool,
    },
    AttrReader {
        module: usize,
        visi: MethodVisibility,
        name: Id,
    },
    AttrWriter {
        module: usize,
        visi: MethodVisibility,
        name: Id,
    },
    SetVisi {
        module: usize,
        visi: MethodVisibility,
        name: Id,
        emit_error: bool,
    },
    ModuleFunc {
        module: usize,
        name: Id,
        emit_error: bool,
    },
}

/// An instance variable declaration waiting to be entered.
pub struct IvarDef {
    pub module: usize,
    pub name: Id,
    pub type_node: Rc<Node>,
    pub scope: Rc<Scope>,
}

/// A constant mentioned in a definition, to be autoloaded once loading is
/// done.
pub struct ConstReference {
    pub node: Rc<Node>,
    pub scope: Rc<Scope>,
}

/// The definitions collected so far, each kind in the order it came.
pub struct Definitions {
    methods: Vec<MethodDef>,
    ivars: Vec<IvarDef>,
    const_refs: Vec<ConstReference>,
}

impl Definitions {
    pub closed spec fn methods(&self) -> Seq<MethodDef> {
        self.methods@
    }

    pub closed spec fn ivars(&self) -> Seq<IvarDef> {
        self.ivars@
    }

    pub closed spec fn const_refs(&self) -> Seq<ConstReference> {
        self.const_refs@
    }

    pub fn new() -> (r: Self)
        ensures
            r.methods().len() == 0,
            r.ivars().len() == 0,
            r.const_refs().len() == 0,
    {
        Definitions { methods: Vec::new(), ivars: Vec::new(), const_refs: Vec::new() }
    }

    /// The method definitions queued, in order.
    pub fn queued_methods(&self) -> (r: &Vec<MethodDef>)
        ensures
            r@ == self.methods(),
    {
        &self.methods
    }

    /// The instance variable declarations queued, in order.
    pub fn queued_ivars(&self) -> (r: &Vec<IvarDef>)
        ensures
            r@ == self.ivars(),
    {
        &self.ivars
    }

    /// Queues a method definition after those queued before.
    pub fn add_method(&mut self, method: MethodDef)
        ensures
            final(self).methods() == old(self).methods().push(method),
            final(self).ivars() == old(self).ivars(),
            final(self).const_refs() == old(self).const_refs(),
    {
        self.methods.push(method);
    }

    /// Queues an instance variable declaration after those queued before.
    pub fn add_ivar(&mut self, ivar: IvarDef)
        ensures
            final(self).ivars() == old(self).ivars().push(ivar),
            final(self).methods() == old(self).methods(),
            final(self).const_refs() == old(self).const_refs(),
    {
        self.ivars.push(ivar);
    }

    /// Queues a constant reference after those queued before.
    pub fn add_const_reference(&mut self, autoload: ConstReference)
        ensures
            final(self).const_refs() == old(self).const_refs().push(autoload),
            final(self).methods() == old(self).methods(),
            final(self).ivars() == old(self).ivars(),
    {
        self.const_refs.push(autoload);
    }
}

/// The type scope of the body of `module` inside `scope`.
pub open spec fn body_scope(g: ObjectGraph, scope: Rc<Scope>, module: usize) -> TypeScope {
    scope_extended(TypeScope::Constant { scope }, type_params(g@[module as int]))
}

/// A class, module or metaclass of `g`.
pub open spec fn module_ok(g: ObjectGraph, m: usize) -> bool {
    m < g@.len() && !(g@[m as int] is IClass)
}

/// `g2` is `g1` with the method `name` of `o` set to `e`.
pub open spec fn method_set(g1: ObjectGraph, g2: ObjectGraph, o: usize, name: Seq<char>, e: Rc<MethodEntry>) -> bool {
    &&& g2.method_of(o, name) == Some(e)
    &&& forall|o2: usize, n2: Seq<char>| !(o2 == o && n2 == name) ==> #[trigger] g2.method_of(o2, n2) == g1.method_of(o2, n2)
}

/// The method `name` that a visibility declaration in `module` refers to:
/// the one `module` sees, or for a module the one `Object` sees.
pub open spec fn visi_seen(g: ObjectGraph, module: usize, name: Seq<char>) -> Option<Rc<MethodEntry>> {
    match g.method_seen(module, name) {
        Some(m) => Some(m),
        None => if g@[module as int] is Module { g.method_seen(g.object_index(), name) } else { None },
    }
}

/// The method `name` that a visibility declaration in `module` refers to.
fn lookup_visi(module: usize, name: &str, graph: &ObjectGraph) -> (r: Option<Rc<MethodEntry>>)
    requires
        graph.wf(),
        module_ok(*graph, module),
    ensures
        r == visi_seen(*graph, module, name@),
{
    match graph.lookup_method(module, name) {
        Some(m) => Some(m),
        None => {
            let is_module = match graph.object(module) {
                RubyObject::Module { .. } => true,
                _ => false,
            };
            if is_module {
                proof {
                    graph.lemma_named_in();
                }
                graph.lookup_method(graph.object_class(), name)
            } else {
                None
            }
        },
    }
}

/// Declares the instance variable of `ivar` with its type resolved in the
/// body of its module; a second declaration is reported and leaves the
/// first.
pub fn define_ivar(graph: &mut ObjectGraph, reports: &mut Vec<Report>, ivar: IvarDef)
    requires
        old(graph).wf(),
        module_ok(*old(graph), ivar.module),
        scope_in(*old(graph), *ivar.scope),
        type_ok(*old(graph), *ivar.type_node),
        doubled(old(graph)@.len() as nat, type_budget(*ivar.type_node)) < usize::MAX / 2,
    ensures
        grows(*old(graph), *final(graph)),
        forall|o: usize, n: Seq<char>| #[trigger] final(graph).method_of(o, n) == old(graph).method_of(o, n),
        match old(graph).ivar_seen(ivar.module, ivar.name.1@) {
            Some(e) => {
                &&& *final(graph) == *old(graph)
                &&& reports_view(final(reports)@) == reports_view(old(reports)@).push((
                    "Duplicate instance variable type declaration"@,
                    seq![("here"@, ivar.name.0), ("previous declaration was here"@, e.ivar_loc)]))
            },
            None => {
                let ts = body_scope(*old(graph), ivar.scope, ivar.module);
                &&& final(graph).ivar_of(ivar.module, ivar.name.1@) matches Some(v) && v.ivar_loc == ivar.name.0
                    && type_is(*old(graph), *final(graph), ts, *ivar.type_node, *v.ty)
                &&& forall|o: usize, n: Seq<char>| !(o == ivar.module && n == ivar.name.1@)
                    ==> #[trigger] final(graph).ivar_of(o, n) == old(graph).ivar_of(o, n)
                &&& reports_view(final(reports)@) == reports_view(old(reports)@) + type_reps(*old(graph), ts, *ivar.type_node)
            },
        },
{
    let IvarDef { module, name, type_node, scope } = ivar;
    let Id(ivar_loc, ivar_name) = name;
    proof {
        graph.lemma_grows_refl();
    }
    match graph.lookup_ivar(module, ivar_name.as_str()) {
        Some(entry) => {
            push_report2(reports, "Duplicate instance variable type declaration", "here", &ivar_loc,
                "previous declaration was here", &entry.ivar_loc);
        },
        None => {
            let ghost g0 = *graph;
            let ts = TypeScope::new(graph, scope, module);
            proof {
                lemma_extended_constant(TypeScope::Constant { scope }, type_params(g0@[module as int]));
            }
            let ty = TypeNode::resolve(&type_node, graph, ts, reports);
            let ghost g1 = *graph;
            proof {
                assert(crate::object::same_but_class(g1@[module as int], g0@[module as int]));
                ObjectGraph::lemma_ivars_same(g0, g1);
                ObjectGraph::lemma_methods_same(g0, g1);
            }
            let entry = Rc::new(IvarEntry { ivar_loc, ty });
            graph.define_ivar(module, ivar_name, entry);
            proof {
                ObjectGraph::lemma_grows_same_objects(g1, *graph);
                ObjectGraph::lemma_grows_trans(g0, g1, *graph);
                ObjectGraph::lemma_methods_same(g1, *graph);
            }
        },
    }
}


/// The signature of a method definition node.
pub open spec fn def_proto(n: Node) -> Option<Rc<Node>> {
    match n {
        Node::Def(_, _, p, _) => p,
        Node::Defs(_, _, _, p, _) => p,
        _ => None,
    }
}

/// The body of a method definition node.
pub open spec fn def_body(n: Node) -> Option<Rc<Node>> {
    match n {
        Node::Def(_, _, _, b) => b,
        Node::Defs(_, _, _, _, b) => b,
        _ => None,
    }
}

/// How much of the signature of a method definition is annotated: nothing
/// of a method without one.
pub open spec fn def_status(n: Node) -> AnnotationStatus {
    match def_proto(n) {
        Some(p) => proto_status(*p),
        None => AnnotationStatus::Untyped,
    }
}

/// Where the prototype of a method definition is: at its signature, or at
/// the name of a method without one.
pub open spec fn def_proto_loc(name_loc: Loc, n: Node) -> Loc {
    match def_proto(n) {
        Some(p) => p.spec_loc(),
        None => name_loc,
    }
}

/// What a method definition's signature resolves to, or, without one, an
/// untyped prototype at its name.
pub open spec fn def_proto_is(g0: ObjectGraph, g: ObjectGraph, ts: TypeScope, name_loc: Loc, n: Node, p: Prototype) -> bool {
    match def_proto(n) {
        Some(pn) => proto_is(g0, g, ts, *pn, p),
        None => p.loc == name_loc && p.type_vars@.len() == 0 && p.type_constraints@.len() == 0 && p.args@.len() == 0
            && p.retn is None,
    }
}

/// A method definition that can be entered into `g`: its module is in it
/// and, for a method, it is a definition whose signature can be resolved.
pub open spec fn method_ok(g: ObjectGraph, m: MethodDef) -> bool {
    match m {
        MethodDef::Def { module, node, scope, .. } => module_ok(g, module) && scope_in(g, *scope)
            && (*node is Def || *node is Defs) && match def_proto(*node) {
                Some(p) => proto_ok(g, *p) && doubled(g@.len() as nat, proto_budget(*p)) < usize::MAX / 2,
                None => true,
            },
        MethodDef::Alias { module, .. } => module_ok(g, module),
        MethodDef::AttrReader { module, .. } => module_ok(g, module),
        MethodDef::AttrWriter { module, .. } => module_ok(g, module),
        MethodDef::SetVisi { module, .. } => module_ok(g, module),
        MethodDef::ModuleFunc { module, .. } => module_ok(g, module) && 2 * g@.len() + 2 < usize::MAX,
    }
}

/// What entering a method definition into `g` reports.
pub open spec fn method_reps(g: ObjectGraph, m: MethodDef) -> Seq<ReportView> {
    match m {
        MethodDef::Def { module, name, node, scope, .. } => (match def_proto(*node) {
            Some(p) => proto_reps(g, body_scope(g, scope, module), *p),
            None => seq![],
        }) + if def_status(*node) == AnnotationStatus::Partial {
            seq![report1("Partial type signatures are not permitted in method definitions"@,
                "all arguments and return value must be annotated"@, def_proto_loc(name.0, *node))]
        } else {
            seq![]
        },
        MethodDef::Alias { module, from, emit_error, .. } => if g.method_seen(module, from.1@) is None && emit_error {
            seq![report1("Could not resolve source method in alias"@, obj_name(g@, module as int) + "#"@ + from.1@, from.0)]
        } else {
            seq![]
        },
        MethodDef::SetVisi { module, name, emit_error, .. } => if visi_seen(g, module, name.1@) is None && emit_error {
            seq![report1("Could not resolve method name in visibility declaration"@, "here"@, name.0)]
        } else {
            seq![]
        },
        MethodDef::ModuleFunc { module, name, emit_error } => if visi_seen(g, module, name.1@) is None && emit_error {
            seq![report1("Could not resolve method name in module_function"@, "here"@, name.0)]
        } else {
            seq![]
        },
        _ => seq![],
    }
}

/// `g` has the methods of `g0`.
pub open spec fn methods_kept(g0: ObjectGraph, g: ObjectGraph) -> bool {
    forall|o: usize, n: Seq<char>| #[trigger] g.method_of(o, n) == g0.method_of(o, n)
}

/// What entering the method definition `m` into `g0` makes of it, `g`, and
/// gives back, `r`: a method definition defines a method of its module
/// whose prototype is its resolved signature, typed when all of it is
/// annotated; an alias defines the method it names under the new name, or
/// an untyped method; attributes define their reader or writer; a
/// visibility declaration defines the method it names on its module with
/// the visibility; a module function defines the method it names on the
/// metaclass of its module. Only a method definition gives back what it
/// defines.
pub open spec fn defines(g0: ObjectGraph, g: ObjectGraph, m: MethodDef, r: Option<Rc<MethodEntry>>) -> bool {
    match m {
        MethodDef::Def { module, visi, name, node, scope } => r matches Some(e) && method_set(g0, g, module, name.1@, e)
            && e.owner == module && e.visibility == visi && ({
                let ts = body_scope(g0, scope, module);
                let st = def_status(*node);
                match *e.implementation {
                    MethodImpl::TypedRuby { name: n2, proto, body, scope: s2 } => st == AnnotationStatus::Typed
                        && n2@ == name.1@ && body == def_body(*node) && s2 == scope
                        && def_proto_is(g0, g, ts, name.0, *node, proto),
                    MethodImpl::Ruby { name: n2, proto } => st != AnnotationStatus::Typed && n2@ == name.1@
                        && def_proto_is(g0, g, ts, name.0, *node, proto),
                    _ => false,
                }
            }),
        MethodDef::Alias { module, to, from, .. } => r is None && match g0.method_seen(module, from.1@) {
            Some(me) => method_set(g0, g, module, to.1@, me),
            None => (g.method_of(module, to.1@) matches Some(e) && method_set(g0, g, module, to.1@, e) && e.owner == module
                && e.visibility == MethodVisibility::Public && *e.implementation == MethodImpl::Untyped),
        },
        MethodDef::AttrReader { module, visi, name } => r is None && (g.method_of(module, name.1@) matches Some(e)
            && method_set(g0, g, module, name.1@, e) && e.owner == module && e.visibility == visi
            && (*e.implementation matches MethodImpl::AttrReader { ivar, loc } && ivar@ == "@"@ + name.1@ && loc == name.0)),
        MethodDef::AttrWriter { module, visi, name } => r is None && (g.method_of(module, name.1@ + "="@) matches Some(e)
            && method_set(g0, g, module, name.1@ + "="@, e) && e.owner == module && e.visibility == visi
            && (*e.implementation matches MethodImpl::AttrWriter { ivar, loc } && ivar@ == "@"@ + name.1@ && loc == name.0)),
        MethodDef::SetVisi { module, visi, name, .. } => r is None && match visi_seen(g0, module, name.1@) {
            Some(me) => (g.method_of(module, name.1@) matches Some(e) && method_set(g0, g, module, name.1@, e)
                && e.owner == module && e.visibility == visi && e.implementation == me.implementation),
            None => methods_kept(g0, g),
        },
        MethodDef::ModuleFunc { module, name, .. } => r is None && match visi_seen(g0, module, name.1@) {
            Some(me) => (class_of(g@[module as int]) matches Some(t) && t < g@.len()
                && (g@[t as int] matches RubyObject::Metaclass { of, .. } && of == module)
                && method_set(g0, g, t, name.1@, me)),
            None => methods_kept(g0, g),
        },
    }
}

/// `g` declares the instance variables of `g0`.
pub open spec fn ivars_kept(g0: ObjectGraph, g: ObjectGraph) -> bool {
    forall|o: usize, n: Seq<char>| #[trigger] g.ivar_of(o, n) == g0.ivar_of(o, n)
}

/// A copy of an optional node.
fn clone_opt_node(o: &Option<Rc<Node>>) -> (r: Option<Rc<Node>>)
    ensures
        r == *o,
{
    match o {
        Some(n) => Some(Rc::clone(n)),
        None => None,
    }
}

/// Enters a method definition.
fn define_def(graph: &mut ObjectGraph, reports: &mut Vec<Report>, module: usize, visi: MethodVisibility, name: Id,
    node: Rc<Node>, scope: Rc<Scope>) -> (r: Option<Rc<MethodEntry>>)
    requires
        old(graph).wf(),
        method_ok(*old(graph), MethodDef::Def { module, visi, name, node, scope }),
    ensures
        grows(*old(graph), *final(graph)),
        ivars_kept(*old(graph), *final(graph)),
        defines(*old(graph), *final(graph), MethodDef::Def { module, visi, name, node, scope }, r),
        reports_view(final(reports)@) == reports_view(old(reports)@)
            + method_reps(*old(graph), MethodDef::Def { module, visi, name, node, scope }),
{
    let ghost g0 = *graph;
    let ghost r0 = reports_view(reports@);
    let Id(name_loc, name_s) = name;
    let (proto, body) = match &*node {
        Node::Def(_, _, p, b) => (clone_opt_node(p), clone_opt_node(b)),
        Node::Defs(_, _, _, p, b) => (clone_opt_node(p), clone_opt_node(b)),
        _ => (None, None),
    };
    let type_scope = TypeScope::new(graph, Rc::clone(&scope), module);
    proof {
        lemma_extended_constant(TypeScope::Constant { scope }, type_params(g0@[module as int]));
        assert(constant_scope_of(TypeScope::Constant { scope }) == *scope);
    }
    let (anno, proto) = match &proto {
        Some(p) => Prototype::resolve(&name_loc, Some(&**p), graph, type_scope, reports),
        None => Prototype::resolve(&name_loc, None, graph, type_scope, reports),
    };
    let ghost g1 = *graph;
    let ghost r1 = reports_view(reports@);
    if anno == AnnotationStatus::Partial {
        push_report1(reports, "Partial type signatures are not permitted in method definitions",
            "all arguments and return value must be annotated", &proto.loc);
    }
    let ghost pr = proto;
    let impl_ = if anno == AnnotationStatus::Typed {
        MethodImpl::TypedRuby { name: name_s.clone(), body, proto, scope }
    } else {
        MethodImpl::Ruby { name: name_s.clone(), proto }
    };
    let entry = Rc::new(MethodEntry { owner: module, visibility: visi, implementation: Rc::new(impl_) });
    proof {
        assert(crate::object::same_but_class(g1@[module as int], g0@[module as int]));
        ObjectGraph::lemma_methods_same(g0, g1);
        ObjectGraph::lemma_ivars_same(g0, g1);
    }
    graph.define_method(module, name_s, Rc::clone(&entry));
    proof {
        ObjectGraph::lemma_grows_same_objects(g1, *graph);
        ObjectGraph::lemma_grows_trans(g0, g1, *graph);
        ObjectGraph::lemma_ivars_same(g1, *graph);
        assert(reports_view(reports@) =~= r0 + method_reps(g0, MethodDef::Def { module, visi, name, node, scope }));
    }
    Some(entry)
}

/// Enters an alias of the method `from` of `module` under the name `to`.
fn define_alias(graph: &mut ObjectGraph, reports: &mut Vec<Report>, module: usize, to: Id, from: Id, emit_error: bool)
    requires
        old(graph).wf(),
        module_ok(*old(graph), module),
    ensures
        grows(*old(graph), *final(graph)),
        ivars_kept(*old(graph), *final(graph)),
        defines(*old(graph), *final(graph), MethodDef::Alias { module, to, from, emit_error }, None),
        reports_view(final(reports)@) == reports_view(old(reports)@)
            + method_reps(*old(graph), MethodDef::Alias { module, to, from, emit_error }),
{
    let ghost g0 = *graph;
    let ghost r0 = reports_view(reports@);
    match graph.lookup_method(module, from.1.as_str()) {
        Some(m) => {
            graph.define_method(module, to.1, m);
        },
        None => {
            if emit_error {
                let mut message = graph.name_of(module);
                push_str(&mut message, "#");
                push_str(&mut message, from.1.as_str());
                push_report1(reports, "Could not resolve source method in alias", message.as_str(), &from.0);
            }
            let entry = Rc::new(MethodEntry {
                owner: module,
                visibility: MethodVisibility::Public,
                implementation: Rc::new(MethodImpl::Untyped),
            });
            graph.define_method(module, to.1, entry);
        },
    }
    proof {
        ObjectGraph::lemma_grows_same_objects(g0, *graph);
        ObjectGraph::lemma_ivars_same(g0, *graph);
        assert(reports_view(reports@) =~= r0 + method_reps(g0, MethodDef::Alias { module, to, from, emit_error }));
    }
}

/// Enters the reader of the attribute `name`.
fn define_attr_reader(graph: &mut ObjectGraph, module: usize, visi: MethodVisibility, name: Id)
    requires
        old(graph).wf(),
        module_ok(*old(graph), module),
    ensures
        grows(*old(graph), *final(graph)),
        ivars_kept(*old(graph), *final(graph)),
        defines(*old(graph), *final(graph), MethodDef::AttrReader { module, visi, name }, None),
{
    let ghost g0 = *graph;
    let Id(loc, n) = name;
    let mut ivar = "@".to_owned();
    push_str(&mut ivar, n.as_str());
    let entry = Rc::new(MethodEntry {
        owner: module,
        visibility: visi,
        implementation: Rc::new(MethodImpl::AttrReader { ivar, loc }),
    });
    graph.define_method(module, n, entry);
    proof {
        ObjectGraph::lemma_grows_same_objects(g0, *graph);
        ObjectGraph::lemma_ivars_same(g0, *graph);
    }
}

/// Enters the writer of the attribute `name`.
fn define_attr_writer(graph: &mut ObjectGraph, module: usize, visi: MethodVisibility, name: Id)
    requires
        old(graph).wf(),
        module_ok(*old(graph), module),
    ensures
        grows(*old(graph), *final(graph)),
        ivars_kept(*old(graph), *final(graph)),
        defines(*old(graph), *final(graph), MethodDef::AttrWriter { module, visi, name }, None),
{
    let ghost g0 = *graph;
    let Id(loc, n) = name;
    let mut ivar = "@".to_owned();
    push_str(&mut ivar, n.as_str());
    let mut key = n.clone();
    push_str(&mut key, "=");
    let entry = Rc::new(MethodEntry {
        owner: module,
        visibility: visi,
        implementation: Rc::new(MethodImpl::AttrWriter { ivar, loc }),
    });
    graph.define_method(module, key, entry);
    proof {
        ObjectGraph::lemma_grows_same_objects(g0, *graph);
        ObjectGraph::lemma_ivars_same(g0, *graph);
    }
}

/// Gives the method `name` that `module` refers to the visibility `visi`
/// in `module`.
fn define_set_visi(graph: &mut ObjectGraph, reports: &mut Vec<Report>, module: usize, visi: MethodVisibility, name: Id,
    emit_error: bool)
    requires
        old(graph).wf(),
        module_ok(*old(graph), module),
    ensures
        grows(*old(graph), *final(graph)),
        ivars_kept(*old(graph), *final(graph)),
        defines(*old(graph), *final(graph), MethodDef::SetVisi { module, visi, name, emit_error }, None),
        reports_view(final(reports)@) == reports_view(old(reports)@)
            + method_reps(*old(graph), MethodDef::SetVisi { module, visi, name, emit_error }),
{
    let ghost g0 = *graph;
    let ghost r0 = reports_view(reports@);
    let Id(loc, n) = name;
    match lookup_visi(module, n.as_str(), graph) {
        Some(method) => {
            let entry = Rc::new(MethodEntry {
                owner: module,
                visibility: visi,
                implementation: Rc::clone(&method.implementation),
            });
            graph.define_method(module, n, entry);
            proof {
                ObjectGraph::lemma_grows_same_objects(g0, *graph);
                ObjectGraph::lemma_ivars_same(g0, *graph);
            }
        },
        None => {
            if emit_error {
                push_report1(reports, "Could not resolve method name in visibility declaration", "here", &loc);
            }
            proof {
                g0.lemma_grows_mc_refl();
                ObjectGraph::lemma_ivars_same(g0, *graph);
                ObjectGraph::lemma_methods_same(g0, *graph);
            }
        },
    }
    proof {
        assert(reports_view(reports@) =~= r0 + method_reps(g0, MethodDef::SetVisi { module, visi, name, emit_error }));
    }
}

/// Makes the method `name` that `module` refers to a method of the
/// metaclass of `module` too.
fn define_module_func(graph: &mut ObjectGraph, reports: &mut Vec<Report>, module: usize, name: Id, emit_error: bool)
    requires
        old(graph).wf(),
        module_ok(*old(graph), module),
        2 * old(graph)@.len() + 2 < usize::MAX,
    ensures
        grows(*old(graph), *final(graph)),
        ivars_kept(*old(graph), *final(graph)),
        defines(*old(graph), *final(graph), MethodDef::ModuleFunc { module, name, emit_error }, None),
        reports_view(final(reports)@) == reports_view(old(reports)@)
            + method_reps(*old(graph), MethodDef::ModuleFunc { module, name, emit_error }),
{
    let ghost g0 = *graph;
    let ghost r0 = reports_view(reports@);
    let Id(loc, n) = name;
    match lookup_visi(module, n.as_str(), graph) {
        Some(method) => {
            let target = graph.metaclass(module);
            let ghost g1 = *graph;
            proof {
                ObjectGraph::lemma_methods_same(g0, g1);
                ObjectGraph::lemma_ivars_same(g0, g1);
            }
            graph.define_method(target, n, method);
            proof {
                ObjectGraph::lemma_objects_same(g1, *graph);
                ObjectGraph::lemma_grows_same_objects(g1, *graph);
                ObjectGraph::lemma_grows_trans(g0, g1, *graph);
                ObjectGraph::lemma_ivars_same(g1, *graph);
            }
        },
        None => {
            if emit_error {
                push_report1(reports, "Could not resolve method name in module_function", "here", &loc);
            }
            proof {
                g0.lemma_grows_mc_refl();
                ObjectGraph::lemma_ivars_same(g0, *graph);
                ObjectGraph::lemma_methods_same(g0, *graph);
            }
        },
    }
    proof {
        assert(reports_view(reports@) =~= r0 + method_reps(g0, MethodDef::ModuleFunc { module, name, emit_error }));
    }
}

/// Enters `method` into the graph, as `defines` says, reporting what
/// `method_reps` says; a method definition gives back the method it
/// defines.
pub fn define_method(graph: &mut ObjectGraph, reports: &mut Vec<Report>, method: MethodDef)
    -> (r: Option<Rc<MethodEntry>>)
    requires
        old(graph).wf(),
        method_ok(*old(graph), method),
    ensures
        grows(*old(graph), *final(graph)),
        ivars_kept(*old(graph), *final(graph)),
        defines(*old(graph), *final(graph), method, r),
        reports_view(final(reports)@) == reports_view(old(reports)@) + method_reps(*old(graph), method),
{
    match method {
        MethodDef::Def { module, visi, name, node, scope } => define_def(graph, reports, module, visi, name, node, scope),
        MethodDef::Alias { module, to, from, emit_error } => {
            define_alias(graph, reports, module, to, from, emit_error);
            None
        },
        MethodDef::AttrReader { module, visi, name } => {
            define_attr_reader(graph, module, visi, name);
            proof {
                assert(reports_view(reports@) =~= reports_view(reports@) + method_reps(*old(graph), method));
            }
            None
        },
        MethodDef::AttrWriter { module, visi, name } => {
            define_attr_writer(graph, module, visi, name);
            proof {
                assert(reports_view(reports@) =~= reports_view(reports@) + method_reps(*old(graph), method));
            }
            None
        },
        MethodDef::SetVisi { module, visi, name, emit_error } => {
            define_set_visi(graph, reports, module, visi, name, emit_error);
            None
        },
        MethodDef::ModuleFunc { module, name, emit_error } => {
            define_module_func(graph, reports, module, name, emit_error);
            None
        },
    }
}

} // verus!
