//! Type annotations as written in the source, resolved against the object
//! graph: the types, the argument lists of prototypes, and the scopes in
//! which type names are looked up.

use std::rc::Rc;
use vstd::prelude::*;
use crate::ast::{Id, Loc, Node};
use crate::object::{ObjectGraph, Scope};
use crate::text::str_eq;

verus! {

pub type TypeNodeRef = Rc<TypeNode>;

/// Where type names are looked up: a constant scope, extended by type
/// parameters, innermost last.
pub enum TypeScope {
    Constant {
        scope: Rc<Scope>,
    },
    Param {
        parent: Rc<TypeScope>,
        name: String,
    },
}

/// Whether one of `params` is called `name`.
pub open spec fn names_param(params: Seq<Id>, name: Seq<char>) -> bool {
    exists|i: int| 0 <= i < params.len() && (#[trigger] params[i]).1@ == name
}

/// Whether `name` is a type parameter in `ts`: one that the scope adds, or
/// one of the type parameters of the module of its constant scope.
pub open spec fn scope_has_param(g: ObjectGraph, ts: TypeScope, name: Seq<char>) -> bool
    decreases ts,
{
    match ts {
        TypeScope::Constant { scope } => names_param(crate::object::type_params(g@[scope.module as int]), name),
        TypeScope::Param { parent, name: n } => n@ == name || scope_has_param(g, *parent, name),
    }
}

/// The constant scope at the root of `ts`.
pub open spec fn scope_constant(ts: TypeScope) -> Rc<Scope>
    decreases ts,
{
    match ts {
        TypeScope::Constant { scope } => scope,
        TypeScope::Param { parent, .. } => scope_constant(*parent),
    }
}

/// `ts` extended by the names of `params` in turn, so that the last one
/// ends up on top.
pub open spec fn scope_extended(ts: TypeScope, params: Seq<Id>) -> TypeScope
    decreases params.len(),
{
    if params.len() == 0 {
        ts
    } else {
        TypeScope::Param { parent: Rc::new(scope_extended(ts, params.drop_last())), name: params.last().1 }
    }
}

/// A scope built by extending a constant scope with `params` has as type
/// parameters the names added and the type parameters of the module of
/// the constant scope, and keeps that constant scope at its root.
pub proof fn lemma_extended_scope_params(g: ObjectGraph, scope: Rc<Scope>, params: Seq<Id>, name: Seq<char>)
    ensures
        scope_has_param(g, scope_extended(TypeScope::Constant { scope }, params), name)
            == (names_param(params, name) || names_param(crate::object::type_params(g@[scope.module as int]), name)),
        scope_constant(scope_extended(TypeScope::Constant { scope }, params)) == scope,
    decreases params.len(),
{
    if params.len() > 0 {
        let init = params.drop_last();
        lemma_extended_scope_params(g, scope, init, name);
        if names_param(init, name) {
            let i = choose|i: int| 0 <= i < init.len() && (#[trigger] init[i]).1@ == name;
            assert(params[i] == init[i]);
        }
        if params.last().1@ == name {
            assert(params[params.len() - 1].1@ == name);
        }
        if names_param(params, name) && params.last().1@ != name {
            let i = choose|i: int| 0 <= i < params.len() && (#[trigger] params[i]).1@ == name;
            assert(init[i] == params[i]);
        }
    }
}

/// Extending any type scope by `params` adds exactly the names of
/// `params` to its type parameters and keeps its constant scope.
pub proof fn lemma_extended_params(g: ObjectGraph, ts: TypeScope, params: Seq<Id>, name: Seq<char>)
    ensures
        scope_has_param(g, scope_extended(ts, params), name) == (names_param(params, name) || scope_has_param(g, ts, name)),
        scope_constant(scope_extended(ts, params)) == scope_constant(ts),
    decreases params.len(),
{
    if params.len() > 0 {
        let init = params.drop_last();
        lemma_extended_params(g, ts, init, name);
        if names_param(init, name) {
            let i = choose|i: int| 0 <= i < init.len() && (#[trigger] init[i]).1@ == name;
            assert(params[i] == init[i]);
        }
        if params.last().1@ == name {
            assert(params[params.len() - 1].1@ == name);
        }
        if names_param(params, name) && params.last().1@ != name {
            let i = choose|i: int| 0 <= i < params.len() && (#[trigger] params[i]).1@ == name;
            assert(init[i] == params[i]);
        }
    }
}

/// The type scope of the body of `module` inside `scope`, extended in
/// turn by the names of `added`: a name is a type parameter there exactly
/// when it is one of `added`, a type parameter of `module`, or one of the
/// module of `scope`; and its constant scope is `scope`.
pub proof fn lemma_body_scope_params(g: ObjectGraph, scope: Rc<Scope>, module: usize, added: Seq<Id>, name: Seq<char>)
    ensures
        scope_has_param(g, scope_extended(scope_extended(TypeScope::Constant { scope },
            crate::object::type_params(g@[module as int])), added), name)
            == (names_param(added, name) || names_param(crate::object::type_params(g@[module as int]), name)
                || names_param(crate::object::type_params(g@[scope.module as int]), name)),
        scope_constant(scope_extended(scope_extended(TypeScope::Constant { scope },
            crate::object::type_params(g@[module as int])), added)) == scope,
{
    let base = scope_extended(TypeScope::Constant { scope }, crate::object::type_params(g@[module as int]));
    lemma_extended_params(g, base, added, name);
    lemma_extended_params(g, TypeScope::Constant { scope }, crate::object::type_params(g@[module as int]), name);
}

impl TypeScope {
    /// The type scope of the body of `module` inside `scope`: the constant
    /// scope, extended by each type parameter of the module.
    pub fn new(graph: &ObjectGraph, scope: Rc<Scope>, module: usize) -> (r: Rc<TypeScope>)
        requires
            graph.wf(),
            module < graph@.len(),
            !(graph@[module as int] is IClass),
        ensures
            *r == scope_extended(TypeScope::Constant { scope }, crate::object::type_params(graph@[module as int])),
    {
        let params = graph.object(module).type_parameters();
        let mut r = Rc::new(TypeScope::Constant { scope });
        let mut i: usize = 0;
        while i < params.len()
            invariant
                i <= params@.len(),
                *r == scope_extended(TypeScope::Constant { scope }, params@.take(i as int)),
            decreases params@.len() - i,
        {
            assert(params@.take(i + 1).drop_last() =~= params@.take(i as int));
            r = Self::extend(r, params[i].1.clone());
            i = i + 1;
        }
        assert(params@.take(params@.len() as int) =~= params@);
        r
    }

    /// `parent` with the type parameter `name` added.
    pub fn extend(parent: Rc<TypeScope>, name: String) -> (r: Rc<TypeScope>)
        ensures
            *r == (TypeScope::Param { parent, name }),
    {
        Rc::new(TypeScope::Param { parent, name })
    }

    /// Whether `name` is a type parameter in this scope.
    pub fn is_param(&self, graph: &ObjectGraph, name: &str) -> (r: bool)
        requires
            graph.wf(),
            scope_constant(*self).module < graph@.len(),
            !(graph@[scope_constant(*self).module as int] is IClass),
        ensures
            r == scope_has_param(*graph, *self, name@),
        decreases *self,
    {
        match self {
            TypeScope::Constant { scope } => {
                let params = graph.object(scope.module).type_parameters();
                let mut i: usize = 0;
                while i < params.len()
                    invariant
                        i <= params@.len(),
                        params@ == crate::object::type_params(graph@[scope.module as int]),
                        *self == (TypeScope::Constant { scope: *scope }),
                        forall|j: int| 0 <= j < i ==> (#[trigger] params@[j]).1@ != name@,
                    decreases params@.len() - i,
                {
                    if str_eq(params[i].1.as_str(), name) {
                        assert(params@[i as int].1@ == name@);
                        return true;
                    }
                    i = i + 1;
                }
                false
            },
            TypeScope::Param { parent, name: param_name } => {
                if str_eq(param_name.as_str(), name) {
                    true
                } else {
                    parent.is_param(graph, name)
                }
            },
        }
    }

    /// The constant scope at the root of this scope.
    pub fn constant_scope(&self) -> (r: Rc<Scope>)
        ensures
            r == scope_constant(*self),
        decreases *self,
    {
        match self {
            TypeScope::Constant { scope } => Rc::clone(scope),
            TypeScope::Param { parent, .. } => parent.constant_scope(),
        }
    }
}

/// A type as written in an annotation, resolved.
pub enum TypeNode {
    Instance {
        loc: Loc,
        class: usize,
        type_parameters: Vec<TypeNodeRef>,
    },
    Tuple {
        loc: Loc,
        lead: Vec<TypeNodeRef>,
        splat: Option<TypeNodeRef>,
        post: Vec<TypeNodeRef>,
    },
    Union {
        loc: Loc,
        types: Vec<TypeNodeRef>,
    },
    Any {
        loc: Loc,
    },
    TypeParameter {
        loc: Loc,
        name: String,
    },
    Proc {
        loc: Loc,
        proto: Prototype,
    },
    SpecialSelf {
        loc: Loc,
    },
    SpecialInstance {
        loc: Loc,
    },
    SpecialClass {
        loc: Loc,
    },
    Error {
        loc: Loc,
    },
}

/// The default value of an optional argument and the scope it is
/// evaluated in.
pub struct ArgExpr {
    pub expr: Rc<Node>,
    pub scope: Rc<Scope>,
}

/// What an argument binds: a local variable, or a destructured list.
pub enum ArgLhs {
    Lvar { name: Id },
    Mlhs { loc: Loc, items: Vec<ArgLhs> },
}

/// One argument of a prototype.
pub enum ArgNode {
    Required {
        loc: Loc,
        ty: Option<TypeNodeRef>,
        lhs: ArgLhs,
    },
    Procarg0 {
        loc: Loc,
        arg: Box<ArgNode>,
    },
    Optional {
        loc: Loc,
        ty: Option<TypeNodeRef>,
        name: Id,
        default: ArgExpr,
    },
    Rest {
        loc: Loc,
        ty: Option<TypeNodeRef>,
        name: Option<Id>,
    },
    Kwarg {
        loc: Loc,
        ty: Option<TypeNodeRef>,
        name: Id,
    },
    Kwoptarg {
        loc: Loc,
        ty: Option<TypeNodeRef>,
        name: Id,
        default: ArgExpr,
    },
    Kwrest {
        loc: Loc,
        ty: Option<TypeNodeRef>,
        name: Option<Id>,
    },
    Block {
        loc: Loc,
        ty: Option<TypeNodeRef>,
        name: Option<Id>,
    },
}

/// How much of a signature is annotated.
#[derive(Clone, Copy, PartialEq, Eq, Structural, Debug)]
pub enum AnnotationStatus {
    Empty,
    Typed,
    Partial,
    Untyped,
}

/// The status of a signature made of parts with statuses `a` and then `b`:
/// all typed is typed, all untyped is untyped, nothing yet takes the
/// other's, and anything else is partial.
pub open spec fn status_append(a: AnnotationStatus, b: AnnotationStatus) -> AnnotationStatus {
    match (a, b) {
        (AnnotationStatus::Typed, AnnotationStatus::Typed) => AnnotationStatus::Typed,
        (AnnotationStatus::Untyped, AnnotationStatus::Untyped) => AnnotationStatus::Untyped,
        (AnnotationStatus::Empty, _) => b,
        _ => AnnotationStatus::Partial,
    }
}

/// The status of something that is one of two alternatives with statuses
/// `a` and `b`: nothing takes the other's, partial wins, then typed.
pub open spec fn status_or(a: AnnotationStatus, b: AnnotationStatus) -> AnnotationStatus {
    match (a, b) {
        (AnnotationStatus::Empty, _) => b,
        (_, AnnotationStatus::Empty) => a,
        (AnnotationStatus::Partial, _) => AnnotationStatus::Partial,
        (_, AnnotationStatus::Partial) => AnnotationStatus::Partial,
        (AnnotationStatus::Typed, _) => AnnotationStatus::Typed,
        (AnnotationStatus::Untyped, _) => b,
    }
}

impl AnnotationStatus {
    /// The status of nothing yet.
    pub fn empty() -> (r: AnnotationStatus)
        ensures
            r == AnnotationStatus::Empty,
    {
        AnnotationStatus::Empty
    }

    /// Appends `other` to this status in place.
    pub fn append_into(&mut self, other: AnnotationStatus)
        ensures
            *final(self) == status_append(*old(self), other),
    {
        *self = self.append(other);
    }

    /// The status of one of two alternatives.
    pub fn or(self, other: AnnotationStatus) -> (r: AnnotationStatus)
        ensures
            r == status_or(self, other),
    {
        match (self, other) {
            (AnnotationStatus::Empty, _) => other,
            (_, AnnotationStatus::Empty) => self,
            (AnnotationStatus::Partial, _) => AnnotationStatus::Partial,
            (_, AnnotationStatus::Partial) => AnnotationStatus::Partial,
            (AnnotationStatus::Typed, _) => AnnotationStatus::Typed,
            (AnnotationStatus::Untyped, _) => other,
        }
    }

    pub fn append(self, other: AnnotationStatus) -> (r: AnnotationStatus)
        ensures
            r == status_append(self, other),
    {
        match (self, other) {
            (AnnotationStatus::Typed, AnnotationStatus::Typed) => AnnotationStatus::Typed,
            (AnnotationStatus::Untyped, AnnotationStatus::Untyped) => AnnotationStatus::Untyped,
            (AnnotationStatus::Empty, _) => other,
            _ => AnnotationStatus::Partial,
        }
    }
}

/// Appending to `Empty` gives what is appended, and once a signature is
/// partial, appending anything keeps it partial, in front or behind.
pub proof fn lemma_status_append_empty_partial(a: AnnotationStatus)
    ensures
        status_append(AnnotationStatus::Empty, a) == a,
        status_append(AnnotationStatus::Partial, a) == AnnotationStatus::Partial,
        status_append(a, AnnotationStatus::Partial) == AnnotationStatus::Partial,
{
}

/// Choosing between alternatives does not depend on their order, `Empty`
/// is neutral and `Partial` absorbs.
pub proof fn lemma_status_or_laws(a: AnnotationStatus, b: AnnotationStatus, c: AnnotationStatus)
    ensures
        status_or(a, b) == status_or(b, a),
        status_or(status_or(a, b), c) == status_or(a, status_or(b, c)),
        status_or(AnnotationStatus::Empty, a) == a,
        status_or(a, AnnotationStatus::Empty) == a,
        status_or(AnnotationStatus::Partial, a) == AnnotationStatus::Partial,
        status_or(a, a) == a,
{
}

/// A method signature: its type variables and their constraints, its
/// arguments and its return type.
pub struct Prototype {
    pub loc: Loc,
    pub type_vars: Vec<Id>,
    pub type_constraints: Vec<TypeConstraint>,
    pub args: Vec<ArgNode>,
    pub retn: Option<TypeNodeRef>,
}

impl Prototype {
    /// The prototype of a method without a signature: untyped, at `proto_loc`.
    pub fn untyped(proto_loc: &Loc) -> (r: (AnnotationStatus, Prototype))
        ensures
            r.0 == AnnotationStatus::Untyped,
            r.1.loc == *proto_loc,
            r.1.type_vars@.len() == 0,
            r.1.type_constraints@.len() == 0,
            r.1.args@.len() == 0,
            r.1.retn is None,
    {
        let proto = Prototype {
            loc: proto_loc.clone(),
            type_vars: Vec::new(),
            type_constraints: Vec::new(),
            args: Vec::new(),
            retn: None,
        };
        (AnnotationStatus::Untyped, proto)
    }
}

/// A constraint between two types in a signature.
pub enum TypeConstraint {
    Compatible { loc: Loc, sub: TypeNodeRef, super_: TypeNodeRef },
}

/// The location of a type.
pub open spec fn type_loc(t: TypeNode) -> Loc {
    match t {
        TypeNode::Instance { loc, .. } => loc,
        TypeNode::Tuple { loc, .. } => loc,
        TypeNode::Union { loc, .. } => loc,
        TypeNode::Any { loc } => loc,
        TypeNode::TypeParameter { loc, .. } => loc,
        TypeNode::Proc { loc, .. } => loc,
        TypeNode::SpecialSelf { loc } => loc,
        TypeNode::SpecialInstance { loc } => loc,
        TypeNode::SpecialClass { loc } => loc,
        TypeNode::Error { loc } => loc,
    }
}

impl TypeNode {
    pub fn loc(&self) -> (r: &Loc)
        ensures
            *r == type_loc(*self),
    {
        match self {
            TypeNode::Instance { loc, .. } => loc,
            TypeNode::Tuple { loc, .. } => loc,
            TypeNode::Union { loc, .. } => loc,
            TypeNode::Any { loc } => loc,
            TypeNode::TypeParameter { loc, .. } => loc,
            TypeNode::Proc { loc, .. } => loc,
            TypeNode::SpecialSelf { loc } => loc,
            TypeNode::SpecialInstance { loc } => loc,
            TypeNode::SpecialClass { loc } => loc,
            TypeNode::Error { loc } => loc,
        }
    }
}

} // verus!
