//! The types the checker infers: an arena of types addressed by index, the
//! type variables bound so far, and the argument lists of method prototypes.

use std::rc::Rc;
use vstd::prelude::*;
use crate::ast::{Id, Loc, Node};
use crate::object::ObjectGraph;

verus! {

/// The number of a type variable.
pub type TypeVarId = usize;

/// A type, named by its place in the arena of a `TypeEnv`.
#[derive(Clone, Copy, PartialEq, Eq, Debug, Structural)]
pub struct TypeRef(pub usize);

/// A type.
pub enum Type {
    Instance { loc: Loc, class: usize, type_parameters: Vec<TypeRef> },
    /// An array of known shape; it can degrade to a plain array instance.
    Tuple { loc: Loc, lead: Vec<TypeRef>, splat: Option<TypeRef>, post: Vec<TypeRef>, id: TypeVarId },
    Union { loc: Loc, types: Vec<TypeRef> },
    Any { loc: Loc },
    TypeParameter { loc: Loc, name: String },
    /// A hash of known keywords; it can degrade to a plain hash instance.
    KeywordHash { loc: Loc, keywords: Vec<(String, TypeRef)>, splat: Option<TypeRef>, id: TypeVarId },
    Proc { loc: Loc, proto: Rc<Prototype> },
    Var { loc: Loc, id: TypeVarId },
    LocalVariable { loc: Loc, name: String, id: TypeVarId },
}

/// Where a type was written or inferred.
pub open spec fn type_loc(t: Type) -> Loc {
    match t {
        Type::Instance { loc, .. } => loc,
        Type::Tuple { loc, .. } => loc,
        Type::Union { loc, .. } => loc,
        Type::Any { loc } => loc,
        Type::TypeParameter { loc, .. } => loc,
        Type::KeywordHash { loc, .. } => loc,
        Type::Proc { loc, .. } => loc,
        Type::Var { loc, .. } => loc,
        Type::LocalVariable { loc, .. } => loc,
    }
}

/// The variable through which a type may stand for another one, if it has one.
pub open spec fn type_var(t: Type) -> Option<TypeVarId> {
    match t {
        Type::Var { id, .. } => Some(id),
        Type::LocalVariable { id, .. } => Some(id),
        Type::KeywordHash { id, .. } => Some(id),
        Type::Tuple { id, .. } => Some(id),
        _ => None,
    }
}

impl Type {
    /// Where the type was written or inferred.
    pub fn loc(&self) -> (r: &Loc)
        ensures
            *r == type_loc(*self),
    {
        match self {
            Type::Instance { loc, .. } => loc,
            Type::Tuple { loc, .. } => loc,
            Type::Union { loc, .. } => loc,
            Type::Any { loc } => loc,
            Type::TypeParameter { loc, .. } => loc,
            Type::KeywordHash { loc, .. } => loc,
            Type::Proc { loc, .. } => loc,
            Type::Var { loc, .. } => loc,
            Type::LocalVariable { loc, .. } => loc,
        }
    }
}

/// A constraint between two types that a prototype states.
pub enum TypeConstraint {
    Unify { loc: Loc, a: TypeRef, b: TypeRef },
    Compatible { loc: Loc, sub: TypeRef, super_: TypeRef },
}

/// Why two types could not be made to agree.
pub enum UnificationError {
    Incompatible(TypeRef, TypeRef),
    UnionAmbiguity(TypeRef, TypeRef),
}

/// The outcome of turning a `**` argument into a hash type.
pub enum KwsplatResult {
    Error(TypeRef),
    Absent,
    Okay(TypeRef),
}

/// The signature of a method or block.
pub struct Prototype {
    pub loc: Loc,
    pub constraints: Vec<TypeConstraint>,
    pub args: Vec<Arg>,
    pub retn: TypeRef,
}

impl Prototype {
    /// Where the prototype is written.
    pub fn loc(&self) -> (r: &Loc)
        ensures
            *r == self.loc,
    {
        &self.loc
    }
}

/// One argument of a prototype.
pub enum Arg {
    Required { loc: Loc, ty: TypeRef },
    Procarg0 { loc: Loc, arg: Box<Arg> },
    Optional { loc: Loc, ty: TypeRef, expr: Rc<Node> },
    Rest { loc: Loc, ty: TypeRef },
    Kwarg { loc: Loc, name: String, ty: TypeRef },
    Kwoptarg { loc: Loc, name: String, ty: TypeRef, expr: Rc<Node> },
    Kwrest { loc: Loc, ty: TypeRef },
    Block { loc: Loc, ty: TypeRef },
}

/// Where an argument is written.
pub open spec fn arg_loc(a: Arg) -> Loc {
    match a {
        Arg::Required { loc, .. } => loc,
        Arg::Procarg0 { loc, .. } => loc,
        Arg::Optional { loc, .. } => loc,
        Arg::Rest { loc, .. } => loc,
        Arg::Kwarg { loc, .. } => loc,
        Arg::Kwoptarg { loc, .. } => loc,
        Arg::Kwrest { loc, .. } => loc,
        Arg::Block { loc, .. } => loc,
    }
}

/// The argument itself, seen through a single-argument block wrapper.
pub open spec fn unwrap_procarg0(a: Arg) -> Arg {
    match a {
        Arg::Procarg0 { arg, .. } => *arg,
        _ => a,
    }
}

impl Arg {
    /// Where the argument is written.
    pub fn loc(&self) -> (r: &Loc)
        ensures
            *r == arg_loc(*self),
    {
        match self {
            Arg::Required { loc, .. } => loc,
            Arg::Procarg0 { loc, .. } => loc,
            Arg::Optional { loc, .. } => loc,
            Arg::Rest { loc, .. } => loc,
            Arg::Kwarg { loc, .. } => loc,
            Arg::Kwoptarg { loc, .. } => loc,
            Arg::Kwrest { loc, .. } => loc,
            Arg::Block { loc, .. } => loc,
        }
    }

    /// The argument itself, seen through a single-argument block wrapper.
    pub fn unwrap_procarg0(&self) -> (r: &Arg)
        ensures
            *r == unwrap_procarg0(*self),
    {
        match self {
            Arg::Procarg0 { arg, .. } => &**arg,
            _ => self,
        }
    }
}

/// An argument passed in a call: a value, or a `*` splat of many.
#[derive(Clone, Copy, PartialEq, Eq, Debug, Structural)]
pub enum SplatArg {
    Value(TypeRef),
    Splat(TypeRef),
}

/// The type a passed argument has.
pub open spec fn splat_ty(a: SplatArg) -> TypeRef {
    match a {
        SplatArg::Value(t) => t,
        SplatArg::Splat(t) => t,
    }
}

impl SplatArg {
    /// Where the passed argument is.
    pub fn loc<'e>(&self, env: &'e TypeEnv) -> (r: &'e Loc)
        requires
            env.valid(splat_ty(*self)),
        ensures
            *r == type_loc(env.at(splat_ty(*self))),
    {
        match self {
            SplatArg::Value(t) => env.get(*t).loc(),
            SplatArg::Splat(t) => env.get(*t).loc(),
        }
    }
}

impl TypeRef {
    /// The type this names.
    pub fn deref<'e>(&self, env: &'e TypeEnv) -> (r: &'e Type)
        requires
            env.valid(*self),
        ensures
            *r == env.at(*self),
    {
        env.get(*self)
    }
}

/// Whether `class` is `Hash` or has it among its ancestors in `g`.
pub open spec fn hash_like(g: ObjectGraph, class: usize) -> bool {
    let anc = crate::object::ancestry(g@, class);
    exists|k: int| 0 <= k < anc.len()
        && crate::object::delegate_of(g@, #[trigger] anc[k]) == crate::object::class_named(g, "Hash"@)->0
}

/// The types of a checker, with the variables bound so far.
///
/// `instances[id]` is what variable `id` stands for, if it is bound; the
/// variable numbers handed out so far are those below `instances.len()`.
pub struct TypeEnv {
    pub types: Vec<Type>,
    pub instances: Vec<Option<TypeRef>>,
    pub hash_class: usize,
    pub nil_class: usize,
}

/// Every type that `t` is made of lies below `n` in the arena.
pub open spec fn refs_below(t: Type, n: nat) -> bool {
    match t {
        Type::Instance { type_parameters, .. } => forall|i: int|
            0 <= i < type_parameters@.len() ==> (#[trigger] type_parameters@[i]).0 < n,
        Type::Tuple { lead, splat, post, .. } => {
            &&& forall|i: int| 0 <= i < lead@.len() ==> (#[trigger] lead@[i]).0 < n
            &&& splat matches Some(s) ==> s.0 < n
            &&& forall|i: int| 0 <= i < post@.len() ==> (#[trigger] post@[i]).0 < n
        },
        Type::Union { types, .. } => forall|i: int| 0 <= i < types@.len() ==> (#[trigger] types@[i]).0 < n,
        Type::KeywordHash { keywords, splat, .. } => {
            &&& forall|i: int| 0 <= i < keywords@.len() ==> (#[trigger] keywords@[i]).1.0 < n
            &&& splat matches Some(s) ==> s.0 < n
        },
        _ => true,
    }
}

/// Every type that the prototype argument `a` names lies below `n`.
pub open spec fn arg_refs_below(a: Arg, n: nat) -> bool
    decreases a,
{
    match a {
        Arg::Required { ty, .. } => ty.0 < n,
        Arg::Procarg0 { arg, .. } => arg_refs_below(*arg, n),
        Arg::Optional { ty, .. } => ty.0 < n,
        Arg::Rest { ty, .. } => ty.0 < n,
        Arg::Kwarg { ty, .. } => ty.0 < n,
        Arg::Kwoptarg { ty, .. } => ty.0 < n,
        Arg::Kwrest { ty, .. } => ty.0 < n,
        Arg::Block { ty, .. } => ty.0 < n,
    }
}

impl TypeEnv {
    /// Every type of the arena names only variables handed out and types
    /// of the arena, and every bound variable stands for a type of the
    /// arena.
    pub open spec fn wf(&self) -> bool {
        &&& self.instances@.len() > 0
        &&& forall|i: int| 0 <= i < self.types@.len() ==> #[trigger] refs_below(self.types@[i], self.types@.len())
        &&& forall|i: int| 0 <= i < self.types@.len()
            ==> (#[trigger] type_var(self.types@[i]) matches Some(id) ==> id < self.instances@.len())
        &&& forall|id: int| 0 <= id < self.instances@.len()
            ==> (#[trigger] self.instances@[id] matches Some(t) ==> t.0 < self.types@.len())
    }

    /// `t` names a type of the arena.
    pub open spec fn valid(&self, t: TypeRef) -> bool {
        t.0 < self.types@.len()
    }

    /// The type `t` names.
    pub open spec fn at(&self, t: TypeRef) -> Type {
        self.types@[t.0 as int]
    }

    /// What `t` stands for after following bound variables at most `fuel`
    /// times.
    pub open spec fn prune_steps(&self, t: TypeRef, fuel: nat) -> TypeRef
        decreases fuel,
    {
        if fuel == 0 || !self.valid(t) {
            t
        } else {
            match type_var(self.at(t)) {
                Some(id) => if id < self.instances@.len() && self.instances@[id as int] is Some {
                    self.prune_steps(self.instances@[id as int]->0, (fuel - 1) as nat)
                } else {
                    t
                },
                None => t,
            }
        }
    }

    /// What `t` stands for: bound variables followed, at most once for each
    /// variable number handed out.
    pub open spec fn pruned(&self, t: TypeRef) -> TypeRef {
        self.prune_steps(t, self.instances@.len())
    }

    /// Following bound variables from a type of the arena ends at a type of
    /// the arena.
    pub proof fn lemma_prune_valid(&self, t: TypeRef, fuel: nat)
        requires
            self.wf(),
            self.valid(t),
        ensures
            self.valid(self.prune_steps(t, fuel)),
        decreases fuel,
    {
        if fuel > 0 {
            match type_var(self.at(t)) {
                Some(id) => if id < self.instances@.len() && self.instances@[id as int] is Some {
                    self.lemma_prune_valid(self.instances@[id as int]->0, (fuel - 1) as nat);
                },
                None => {},
            }
        }
    }

    /// An environment with no types and no variables.
    pub fn new(graph: &ObjectGraph) -> (r: TypeEnv)
        requires
            graph.wf(),
            crate::object::class_named(*graph, "Hash"@) is Some,
        ensures
            r.wf(),
            r.types@.len() == 0,
            r.instances@ == seq![Option::<TypeRef>::None],
            Some(r.hash_class) == crate::object::class_named(*graph, "Hash"@),
            r.nil_class == graph.nil_index(),
    {
        let mut instances: Vec<Option<TypeRef>> = Vec::new();
        instances.push(None);
        TypeEnv { types: Vec::new(), instances, hash_class: graph.hash_class(), nil_class: graph.nil_class() }
    }

    /// Hands out a new variable number.
    fn new_id(&mut self) -> (r: TypeVarId)
        requires
            old(self).wf(),
            old(self).instances@.len() < usize::MAX,
        ensures
            final(self).wf(),
            r == old(self).instances@.len(),
            final(self).instances@ == old(self).instances@.push(None),
            final(self).types@ == old(self).types@,
            final(self).hash_class == old(self).hash_class,
            final(self).nil_class == old(self).nil_class,
    {
        let id = self.instances.len();
        self.instances.push(None);
        id
    }

    /// Puts `ty` in the arena.
    pub fn alloc_type(&mut self, ty: Type) -> (r: TypeRef)
        requires
            old(self).wf(),
            type_var(ty) matches Some(id) ==> id < old(self).instances@.len(),
            refs_below(ty, old(self).types@.len()),
        ensures
            final(self).wf(),
            r.0 == old(self).types@.len(),
            final(self).types@ == old(self).types@.push(ty),
            final(self).instances@ == old(self).instances@,
            final(self).hash_class == old(self).hash_class,
            final(self).nil_class == old(self).nil_class,
    {
        let r = TypeRef(self.types.len());
        self.types.push(ty);
        proof {
            assert forall|i: int| 0 <= i < self.types@.len() implies
                (#[trigger] type_var(self.types@[i]) matches Some(id) ==> id < self.instances@.len()) by {
                if i < self.types@.len() - 1 {
                    assert(self.types@[i] == old(self).types@[i]);
                }
            }
            assert forall|i: int| 0 <= i < self.types@.len() implies
                #[trigger] refs_below(self.types@[i], self.types@.len()) by {
                if i < self.types@.len() - 1 {
                    assert(self.types@[i] == old(self).types@[i]);
                    assert(refs_below(old(self).types@[i], old(self).types@.len()));
                }
            }
        }
        r
    }

    /// A new unbound type variable.
    pub fn new_var(&mut self, loc: Loc) -> (r: TypeRef)
        requires
            old(self).wf(),
            old(self).instances@.len() < usize::MAX,
        ensures
            final(self).wf(),
            r.0 == old(self).types@.len(),
            final(self).types@ == old(self).types@.push(Type::Var { loc, id: old(self).instances@.len() as usize }),
            final(self).instances@ == old(self).instances@.push(None),
            final(self).hash_class == old(self).hash_class,
            final(self).nil_class == old(self).nil_class,
    {
        let id = self.new_id();
        self.alloc_type(Type::Var { loc, id })
    }

    /// The type that takes anything.
    pub fn any(&mut self, loc: Loc) -> (r: TypeRef)
        requires
            old(self).wf(),
        ensures
            final(self).wf(),
            r.0 == old(self).types@.len(),
            final(self).types@ == old(self).types@.push(Type::Any { loc }),
            final(self).instances@ == old(self).instances@,
            final(self).hash_class == old(self).hash_class,
            final(self).nil_class == old(self).nil_class,
    {
        self.alloc_type(Type::Any { loc })
    }

    /// An instance of `class` with the given type parameters.
    pub fn instance(&mut self, graph: &ObjectGraph, loc: Loc, class: usize, type_parameters: Vec<TypeRef>) -> (r: TypeRef)
        requires
            old(self).wf(),
            graph.wf(),
            class < graph@.len(),
            crate::object::type_params(graph@[class as int]).len() == type_parameters@.len(),
            forall|i: int| 0 <= i < type_parameters@.len() ==> old(self).valid(#[trigger] type_parameters@[i]),
        ensures
            final(self).wf(),
            r.0 == old(self).types@.len(),
            final(self).types@ == old(self).types@.push(Type::Instance { loc, class, type_parameters }),
            final(self).instances@ == old(self).instances@,
            final(self).hash_class == old(self).hash_class,
            final(self).nil_class == old(self).nil_class,
    {
        self.alloc_type(Type::Instance { loc, class, type_parameters })
    }

    /// A hash of the given keywords, and of what a `**` splat adds.
    pub fn keyword_hash(&mut self, loc: Loc, keywords: Vec<(String, TypeRef)>, splat: Option<TypeRef>) -> (r: TypeRef)
        requires
            old(self).wf(),
            old(self).instances@.len() < usize::MAX,
            forall|i: int| 0 <= i < keywords@.len() ==> old(self).valid(#[trigger] keywords@[i].1),
            splat matches Some(s) ==> old(self).valid(s),
        ensures
            final(self).wf(),
            r.0 == old(self).types@.len(),
            final(self).types@ == old(self).types@.push(
                Type::KeywordHash { loc, keywords, splat, id: old(self).instances@.len() as usize },
            ),
            final(self).instances@ == old(self).instances@.push(None),
            final(self).hash_class == old(self).hash_class,
            final(self).nil_class == old(self).nil_class,
    {
        let id = self.new_id();
        self.alloc_type(Type::KeywordHash { loc, keywords, splat, id })
    }

    /// A tuple of the given leading elements, splat and trailing elements.
    pub fn tuple(&mut self, loc: Loc, lead: Vec<TypeRef>, splat: Option<TypeRef>, post: Vec<TypeRef>) -> (r: TypeRef)
        requires
            old(self).wf(),
            old(self).instances@.len() < usize::MAX,
            forall|i: int| 0 <= i < lead@.len() ==> old(self).valid(#[trigger] lead@[i]),
            splat matches Some(s) ==> old(self).valid(s),
            forall|i: int| 0 <= i < post@.len() ==> old(self).valid(#[trigger] post@[i]),
        ensures
            final(self).wf(),
            r.0 == old(self).types@.len(),
            final(self).types@ == old(self).types@.push(
                Type::Tuple { loc, lead, splat, post, id: old(self).instances@.len() as usize },
            ),
            final(self).instances@ == old(self).instances@.push(None),
            final(self).hash_class == old(self).hash_class,
            final(self).nil_class == old(self).nil_class,
    {
        let id = self.new_id();
        self.alloc_type(Type::Tuple { loc, lead, splat, post, id })
    }

    /// A local variable that holds a value of type `ty`.
    pub fn local_variable(&mut self, loc: Loc, name: String, ty: TypeRef) -> (r: TypeRef)
        requires
            old(self).wf(),
            old(self).valid(ty),
            old(self).instances@.len() < usize::MAX,
        ensures
            final(self).wf(),
            r.0 == old(self).types@.len(),
            final(self).types@ == old(self).types@.push(
                Type::LocalVariable { loc, name, id: old(self).instances@.len() as usize },
            ),
            final(self).instances@ == old(self).instances@.push(Some(ty)),
            final(self).hash_class == old(self).hash_class,
            final(self).nil_class == old(self).nil_class,
    {
        let id = self.new_id();
        self.instances.set(id, Some(ty));
        assert forall|i: int| 0 <= i < self.instances@.len() implies
            (#[trigger] self.instances@[i] matches Some(t) ==> t.0 < self.types@.len()) by {
            if i < id {
                assert(self.instances@[i] == old(self).instances@[i]);
            }
        }
        self.alloc_type(Type::LocalVariable { loc, name, id })
    }

    /// The type that `t` names.
    pub fn get(&self, t: TypeRef) -> (r: &Type)
        requires
            self.valid(t),
        ensures
            *r == self.at(t),
    {
        &self.types[t.0]
    }

    /// What `t` stands for, with bound variables followed.
    pub fn prune(&self, t: TypeRef) -> (r: TypeRef)
        requires
            self.wf(),
            self.valid(t),
        ensures
            r == self.pruned(t),
            self.valid(r),
    {
        let mut cur = t;
        let mut fuel: usize = self.instances.len();
        while fuel > 0
            invariant
                self.wf(),
                self.valid(cur),
                fuel <= self.instances@.len(),
                self.prune_steps(cur, fuel as nat) == self.pruned(t),
            decreases fuel,
        {
            let next = match &self.types[cur.0] {
                Type::Var { id, .. } => self.instances[*id],
                Type::LocalVariable { id, .. } => self.instances[*id],
                Type::KeywordHash { id, .. } => self.instances[*id],
                Type::Tuple { id, .. } => self.instances[*id],
                _ => None,
            };
            match next {
                Some(n) => {
                    cur = n;
                    fuel = fuel - 1;
                },
                None => {
                    return cur;
                },
            }
        }
        cur
    }

    /// Whether `class` is `Hash` or a class that has it among its
    /// ancestors.
    pub fn is_hash(&self, graph: &ObjectGraph, class: usize) -> (r: bool)
        requires
            graph.wf(),
            class < graph@.len(),
            crate::object::class_named(*graph, "Hash"@) is Some,
        ensures
            r == hash_like(*graph, class),
    {
        graph.is_hash(class)
    }

    /// Every instance type of the arena is of a class below `n`.
    pub open spec fn classes_below(&self, n: nat) -> bool {
        forall|i: int| 0 <= i < self.types@.len()
            ==> (#[trigger] self.types@[i] matches Type::Instance { class, .. } ==> class < n)
    }
}

/// What `self` is known to be in a type context.
pub enum SelfInfo {
    Type(TypeRef),
    /// The class and type parameters of `self` are known but no type was
    /// made for it.
    Instance(usize, Vec<TypeRef>),
}

/// The class, the type parameters and the type of `self` in which code is
/// checked.
pub struct TypeContext {
    pub self_: SelfInfo,
    pub class: usize,
    pub type_parameters: Vec<TypeRef>,
    /// The type each type parameter of the class stands for.
    pub type_names: Vec<(String, TypeRef)>,
}

/// The names of the type parameters of a class paired with the types they
/// stand for, as far as both lists go.
pub open spec fn type_names_of(params: Seq<Id>, types: Seq<TypeRef>) -> Seq<(String, TypeRef)> {
    Seq::new(
        if params.len() <= types.len() { params.len() } else { types.len() },
        |i: int| (params[i].1, types[i]),
    )
}

impl TypeContext {
    fn new(graph: &ObjectGraph, self_: SelfInfo, class: usize, type_parameters: Vec<TypeRef>) -> (r: TypeContext)
        requires
            class < graph@.len(),
            !(graph@[class as int] is IClass),
        ensures
            r.self_ == self_,
            r.class == class,
            r.type_parameters == type_parameters,
            r.type_names@ == type_names_of(crate::object::type_params(graph@[class as int]), type_parameters@),
    {
        let params = graph.object(class).type_parameters();
        let n = if params.len() <= type_parameters.len() { params.len() } else { type_parameters.len() };
        let mut type_names: Vec<(String, TypeRef)> = Vec::new();
        let mut i: usize = 0;
        while i < n
            invariant
                n <= params@.len(),
                n <= type_parameters@.len(),
                i <= n,
                params@ == crate::object::type_params(graph@[class as int]),
                type_names@ == type_names_of(params@, type_parameters@).subrange(0, i as int),
                n == type_names_of(params@, type_parameters@).len(),
            decreases n - i,
        {
            type_names.push((params[i].1.clone(), type_parameters[i]));
            i = i + 1;
            assert(type_names@ =~= type_names_of(params@, type_parameters@).subrange(0, i as int));
        }
        assert(type_names@ =~= type_names_of(params@, type_parameters@));
        TypeContext { self_, class, type_parameters, type_names }
    }

    /// The context of code in an instance of `class` with the given type
    /// parameters.
    pub fn instance(graph: &ObjectGraph, class: usize, type_parameters: Vec<TypeRef>) -> (r: TypeContext)
        requires
            class < graph@.len(),
            !(graph@[class as int] is IClass),
        ensures
            r.self_ matches SelfInfo::Instance(c, tps) && c == class && tps@ == type_parameters@,
            r.class == class,
            r.type_parameters == type_parameters,
            r.type_names@ == type_names_of(crate::object::type_params(graph@[class as int]), type_parameters@),
    {
        let self_ = SelfInfo::Instance(class, type_parameters.clone());
        Self::new(graph, self_, class, type_parameters)
    }

    /// The context of code whose `self` has type `self_type`.
    pub fn with_type(graph: &ObjectGraph, self_type: TypeRef, class: usize, type_parameters: Vec<TypeRef>) -> (r: TypeContext)
        requires
            class < graph@.len(),
            !(graph@[class as int] is IClass),
        ensures
            r.self_ == SelfInfo::Type(self_type),
            r.class == class,
            r.type_parameters == type_parameters,
            r.type_names@ == type_names_of(crate::object::type_params(graph@[class as int]), type_parameters@),
    {
        Self::new(graph, SelfInfo::Type(self_type), class, type_parameters)
    }
}

// ---------------------------------------------------------------------------
// Comparing types and forming unions
//
// Each comparison follows bound variables and then the parts of a type, at
// most `fuel` levels deep; `None` stands for a pair of types that the
// checker cannot compare (two keyword hashes, or two local variables).

impl TypeEnv {
    /// Whether `a` and `b` are the same type, or `None` where the
    /// comparison reaches a pair it cannot compare.
    pub open spec fn same_steps(&self, a: TypeRef, b: TypeRef, fuel: nat) -> Option<bool>
        decreases fuel, 0int, 0int,
    {
        if fuel == 0 || !self.valid(a) || !self.valid(b) {
            Some(false)
        } else {
            let f = (fuel - 1) as nat;
            match (self.at(self.pruned(a)), self.at(self.pruned(b))) {
                (Type::Instance { class: c1, type_parameters: p1, .. }, Type::Instance { class: c2, type_parameters: p2, .. }) =>
                    if c1 != c2 { Some(false) } else { self.zip_same(p1@, p2@, 0, f) },
                (Type::Union { types: t1, .. }, Type::Union { types: t2, .. }) =>
                    match self.each_in(t1@, t2@, 0, f) {
                        Some(true) => self.each_in(t2@, t1@, 0, f),
                        other => other,
                    },
                (Type::Tuple { lead: l1, splat: s1, post: q1, .. }, Type::Tuple { lead: l2, splat: s2, post: q2, .. }) =>
                    if l1@.len() != l2@.len() {
                        Some(false)
                    } else {
                        match self.zip_same(l1@, l2@, 0, f) {
                            Some(true) => match (s1, s2) {
                                (Some(x), Some(y)) => match self.same_steps(x, y, f) {
                                    Some(true) => if q1@.len() != q2@.len() { Some(false) } else { self.zip_same(q1@, q2@, 0, f) },
                                    other => other,
                                },
                                (None, None) => if q1@.len() != q2@.len() { Some(false) } else { self.zip_same(q1@, q2@, 0, f) },
                                _ => Some(false),
                            },
                            other => other,
                        }
                    },
                (Type::KeywordHash { .. }, Type::KeywordHash { .. }) => None,
                (Type::Proc { .. }, Type::Proc { .. }) => Some(false),
                (Type::Any { .. }, Type::Any { .. }) => Some(true),
                (Type::TypeParameter { name: n1, .. }, Type::TypeParameter { name: n2, .. }) => Some(n1@ == n2@),
                (Type::Var { id: i1, .. }, Type::Var { id: i2, .. }) => Some(i1 == i2),
                (Type::LocalVariable { .. }, Type::LocalVariable { .. }) => None,
                _ => Some(false),
            }
        }
    }

    /// Whether the types of `xs` and `ys` from place `i` on are the same,
    /// pair by pair as far as both go, stopping at the first pair that is not.
    pub open spec fn zip_same(&self, xs: Seq<TypeRef>, ys: Seq<TypeRef>, i: int, fuel: nat) -> Option<bool>
        decreases fuel, 1int, xs.len() - i,
    {
        if i < 0 || i >= xs.len() || i >= ys.len() {
            Some(true)
        } else {
            match self.same_steps(xs[i], ys[i], fuel) {
                Some(true) => self.zip_same(xs, ys, i + 1, fuel),
                other => other,
            }
        }
    }

    /// Whether `x` is the same as one of the types of `ys` from place `j`
    /// on, stopping at the first that is.
    pub open spec fn one_of(&self, x: TypeRef, ys: Seq<TypeRef>, j: int, fuel: nat) -> Option<bool>
        decreases fuel, 1int, ys.len() - j,
    {
        if j < 0 || j >= ys.len() {
            Some(false)
        } else {
            match self.same_steps(x, ys[j], fuel) {
                Some(false) => self.one_of(x, ys, j + 1, fuel),
                other => other,
            }
        }
    }

    /// Whether each type of `xs` from place `i` on is the same as one of
    /// `ys`, stopping at the first that is not.
    pub open spec fn each_in(&self, xs: Seq<TypeRef>, ys: Seq<TypeRef>, i: int, fuel: nat) -> Option<bool>
        decreases fuel, 2int, xs.len() - i,
    {
        if i < 0 || i >= xs.len() {
            Some(true)
        } else {
            match self.one_of(xs[i], ys, 0, fuel) {
                Some(true) => self.each_in(xs, ys, i + 1, fuel),
                other => other,
            }
        }
    }
}

impl TypeEnv {
    /// Whether `a` and `b` are the same type, looking at most `fuel` levels
    /// deep.
    pub fn same_type_steps(&self, a: TypeRef, b: TypeRef, fuel: usize) -> (r: bool)
        requires
            self.wf(),
            self.valid(a),
            self.valid(b),
            self.same_steps(a, b, fuel as nat) is Some,
        ensures
            r == self.same_steps(a, b, fuel as nat)->0,
        decreases fuel, 0int,
    {
        if fuel == 0 {
            return false;
        }
        let f = fuel - 1;
        let pa = self.prune(a);
        let pb = self.prune(b);
        proof {
            assert(self.refs_below_at(pa));
            assert(self.refs_below_at(pb));
        }
        match (self.get(pa), self.get(pb)) {
            (Type::Instance { class: c1, type_parameters: p1, .. }, Type::Instance { class: c2, type_parameters: p2, .. }) => {
                if *c1 != *c2 {
                    false
                } else {
                    self.zip_same_exec(p1.as_slice(), p2.as_slice(), f)
                }
            },
            (Type::Union { types: t1, .. }, Type::Union { types: t2, .. }) => {
                if self.each_in_exec(t1.as_slice(), t2.as_slice(), f) {
                    self.each_in_exec(t2.as_slice(), t1.as_slice(), f)
                } else {
                    false
                }
            },
            (Type::Tuple { lead: l1, splat: s1, post: q1, .. }, Type::Tuple { lead: l2, splat: s2, post: q2, .. }) => {
                if l1.len() != l2.len() {
                    return false;
                }
                if !self.zip_same_exec(l1.as_slice(), l2.as_slice(), f) {
                    return false;
                }
                match (s1, s2) {
                    (Some(x), Some(y)) => {
                        if !self.same_type_steps(*x, *y, f) {
                            return false;
                        }
                    },
                    (None, None) => {},
                    _ => {
                        return false;
                    },
                }
                if q1.len() != q2.len() {
                    false
                } else {
                    self.zip_same_exec(q1.as_slice(), q2.as_slice(), f)
                }
            },
            (Type::Proc { .. }, Type::Proc { .. }) => false,
            (Type::Any { .. }, Type::Any { .. }) => true,
            (Type::TypeParameter { name: n1, .. }, Type::TypeParameter { name: n2, .. }) => crate::text::str_eq(n1.as_str(), n2.as_str()),
            (Type::Var { id: i1, .. }, Type::Var { id: i2, .. }) => *i1 == *i2,
            (Type::KeywordHash { .. }, Type::KeywordHash { .. }) => {
                assert(false);
                false
            },
            (Type::LocalVariable { .. }, Type::LocalVariable { .. }) => {
                assert(false);
                false
            },
            _ => false,
        }
    }

    /// Every type that the type at `t` is made of is in the arena.
    pub open spec fn refs_below_at(&self, t: TypeRef) -> bool {
        refs_below(self.at(t), self.types@.len())
    }

    /// Whether the types of `xs` and `ys` are the same, pair by pair as far
    /// as both go.
    fn zip_same_exec(&self, xs: &[TypeRef], ys: &[TypeRef], fuel: usize) -> (r: bool)
        requires
            self.wf(),
            forall|i: int| 0 <= i < xs@.len() ==> self.valid(#[trigger] xs@[i]),
            forall|i: int| 0 <= i < ys@.len() ==> self.valid(#[trigger] ys@[i]),
            self.zip_same(xs@, ys@, 0, fuel as nat) is Some,
        ensures
            r == self.zip_same(xs@, ys@, 0, fuel as nat)->0,
        decreases fuel, 1int,
    {
        let mut i: usize = 0;
        while i < xs.len() && i < ys.len()
            invariant
                self.wf(),
                forall|k: int| 0 <= k < xs@.len() ==> self.valid(#[trigger] xs@[k]),
                forall|k: int| 0 <= k < ys@.len() ==> self.valid(#[trigger] ys@[k]),
                i <= xs@.len(),
                self.zip_same(xs@, ys@, i as int, fuel as nat) == self.zip_same(xs@, ys@, 0, fuel as nat),
                self.zip_same(xs@, ys@, 0, fuel as nat) is Some,
            decreases xs@.len() - i,
        {
            if !self.same_type_steps(xs[i], ys[i], fuel) {
                return false;
            }
            i = i + 1;
        }
        true
    }

    /// Whether `x` is the same as one of the types of `ys`.
    fn one_of_exec(&self, x: TypeRef, ys: &[TypeRef], fuel: usize) -> (r: bool)
        requires
            self.wf(),
            self.valid(x),
            forall|i: int| 0 <= i < ys@.len() ==> self.valid(#[trigger] ys@[i]),
            self.one_of(x, ys@, 0, fuel as nat) is Some,
        ensures
            r == self.one_of(x, ys@, 0, fuel as nat)->0,
        decreases fuel, 1int,
    {
        let mut j: usize = 0;
        while j < ys.len()
            invariant
                self.wf(),
                self.valid(x),
                forall|k: int| 0 <= k < ys@.len() ==> self.valid(#[trigger] ys@[k]),
                j <= ys@.len(),
                self.one_of(x, ys@, j as int, fuel as nat) == self.one_of(x, ys@, 0, fuel as nat),
                self.one_of(x, ys@, 0, fuel as nat) is Some,
            decreases ys@.len() - j,
        {
            if self.same_type_steps(x, ys[j], fuel) {
                return true;
            }
            j = j + 1;
        }
        false
    }

    /// Whether each type of `xs` is the same as one of `ys`.
    fn each_in_exec(&self, xs: &[TypeRef], ys: &[TypeRef], fuel: usize) -> (r: bool)
        requires
            self.wf(),
            forall|i: int| 0 <= i < xs@.len() ==> self.valid(#[trigger] xs@[i]),
            forall|i: int| 0 <= i < ys@.len() ==> self.valid(#[trigger] ys@[i]),
            self.each_in(xs@, ys@, 0, fuel as nat) is Some,
        ensures
            r == self.each_in(xs@, ys@, 0, fuel as nat)->0,
        decreases fuel, 2int,
    {
        let mut i: usize = 0;
        while i < xs.len()
            invariant
                self.wf(),
                forall|k: int| 0 <= k < xs@.len() ==> self.valid(#[trigger] xs@[k]),
                forall|k: int| 0 <= k < ys@.len() ==> self.valid(#[trigger] ys@[k]),
                i <= xs@.len(),
                self.each_in(xs@, ys@, i as int, fuel as nat) == self.each_in(xs@, ys@, 0, fuel as nat),
                self.each_in(xs@, ys@, 0, fuel as nat) is Some,
            decreases xs@.len() - i,
        {
            if !self.one_of_exec(xs[i], ys, fuel) {
                return false;
            }
            i = i + 1;
        }
        true
    }
}

impl TypeEnv {
    /// The types that `t` may be: the members of a union, followed through
    /// nested unions at most `fuel` levels deep; any other type itself.
    pub open spec fn possible_steps(&self, t: TypeRef, fuel: nat) -> Seq<TypeRef>
        decreases fuel, 0int, 0int,
    {
        if fuel == 0 || !self.valid(t) {
            seq![t]
        } else {
            match self.at(self.pruned(t)) {
                Type::Union { types, .. } => self.possible_list(types@, types@.len() as int, (fuel - 1) as nat),
                _ => seq![t],
            }
        }
    }

    /// The types that the first `k` of `ts` may be, one after the other.
    pub open spec fn possible_list(&self, ts: Seq<TypeRef>, k: int, fuel: nat) -> Seq<TypeRef>
        decreases fuel, 1int, k,
    {
        if k <= 0 || k > ts.len() {
            seq![]
        } else {
            self.possible_list(ts, k - 1, fuel) + self.possible_steps(ts[k - 1], fuel)
        }
    }

    /// The types that `t` may be.
    pub open spec fn possible(&self, t: TypeRef) -> Seq<TypeRef> {
        self.possible_steps(t, self.types@.len())
    }

    /// Whether one of the types of `ys` from place `j` on is the same as
    /// `x`, stopping at the first that is.
    pub open spec fn found_in(&self, ys: Seq<TypeRef>, j: int, x: TypeRef, fuel: nat) -> Option<bool>
        decreases ys.len() - j,
    {
        if j < 0 || j >= ys.len() {
            Some(false)
        } else {
            match self.same_steps(ys[j], x, fuel) {
                Some(false) => self.found_in(ys, j + 1, x, fuel),
                other => other,
            }
        }
    }

    /// The first `k` of `ts` without those the same as one kept before.
    pub open spec fn reduced(&self, ts: Seq<TypeRef>, k: int, fuel: nat) -> Option<Seq<TypeRef>>
        decreases k,
    {
        if k <= 0 || k > ts.len() {
            Some(seq![])
        } else {
            match self.reduced(ts, k - 1, fuel) {
                Some(red) => match self.found_in(red, 0, ts[k - 1], fuel) {
                    Some(true) => Some(red),
                    Some(false) => Some(red.push(ts[k - 1])),
                    None => None,
                },
                None => None,
            }
        }
    }

    /// The distinct types that `a` or `b` may be, where they can be told
    /// apart.
    pub open spec fn union_members(&self, a: TypeRef, b: TypeRef) -> Option<Seq<TypeRef>> {
        let ts = self.possible(a) + self.possible(b);
        self.reduced(ts, ts.len() as int, self.types@.len())
    }

    /// Whether the union of `a` and `b` can be formed: their types can be
    /// told apart and there is at least one.
    pub open spec fn union_ok(&self, a: TypeRef, b: TypeRef) -> bool {
        self.union_members(a, b) matches Some(red) && red.len() > 0
    }

    /// Adds to `out` the types that `t` may be.
    fn possible_types_rec(&self, t: TypeRef, fuel: usize, out: &mut Vec<TypeRef>)
        requires
            self.wf(),
            self.valid(t),
        ensures
            final(out)@ == old(out)@ + self.possible_steps(t, fuel as nat),
            forall|i: int| old(out)@.len() <= i < final(out)@.len() ==> self.valid(#[trigger] final(out)@[i]),
        decreases fuel,
    {
        if fuel == 0 {
            out.push(t);
            return;
        }
        let p = self.prune(t);
        proof {
            assert(self.refs_below_at(p));
        }
        match self.get(p) {
            Type::Union { types, .. } => {
                let ghost out0 = out@;
                assert(forall|k: int| 0 <= k < types@.len() ==> self.valid(#[trigger] types@[k]));
                let mut i: usize = 0;
                while i < types.len()
                    invariant
                        self.wf(),
                        fuel > 0,
                        forall|k: int| 0 <= k < types@.len() ==> self.valid(#[trigger] types@[k]),
                        i <= types@.len(),
                        out@ == out0 + self.possible_list(types@, i as int, (fuel - 1) as nat),
                        forall|k: int| out0.len() <= k < out@.len() ==> self.valid(#[trigger] out@[k]),
                    decreases types@.len() - i,
                {
                    let ghost before = out@;
                    self.possible_types_rec(types[i], fuel - 1, out);
                    i = i + 1;
                    assert(out@ =~= out0 + self.possible_list(types@, i as int, (fuel - 1) as nat));
                }
            },
            _ => {
                out.push(t);
            },
        }
    }

    /// The types that `t` may be: the members of a union, followed through
    /// nested unions; any other type itself.
    pub fn possible_types(&self, t: TypeRef) -> (r: Vec<TypeRef>)
        requires
            self.wf(),
            self.valid(t),
        ensures
            r@ == self.possible(t),
            forall|i: int| 0 <= i < r@.len() ==> self.valid(#[trigger] r@[i]),
    {
        let mut out: Vec<TypeRef> = Vec::new();
        self.possible_types_rec(t, self.types.len(), &mut out);
        assert(out@ =~= self.possible(t));
        out
    }

    /// Whether `a` and `b` are the same type.
    pub fn same_type(&self, a: TypeRef, b: TypeRef) -> (r: bool)
        requires
            self.wf(),
            self.valid(a),
            self.valid(b),
            self.same_steps(a, b, self.types@.len()) is Some,
        ensures
            r == self.same_steps(a, b, self.types@.len())->0,
    {
        self.same_type_steps(a, b, self.types.len())
    }

    /// The type that `a` or `b` is: the one type they may be, or a union
    /// of the distinct types they may be, made at `loc`.
    pub fn union(&mut self, loc: &Loc, a: TypeRef, b: TypeRef) -> (r: TypeRef)
        requires
            old(self).wf(),
            old(self).valid(a),
            old(self).valid(b),
            old(self).union_ok(a, b),
        ensures
            final(self).wf(),
            union_made(*old(self), *final(self), *loc, a, b, r),
    {
        let mut types = self.possible_types(a);
        let more = self.possible_types(b);
        let ghost ta = types@;
        let mut j: usize = 0;
        while j < more.len()
            invariant
                j <= more@.len(),
                types@ == ta + more@.subrange(0, j as int),
                forall|i: int| 0 <= i < types@.len() ==> self.valid(#[trigger] types@[i]),
                forall|i: int| 0 <= i < more@.len() ==> self.valid(#[trigger] more@[i]),
            decreases more@.len() - j,
        {
            types.push(more[j]);
            j = j + 1;
            assert(types@ =~= ta + more@.subrange(0, j as int));
        }
        assert(more@.subrange(0, more@.len() as int) =~= more@);
        let ghost ts = types@;
        let n = self.types.len();
        let mut reduced: Vec<TypeRef> = Vec::new();
        let mut k: usize = 0;
        while k < types.len()
            invariant
                self.wf(),
                n == self.types@.len(),
                ts == types@,
                k <= ts.len(),
                forall|i: int| 0 <= i < ts.len() ==> self.valid(#[trigger] ts[i]),
                forall|i: int| 0 <= i < reduced@.len() ==> self.valid(#[trigger] reduced@[i]),
                self.reduced(ts, k as int, n as nat) == Some(reduced@),
                self.reduced(ts, ts.len() as int, n as nat) is Some,
            decreases ts.len() - k,
        {
            let ty = types[k];
            proof {
                self.lemma_reduced_prefix(ts, k as int + 1, ts.len() as int, n as nat);
            }
            let mut found = false;
            let mut j: usize = 0;
            while j < reduced.len()
                invariant
                    self.wf(),
                    n == self.types@.len(),
                    self.valid(ty),
                    forall|i: int| 0 <= i < reduced@.len() ==> self.valid(#[trigger] reduced@[i]),
                    j <= reduced@.len(),
                    self.found_in(reduced@, 0, ty, n as nat) is Some,
                    !found ==> self.found_in(reduced@, j as int, ty, n as nat) == self.found_in(reduced@, 0, ty, n as nat),
                    found ==> self.found_in(reduced@, 0, ty, n as nat) == Some(true),
                decreases reduced@.len() - j,
            {
                if !found && self.same_type_steps(reduced[j], ty, n) {
                    found = true;
                }
                j = j + 1;
            }
            if !found {
                reduced.push(ty);
            }
            k = k + 1;
        }
        if reduced.len() == 1 {
            reduced[0]
        } else {
            let r = self.alloc_type(Type::Union { loc: loc.clone(), types: reduced });
            assert(self.types@.drop_last() =~= old(self).types@);
            r
        }
    }

    /// Where the first `k` types can be reduced, so can any fewer.
    proof fn lemma_reduced_prefix(&self, ts: Seq<TypeRef>, j: int, k: int, fuel: nat)
        requires
            0 <= j <= k <= ts.len(),
            self.reduced(ts, k, fuel) is Some,
        ensures
            self.reduced(ts, j, fuel) is Some,
        decreases k - j,
    {
        if j < k {
            self.lemma_reduced_prefix(ts, j, k - 1, fuel);
        }
    }
}


/// `e2` is `e1` after forming the union of `a` and `b` at `loc`, which is
/// `r`: the one type they may be, or a new union of the distinct types
/// they may be.
pub open spec fn union_made(e1: TypeEnv, e2: TypeEnv, loc: Loc, a: TypeRef, b: TypeRef, r: TypeRef) -> bool {
    let red = e1.union_members(a, b)->0;
    &&& e2.instances@ == e1.instances@
    &&& e2.hash_class == e1.hash_class
    &&& e2.nil_class == e1.nil_class
    &&& if red.len() == 1 {
        r == red[0] && e2.types@ == e1.types@
    } else {
        &&& r.0 == e1.types@.len()
        &&& e2.types@.len() == e1.types@.len() + 1
        &&& e2.types@.drop_last() == e1.types@
        &&& e2.types@.last() matches Type::Union { loc: l, types } && l == loc && types@ == red
    }
}

/// `e2` is `e1` with the type of `nil`, made at `loc`, added.
pub open spec fn nil_added(e1: TypeEnv, e2: TypeEnv, loc: Loc) -> bool {
    &&& e2.types@.len() == e1.types@.len() + 1
    &&& e2.types@.drop_last() == e1.types@
    &&& e2.types@.last() matches Type::Instance { loc: l, class, type_parameters }
        && l == loc && class == e1.nil_class && type_parameters@.len() == 0
    &&& e2.instances@ == e1.instances@
    &&& e2.hash_class == e1.hash_class
    &&& e2.nil_class == e1.nil_class
}

/// Whether `ty` or `nil` can be formed at `loc` in `e`: the union is well
/// formed once the type of `nil` is added.
pub open spec fn nillable_ok(e: TypeEnv, loc: Loc, ty: TypeRef) -> bool {
    forall|e2: TypeEnv| #[trigger] nil_added(e, e2, loc) ==> e2.union_ok(TypeRef(e.types@.len() as usize), ty)
}

/// `e3` is `e1` after forming `ty` or `nil` at `loc`, which is `r`.
pub open spec fn nillable_made(e1: TypeEnv, e3: TypeEnv, loc: Loc, ty: TypeRef, r: TypeRef) -> bool {
    exists|e2: TypeEnv| #[trigger] nil_added(e1, e2, loc)
        && union_made(e2, e3, loc, TypeRef(e1.types@.len() as usize), ty, r)
}

impl TypeEnv {
    /// The type of `nil`.
    pub fn nil(&mut self, loc: Loc) -> (r: TypeRef)
        requires
            old(self).wf(),
        ensures
            final(self).wf(),
            r.0 == old(self).types@.len(),
            nil_added(*old(self), *final(self), loc),
    {
        let ty = Type::Instance { loc, class: self.nil_class, type_parameters: Vec::new() };
        let r = self.alloc_type(ty);
        assert(self.types@.drop_last() =~= old(self).types@);
        r
    }

    /// The type that `ty` or `nil` is, made at `loc`.
    pub fn nillable(&mut self, loc: &Loc, ty: TypeRef) -> (r: TypeRef)
        requires
            old(self).wf(),
            old(self).valid(ty),
            old(self).types@.len() < usize::MAX,
            nillable_ok(*old(self), *loc, ty),
        ensures
            final(self).wf(),
            nillable_made(*old(self), *final(self), *loc, ty, r),
    {
        let n = self.nil(loc.clone());
        let ghost e2 = *self;
        assert(nil_added(*old(self), e2, *loc));
        let r = self.union(loc, n, ty);
        assert(nil_added(*old(self), e2, *loc) && union_made(e2, *self, *loc, TypeRef(old(self).types@.len() as usize), ty, r));
        r
    }
}

impl TypeEnv {
    /// A type that may be only itself, and is the same as itself, forms
    /// with itself a union of just that type.
    pub proof fn lemma_union_with_itself(&self, a: TypeRef)
        requires
            self.possible(a) == seq![a],
            self.same_steps(a, a, self.types@.len()) == Some(true),
        ensures
            self.union_members(a, a) == Some(seq![a]),
    {
        let ts = self.possible(a) + self.possible(a);
        let n = self.types@.len();
        assert(ts =~= seq![a, a]);
        assert(self.reduced(ts, 0, n) == Some(Seq::<TypeRef>::empty()));
        assert(self.found_in(Seq::<TypeRef>::empty(), 0, a, n) == Some(false));
        assert(Seq::<TypeRef>::empty().push(a) =~= seq![a]);
        assert(self.reduced(ts, 1, n) == Some(seq![a]));
        assert(self.found_in(seq![a], 0, a, n) == Some(true));
        assert(self.reduced(ts, 2, n) == Some(seq![a]));
    }
}

/// Whether an object of class `c` is an instance of `class` in `g`: `class`
/// is among the ancestors of `c`.
pub open spec fn class_is_a(g: ObjectGraph, c: usize, class: usize) -> bool {
    let anc = crate::object::ancestry(g@, c);
    exists|k: int| 0 <= k < anc.len() && crate::object::delegate_of(g@, #[trigger] anc[k]) == class
}

impl TypeEnv {
    /// Whether `ty` stands for a variable not bound yet.
    pub fn is_unresolved_var(&self, ty: TypeRef) -> (r: bool)
        requires
            self.wf(),
            self.valid(ty),
        ensures
            r == (self.at(self.pruned(ty)) is Var),
    {
        let p = self.prune(ty);
        match self.get(p) {
            Type::Var { .. } => true,
            _ => false,
        }
    }

    /// Whether `ty` stands for an instance of a class that is `class` or
    /// has it among its ancestors.
    pub fn is_instance(&self, graph: &ObjectGraph, ty: TypeRef, class: usize) -> (r: bool)
        requires
            self.wf(),
            graph.wf(),
            self.valid(ty),
            self.classes_below(graph@.len()),
        ensures
            r == (self.at(self.pruned(ty)) matches Type::Instance { class: c, .. } && class_is_a(*graph, c, class)),
    {
        let p = self.prune(ty);
        match self.get(p) {
            Type::Instance { class: c, .. } => {
                let o = graph.object(*c);
                proof {
                    graph.lemma_holds(*c);
                    assert((crate::object::id_of(graph@[*c as int]) - 1) as usize == *c);
                }
                let r = o.is_a(graph, class);
                assert(r == class_is_a(*graph, *c, class));
                r
            },
            _ => false,
        }
    }

    /// The passed arguments a tuple stands for: its leading values, its
    /// splat and its trailing values.
    pub fn elements_from_tuple(&self, tuple: TypeRef) -> (r: Vec<SplatArg>)
        requires
            self.wf(),
            self.valid(tuple),
            self.at(self.pruned(tuple)) is Tuple,
        ensures
            self.at(self.pruned(tuple)) matches Type::Tuple { lead, splat, post, .. }
                && r@ == lead@.map_values(|t: TypeRef| SplatArg::Value(t))
                    + match splat { Some(s) => seq![SplatArg::Splat(s)], None => seq![] }
                    + post@.map_values(|t: TypeRef| SplatArg::Value(t)),
    {
        let p = self.prune(tuple);
        match self.get(p) {
            Type::Tuple { lead, splat, post, .. } => {
                let mut out: Vec<SplatArg> = Vec::new();
                let mut i: usize = 0;
                while i < lead.len()
                    invariant
                        i <= lead@.len(),
                        out@ == lead@.subrange(0, i as int).map_values(|t: TypeRef| SplatArg::Value(t)),
                    decreases lead@.len() - i,
                {
                    out.push(SplatArg::Value(lead[i]));
                    i = i + 1;
                    assert(out@ =~= lead@.subrange(0, i as int).map_values(|t: TypeRef| SplatArg::Value(t)));
                }
                assert(lead@.subrange(0, lead@.len() as int) =~= lead@);
                let ghost mid = out@;
                if let Some(s) = splat {
                    out.push(SplatArg::Splat(*s));
                }
                let ghost mid2 = out@;
                assert(mid2 == mid + match *splat { Some(s) => seq![SplatArg::Splat(s)], None => seq![] });
                let mut j: usize = 0;
                while j < post.len()
                    invariant
                        j <= post@.len(),
                        out@ == mid2 + post@.subrange(0, j as int).map_values(|t: TypeRef| SplatArg::Value(t)),
                    decreases post@.len() - j,
                {
                    out.push(SplatArg::Value(post[j]));
                    j = j + 1;
                    assert(out@ =~= mid2 + post@.subrange(0, j as int).map_values(|t: TypeRef| SplatArg::Value(t)));
                }
                assert(post@.subrange(0, post@.len() as int) =~= post@);
                out
            },
            _ => {
                assert(false);
                Vec::new()
            },
        }
    }
}

/// The type parameters of `ty` where it stands for an instance of a class
/// that is `Hash` or has it among its ancestors.
pub open spec fn hash_params(env: TypeEnv, g: ObjectGraph, ty: TypeRef) -> Option<Seq<TypeRef>> {
    match env.at(env.pruned(ty)) {
        Type::Instance { class, type_parameters, .. } => if hash_like(g, class) { Some(type_parameters@) } else { None },
        _ => None,
    }
}

/// Whether `ty` can stand for keyword arguments: a keyword hash, or a
/// hash whose keys are symbols.
pub open spec fn keyword_hash_like(env: TypeEnv, g: ObjectGraph, ty: TypeRef) -> bool {
    ||| env.at(env.pruned(ty)) is KeywordHash
    ||| hash_params(env, g, ty) matches Some(ps) && env.at(env.pruned(ps[0])) matches Type::Instance { class, .. }
        && class_is_a(g, class, g.symbol_index())
}

impl TypeEnv {
    /// Whether `ty` can stand for keyword arguments: a keyword hash, or a
    /// hash whose keys are symbols.
    pub fn is_keyword_hash(&self, graph: &ObjectGraph, ty: TypeRef) -> (r: bool)
        requires
            self.wf(),
            graph.wf(),
            self.valid(ty),
            self.classes_below(graph@.len()),
            crate::object::class_named(*graph, "Hash"@) is Some,
            hash_params(*self, *graph, ty) matches Some(ps) ==> ps.len() >= 1,
        ensures
            r == keyword_hash_like(*self, *graph, ty),
    {
        let p = self.prune(ty);
        proof {
            assert(self.refs_below_at(p));
        }
        match self.get(p) {
            Type::KeywordHash { .. } => true,
            Type::Instance { class, type_parameters, .. } => {
                if self.is_hash(graph, *class) {
                    self.is_instance(graph, type_parameters[0], graph.symbol_class())
                } else {
                    false
                }
            },
            _ => false,
        }
    }

    /// The keyword hash `ty` stands for: a keyword hash itself, or for a
    /// hash whose keys are symbols, a new keyword hash with no named
    /// keywords whose `**` part has the hash's value type.
    pub fn to_keyword_hash(&mut self, graph: &ObjectGraph, ty: TypeRef) -> (r: Option<TypeRef>)
        requires
            old(self).wf(),
            graph.wf(),
            old(self).valid(ty),
            old(self).classes_below(graph@.len()),
            old(self).instances@.len() < usize::MAX,
            crate::object::class_named(*graph, "Hash"@) is Some,
            hash_params(*old(self), *graph, ty) matches Some(ps) ==> ps.len() >= 2,
        ensures
            final(self).wf(),
            final(self).classes_below(graph@.len()),
            if old(self).at(old(self).pruned(ty)) is KeywordHash {
                r == Some(old(self).pruned(ty)) && *final(self) == *old(self)
            } else if keyword_hash_like(*old(self), *graph, ty) {
                let ps = hash_params(*old(self), *graph, ty)->0;
                &&& r == Some(TypeRef(old(self).types@.len() as usize))
                &&& final(self).types@.len() == old(self).types@.len() + 1
                &&& final(self).types@.drop_last() == old(self).types@
                &&& final(self).types@.last() matches Type::KeywordHash { loc, keywords, splat, id }
                    && loc == type_loc(old(self).at(ty)) && keywords@.len() == 0 && splat == Some(ps[1])
                    && id == old(self).instances@.len()
                &&& final(self).instances@ == old(self).instances@.push(None)
            } else {
                r is None && *final(self) == *old(self)
            },
    {
        let p = self.prune(ty);
        proof {
            assert(self.refs_below_at(p));
        }
        let mut value: Option<TypeRef> = None;
        match self.get(p) {
            Type::KeywordHash { .. } => {
                return Some(p);
            },
            Type::Instance { class, type_parameters, .. } => {
                if self.is_hash(graph, *class) && self.is_instance(graph, type_parameters[0], graph.symbol_class()) {
                    value = Some(type_parameters[1]);
                }
            },
            _ => {},
        }
        match value {
            Some(v) => {
                let loc = self.get(ty).loc().clone();
                let r = self.keyword_hash(loc, Vec::new(), Some(v));
                assert(self.types@.drop_last() =~= old(self).types@);
                Some(r)
            },
            None => None,
        }
    }
}

impl TypeEnv {
    /// An instance of `class`, which takes no type parameters.
    pub fn instance0(&mut self, graph: &ObjectGraph, loc: Loc, class: usize) -> (r: TypeRef)
        requires
            old(self).wf(),
            graph.wf(),
            class < graph@.len(),
            crate::object::type_params(graph@[class as int]).len() == 0,
        ensures
            final(self).wf(),
            r.0 == old(self).types@.len(),
            final(self).types@.len() == old(self).types@.len() + 1,
            final(self).types@.drop_last() == old(self).types@,
            final(self).types@.last() matches Type::Instance { loc: l, class: c, type_parameters }
                && l == loc && c == class && type_parameters@.len() == 0,
            final(self).instances@ == old(self).instances@,
            final(self).hash_class == old(self).hash_class,
            final(self).nil_class == old(self).nil_class,
    {
        let r = self.instance(graph, loc, class, Vec::new());
        assert(self.types@.drop_last() =~= old(self).types@);
        r
    }

    /// An array of elements of type `element_type`.
    pub fn array(&mut self, graph: &ObjectGraph, loc: Loc, element_type: TypeRef) -> (r: TypeRef)
        requires
            old(self).wf(),
            graph.wf(),
            old(self).valid(element_type),
            crate::object::class_named(*graph, "Array"@) is Some,
            crate::object::type_params(graph@[crate::object::class_named(*graph, "Array"@)->0 as int]).len() == 1,
        ensures
            final(self).wf(),
            r.0 == old(self).types@.len(),
            final(self).types@.len() == old(self).types@.len() + 1,
            final(self).types@.drop_last() == old(self).types@,
            final(self).types@.last() matches Type::Instance { loc: l, class, type_parameters }
                && l == loc && Some(class) == crate::object::class_named(*graph, "Array"@)
                && type_parameters@ == seq![element_type],
            final(self).instances@ == old(self).instances@,
    {
        let class = graph.array_class();
        let mut ps: Vec<TypeRef> = Vec::new();
        ps.push(element_type);
        let r = self.instance(graph, loc, class, ps);
        assert(self.types@.drop_last() =~= old(self).types@);
        r
    }

    /// A hash from keys of type `key_type` to values of type `value_type`.
    pub fn hash(&mut self, graph: &ObjectGraph, loc: Loc, key_type: TypeRef, value_type: TypeRef) -> (r: TypeRef)
        requires
            old(self).wf(),
            graph.wf(),
            old(self).valid(key_type),
            old(self).valid(value_type),
            crate::object::class_named(*graph, "Hash"@) is Some,
            crate::object::type_params(graph@[crate::object::class_named(*graph, "Hash"@)->0 as int]).len() == 2,
        ensures
            final(self).wf(),
            r.0 == old(self).types@.len(),
            final(self).types@.len() == old(self).types@.len() + 1,
            final(self).types@.drop_last() == old(self).types@,
            final(self).types@.last() matches Type::Instance { loc: l, class, type_parameters }
                && l == loc && Some(class) == crate::object::class_named(*graph, "Hash"@)
                && type_parameters@ == seq![key_type, value_type],
            final(self).instances@ == old(self).instances@,
    {
        let class = graph.hash_class();
        let mut ps: Vec<TypeRef> = Vec::new();
        ps.push(key_type);
        ps.push(value_type);
        let r = self.instance(graph, loc, class, ps);
        assert(self.types@.drop_last() =~= old(self).types@);
        r
    }

    /// The prototype that takes anything and gives anything: a rest
    /// argument and a block of any type, and a result of any type, all at
    /// `loc`.
    pub fn any_prototype(&mut self, loc: Loc) -> (r: Rc<Prototype>)
        requires
            old(self).wf(),
        ensures
            final(self).wf(),
            final(self).types@ == old(self).types@.push(Type::Any { loc }),
            final(self).instances@ == old(self).instances@,
            r.loc == loc,
            r.constraints@.len() == 0,
            r.retn == TypeRef(old(self).types@.len() as usize),
            r.args@ == seq![Arg::Rest { loc, ty: r.retn }, Arg::Block { loc, ty: r.retn }],
    {
        let any_ty = self.any(loc.clone());
        let mut args: Vec<Arg> = Vec::new();
        args.push(Arg::Rest { loc: loc.clone(), ty: any_ty });
        args.push(Arg::Block { loc: loc.clone(), ty: any_ty });
        Rc::new(Prototype { loc, constraints: Vec::new(), args, retn: any_ty })
    }
}

} // verus!
