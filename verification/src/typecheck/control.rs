//! The ways evaluating an expression can end: with a value and the local
//! variables after it, by returning, by raising, by `redo` or `retry`, or
//! in more than one of these ways at once.

use std::rc::Rc;
use vstd::prelude::*;
use crate::typecheck::locals::Locals;
use crate::typecheck::types::TypeRef;

verus! {

/// One way evaluation can end.
pub enum ComputationKind {
    Result(TypeRef, Locals),
    Return(TypeRef),
    Raise(Locals),
    Redo,
    Retry,
    Divergent(Computation, Computation),
}

/// How evaluating an expression ends, shared between the places that
/// hold it.
pub struct Computation(pub Rc<ComputationKind>);

/// Whether some way `c` ends gives a value.
pub open spec fn gives_result(c: Computation) -> bool
    decreases c,
{
    match *c.0 {
        ComputationKind::Result(..) => true,
        ComputationKind::Divergent(a, b) => gives_result(a) || gives_result(b),
        _ => false,
    }
}

/// Both `a` and `b` where there are both, else the one there is.
pub open spec fn either_way(a: Option<Computation>, b: Option<Computation>) -> Option<Computation> {
    match (a, b) {
        (Some(x), Some(y)) => Some(Computation(Rc::new(ComputationKind::Divergent(x, y)))),
        (Some(x), None) => Some(x),
        (None, Some(y)) => Some(y),
        (None, None) => None,
    }
}

/// `r` is `c` with each way that gives a value replaced by what `f` may
/// give for that value's type and locals, the other ways kept.
pub open spec fn sequenced<F: Fn(TypeRef, Locals) -> Computation>(c: Computation, r: Computation, f: F) -> bool
    decreases c,
{
    match *c.0 {
        ComputationKind::Result(ty, locals) => call_ensures(f, (ty, locals), r),
        ComputationKind::Divergent(a, b) => match *r.0 {
            ComputationKind::Divergent(ra, rb) => sequenced(a, ra, f) && sequenced(b, rb, f),
            _ => false,
        },
        _ => r == c,
    }
}

/// `r` is `c` with the locals of each way that gives a value or raises
/// replaced by what `f` may give for them, all else kept.
pub open spec fn locals_mapped<F: Fn(Locals) -> Locals>(c: Computation, r: Computation, f: F) -> bool
    decreases c,
{
    match *c.0 {
        ComputationKind::Result(ty, locals) => (*r.0) matches ComputationKind::Result(rty, rl)
            && rty == ty && call_ensures(f, (locals,), rl),
        ComputationKind::Raise(locals) => (*r.0) matches ComputationKind::Raise(rl) && call_ensures(f, (locals,), rl),
        ComputationKind::Divergent(a, b) => match *r.0 {
            ComputationKind::Divergent(ra, rb) => locals_mapped(a, ra, f) && locals_mapped(b, rb, f),
            _ => false,
        },
        _ => r == c,
    }
}

impl Clone for Computation {
    fn clone(&self) -> (r: Self)
        ensures
            r == *self,
    {
        Computation(Rc::clone(&self.0))
    }
}

impl Computation {
    /// Ends with a value of type `ty` and the locals `locals`.
    pub fn result(ty: TypeRef, locals: Locals) -> (r: Computation)
        ensures
            *r.0 == ComputationKind::Result(ty, locals),
    {
        Computation(Rc::new(ComputationKind::Result(ty, locals)))
    }

    /// Ends by returning a value of type `ty`.
    pub fn return_(ty: TypeRef) -> (r: Computation)
        ensures
            *r.0 == ComputationKind::Return(ty),
    {
        Computation(Rc::new(ComputationKind::Return(ty)))
    }

    /// Ends by raising, with the locals `locals`.
    pub fn raise(locals: Locals) -> (r: Computation)
        ensures
            *r.0 == ComputationKind::Raise(locals),
    {
        Computation(Rc::new(ComputationKind::Raise(locals)))
    }

    /// Ends by `redo`.
    pub fn redo() -> (r: Computation)
        ensures
            *r.0 == ComputationKind::Redo,
    {
        Computation(Rc::new(ComputationKind::Redo))
    }

    /// Ends by `retry`.
    pub fn retry() -> (r: Computation)
        ensures
            *r.0 == ComputationKind::Retry,
    {
        Computation(Rc::new(ComputationKind::Retry))
    }

    /// Ends either as `a` or as `b`.
    pub fn divergent(a: Computation, b: Computation) -> (r: Computation)
        ensures
            *r.0 == ComputationKind::Divergent(a, b),
    {
        Computation(Rc::new(ComputationKind::Divergent(a, b)))
    }

    /// Ends as `a` or as `b`, where there are both; else as the one there
    /// is.
    pub fn divergent_option(a: Option<Computation>, b: Option<Computation>) -> (r: Option<Computation>)
        ensures
            r == either_way(a, b),
    {
        match (a, b) {
            (Some(a), Some(b)) => Some(Computation::divergent(a, b)),
            (Some(a), None) => Some(a),
            (None, Some(b)) => Some(b),
            (None, None) => None,
        }
    }

    /// Goes on from each way this gives a value with `f`, which gets the
    /// value's type and the locals; the other ways stay as they are.
    pub fn seq<F: Fn(TypeRef, Locals) -> Computation>(&self, f: &F) -> (r: Computation)
        requires
            forall|ty: TypeRef, locals: Locals| call_requires(*f, (ty, locals)),
        ensures
            sequenced(*self, r, *f),
        decreases *self,
    {
        match &*self.0 {
            ComputationKind::Result(ty, locals) => f(*ty, locals.clone()),
            ComputationKind::Divergent(a, b) => Computation::divergent(a.seq(f), b.seq(f)),
            _ => self.clone(),
        }
    }

    /// The locals of each way this gives a value or raises, passed through
    /// `f`.
    pub fn map_locals<F: Fn(Locals) -> Locals>(&self, f: &F) -> (r: Computation)
        requires
            forall|locals: Locals| call_requires(*f, (locals,)),
        ensures
            locals_mapped(*self, r, *f),
        decreases *self,
    {
        match &*self.0 {
            ComputationKind::Result(ty, locals) => Computation::result(*ty, f(locals.clone())),
            ComputationKind::Raise(locals) => Computation::raise(f(locals.clone())),
            ComputationKind::Divergent(a, b) => Computation::divergent(a.map_locals(f), b.map_locals(f)),
            _ => self.clone(),
        }
    }

    /// The same computation, with `next` taken as giving its value.
    pub fn capture_next(&self) -> (r: Computation)
        ensures
            r == *self,
    {
        Computation(Rc::clone(&self.0))
    }

    /// Whether some way this ends gives a value.
    pub fn has_results(&self) -> (r: bool)
        ensures
            r == gives_result(*self),
        decreases *self,
    {
        match &*self.0 {
            ComputationKind::Result(..) => true,
            ComputationKind::Divergent(a, b) => a.has_results() || b.has_results(),
            _ => false,
        }
    }
}

/// How a condition ends: the ways it gives a true value, the ways it gives
/// a false one, and the ways it gives none.
pub struct ComputationPredicate {
    pub truthy: Option<Computation>,
    pub falsy: Option<Computation>,
    pub non_result: Option<Computation>,
}

impl ComputationPredicate {
    /// A condition that gives a value: true as `truthy`, false as `falsy`.
    pub fn result(truthy: Option<Computation>, falsy: Option<Computation>) -> (r: ComputationPredicate)
        ensures
            r.truthy == truthy,
            r.falsy == falsy,
            r.non_result is None,
    {
        ComputationPredicate { truthy, falsy, non_result: None }
    }

    /// A condition that gives no value.
    pub fn non_result(comp: Computation) -> (r: ComputationPredicate)
        ensures
            r.truthy is None,
            r.falsy is None,
            r.non_result == Some(comp),
    {
        ComputationPredicate { truthy: None, falsy: None, non_result: Some(comp) }
    }

    /// A condition that ends as this one or as `other`: each way is either
    /// of the two.
    pub fn append(self, other: ComputationPredicate) -> (r: ComputationPredicate)
        ensures
            r.truthy == either_way(self.truthy, other.truthy),
            r.falsy == either_way(self.falsy, other.falsy),
            r.non_result == either_way(self.non_result, other.non_result),
    {
        ComputationPredicate {
            truthy: Computation::divergent_option(self.truthy, other.truthy),
            falsy: Computation::divergent_option(self.falsy, other.falsy),
            non_result: Computation::divergent_option(self.non_result, other.non_result),
        }
    }
}

/// What evaluating an expression gave: a value and the locals after it,
/// a value together with other ways it ended, or no value.
pub enum EvalResult<T> {
    Value(T, Locals),
    Both(T, Locals, Computation),
    NonResult(Computation),
}

/// What evaluating on from a value gives, when the evaluation that gave
/// the value also ended in the other ways `c`.
pub open spec fn with_other_ways<U>(x: EvalResult<U>, c: Computation) -> EvalResult<U> {
    match x {
        EvalResult::Value(v, l) => EvalResult::Both(v, l, c),
        EvalResult::Both(v, l, c2) => EvalResult::Both(v, l, Computation(Rc::new(ComputationKind::Divergent(c, c2)))),
        EvalResult::NonResult(c2) => EvalResult::NonResult(Computation(Rc::new(ComputationKind::Divergent(c, c2)))),
    }
}

impl<T> EvalResult<T> {
    /// The value passed through `f`; locals and other ways kept.
    pub fn map<U, F: FnOnce(T) -> U>(self, f: F) -> (r: EvalResult<U>)
        requires
            match self {
                EvalResult::Value(v, _) => call_requires(f, (v,)),
                EvalResult::Both(v, _, _) => call_requires(f, (v,)),
                EvalResult::NonResult(_) => true,
            },
        ensures
            match self {
                EvalResult::Value(v, l) => r matches EvalResult::Value(u, rl) && rl == l && call_ensures(f, (v,), u),
                EvalResult::Both(v, l, c) => r matches EvalResult::Both(u, rl, rc) && rl == l && rc == c
                    && call_ensures(f, (v,), u),
                EvalResult::NonResult(c) => r matches EvalResult::NonResult(rc) && rc == c,
            },
    {
        match self {
            EvalResult::Value(val, locals) => EvalResult::Value(f(val), locals),
            EvalResult::Both(val, locals, non_result) => EvalResult::Both(f(val), locals, non_result),
            EvalResult::NonResult(non_result) => EvalResult::NonResult(non_result),
        }
    }

    /// Goes on from the value and its locals with `f`; where this also
    /// ended in other ways, the result ends in those ways too.
    pub fn and_then<U, F: FnOnce(T, Locals) -> EvalResult<U>>(self, f: F) -> (r: EvalResult<U>)
        requires
            match self {
                EvalResult::Value(v, l) => call_requires(f, (v, l)),
                EvalResult::Both(v, l, _) => call_requires(f, (v, l)),
                EvalResult::NonResult(_) => true,
            },
        ensures
            match self {
                EvalResult::Value(v, l) => call_ensures(f, (v, l), r),
                EvalResult::Both(v, l, c) => exists|x: EvalResult<U>| call_ensures(f, (v, l), x)
                    && r == #[trigger] with_other_ways(x, c),
                EvalResult::NonResult(c) => r matches EvalResult::NonResult(rc) && rc == c,
            },
    {
        match self {
            EvalResult::Value(val, locals) => f(val, locals),
            EvalResult::Both(val, locals, non_result) => {
                let x = f(val, locals);
                let ghost xv = x;
                let r = match x {
                    EvalResult::Value(val, locals) => EvalResult::Both(val, locals, non_result),
                    EvalResult::Both(val, locals, other) => EvalResult::Both(val, locals, Computation::divergent(non_result, other)),
                    EvalResult::NonResult(other) => EvalResult::NonResult(Computation::divergent(non_result, other)),
                };
                assert(r == with_other_ways(xv, non_result));
                r
            },
            EvalResult::NonResult(non_result) => EvalResult::NonResult(non_result),
        }
    }

    /// Goes on from the value and its locals with `f` to a computation;
    /// where this also ended in other ways, the result ends in those too.
    pub fn and_then_comp<F: FnOnce(T, Locals) -> Computation>(self, f: F) -> (r: Computation)
        requires
            match self {
                EvalResult::Value(v, l) => call_requires(f, (v, l)),
                EvalResult::Both(v, l, _) => call_requires(f, (v, l)),
                EvalResult::NonResult(_) => true,
            },
        ensures
            match self {
                EvalResult::Value(v, l) => call_ensures(f, (v, l), r),
                EvalResult::Both(v, l, c) => (*r.0) matches ComputationKind::Divergent(rc, x) && rc == c
                    && call_ensures(f, (v, l), x),
                EvalResult::NonResult(c) => r == c,
            },
    {
        match self {
            EvalResult::Value(val, locals) => f(val, locals),
            EvalResult::Both(val, locals, non_result) => Computation::divergent(non_result, f(val, locals)),
            EvalResult::NonResult(non_result) => non_result,
        }
    }
}

impl EvalResult<TypeRef> {
    /// The result as a computation.
    pub fn into_computation(self) -> (r: Computation)
        ensures
            match self {
                EvalResult::Value(ty, locals) => *r.0 == ComputationKind::Result(ty, locals),
                EvalResult::Both(ty, locals, comp) => *r.0 == ComputationKind::Divergent(
                    Computation(Rc::new(ComputationKind::Result(ty, locals))), comp),
                EvalResult::NonResult(comp) => r == comp,
            },
    {
        match self {
            EvalResult::Value(ty, locals) => Computation::result(ty, locals),
            EvalResult::Both(ty, locals, comp) => Computation::divergent(Computation::result(ty, locals), comp),
            EvalResult::NonResult(comp) => comp,
        }
    }
}

} // verus!
