//! Unification of types: making two types the same by binding the type
//! variables they stand for, with the occurs check that keeps a variable
//! from being bound to a type that holds it.
//!
//! The checker walks types through references into its arena; what it
//! does is stated over a budget of steps. Where the walk would go on past
//! the budget, or where the checker gives up on a kind of type it does not
//! handle, the outcome is `None`, and the functions require it not to be.

use vstd::prelude::*;
use crate::ast::Loc;
use crate::text::str_eq;
use crate::typecheck::types::{type_var, unwrap_procarg0, Arg, Type, TypeEnv, TypeRef, TypeVarId, UnificationError};

verus! {

/// What `t` stands for after following bound variables at most `fuel`
/// times, in the arena `arena` with the bindings `inst`.
pub open spec fn prune_in(arena: Seq<Type>, inst: Seq<Option<TypeRef>>, t: TypeRef, fuel: nat) -> TypeRef
    decreases fuel,
{
    if fuel == 0 || t.0 >= arena.len() {
        t
    } else {
        match type_var(arena[t.0 as int]) {
            Some(id) => if id < inst.len() && inst[id as int] is Some {
                prune_in(arena, inst, inst[id as int]->0, (fuel - 1) as nat)
            } else {
                t
            },
            None => t,
        }
    }
}

/// What `t` stands for: bound variables followed, at most once for each
/// variable number handed out.
pub open spec fn pruned_in(arena: Seq<Type>, inst: Seq<Option<TypeRef>>, t: TypeRef) -> TypeRef {
    prune_in(arena, inst, t, inst.len())
}

/// Following bindings in an environment is following them in its arena
/// with its bindings.
proof fn lemma_prune_in(env: TypeEnv, t: TypeRef, fuel: nat)
    ensures
        env.prune_steps(t, fuel) == prune_in(env.types@, env.instances@, t, fuel),
    decreases fuel,
{
    if fuel > 0 && env.valid(t) {
        match type_var(env.at(t)) {
            Some(id) => if id < env.instances@.len() && env.instances@[id as int] is Some {
                lemma_prune_in(env, env.instances@[id as int]->0, (fuel - 1) as nat);
            },
            None => {},
        }
    }
}

/// The type an argument of a prototype has, seen through a
/// single-argument block wrapper; none for a wrapper inside a wrapper.
pub open spec fn arg_type(a: Arg) -> Option<TypeRef> {
    match unwrap_procarg0(a) {
        Arg::Procarg0 { .. } => None,
        Arg::Required { ty, .. } => Some(ty),
        Arg::Optional { ty, .. } => Some(ty),
        Arg::Rest { ty, .. } => Some(ty),
        Arg::Kwarg { ty, .. } => Some(ty),
        Arg::Kwoptarg { ty, .. } => Some(ty),
        Arg::Kwrest { ty, .. } => Some(ty),
        Arg::Block { ty, .. } => Some(ty),
    }
}

/// The element types of a tuple, in order.
pub open spec fn tuple_types(lead: Seq<TypeRef>, splat: Option<TypeRef>, post: Seq<TypeRef>) -> Seq<TypeRef> {
    lead + (match splat {
        Some(s) => seq![s],
        None => Seq::<TypeRef>::empty(),
    }) + post
}

/// The value types of the keywords of a keyword hash, in order.
pub open spec fn keyword_types(keywords: Seq<(String, TypeRef)>) -> Seq<TypeRef> {
    keywords.map_values(|k: (String, TypeRef)| k.1)
}

/// Whether the variable `id` occurs in what `t` stands for, looking at
/// most `fuel` levels deep; `None` where the look goes deeper, meets a
/// reference outside the arena, or meets what the checker refuses (a local
/// variable left after following bindings, a block wrapper in a wrapper).
pub open spec fn occurs_in(arena: Seq<Type>, inst: Seq<Option<TypeRef>>, t: TypeRef, id: TypeVarId, fuel: nat) -> Option<bool>
    decreases fuel, 1nat, 0nat,
{
    if fuel == 0 || t.0 >= arena.len() || pruned_in(arena, inst, t).0 >= arena.len() {
        None
    } else {
        match arena[pruned_in(arena, inst, t).0 as int] {
            Type::Var { id: v, .. } => Some(v == id),
            Type::Instance { type_parameters, .. } => occurs_any(arena, inst, type_parameters@, id, (fuel - 1) as nat),
            Type::Tuple { lead, splat, post, .. } => occurs_any(arena, inst, tuple_types(lead@, splat, post@), id, (fuel - 1) as nat),
            Type::Union { types: members, .. } => occurs_any(arena, inst, members@, id, (fuel - 1) as nat),
            Type::Any { .. } => Some(false),
            Type::TypeParameter { .. } => Some(false),
            Type::KeywordHash { keywords, .. } => occurs_any(arena, inst, keyword_types(keywords@), id, (fuel - 1) as nat),
            Type::Proc { proto, .. } => occurs_args(arena, inst, proto.args@, proto.retn, id, (fuel - 1) as nat),
            Type::LocalVariable { .. } => None,
        }
    }
}

/// Whether the variable `id` occurs in one of `ts`, looked at in order.
pub open spec fn occurs_any(arena: Seq<Type>, inst: Seq<Option<TypeRef>>, ts: Seq<TypeRef>, id: TypeVarId, fuel: nat) -> Option<bool>
    decreases fuel, 2nat, ts.len(),
{
    if ts.len() == 0 {
        Some(false)
    } else {
        match occurs_in(arena, inst, ts[0], id, fuel) {
            Some(false) => occurs_any(arena, inst, ts.skip(1), id, fuel),
            other => other,
        }
    }
}

/// Whether the variable `id` occurs in the types of the arguments `args`,
/// looked at in order, or else in the return type `retn`.
pub open spec fn occurs_args(arena: Seq<Type>, inst: Seq<Option<TypeRef>>, args: Seq<Arg>, retn: TypeRef, id: TypeVarId, fuel: nat) -> Option<bool>
    decreases fuel, 2nat, args.len(),
{
    if args.len() == 0 {
        occurs_in(arena, inst, retn, id, fuel)
    } else {
        match arg_type(args[0]) {
            None => None,
            Some(t) => match occurs_in(arena, inst, t, id, fuel) {
                Some(false) => occurs_args(arena, inst, args.skip(1), retn, id, fuel),
                other => other,
            },
        }
    }
}


/// Whether what `t` stands for is a variable bound to nothing.
pub open spec fn unresolved_in(arena: Seq<Type>, inst: Seq<Option<TypeRef>>, t: TypeRef) -> bool {
    arena[pruned_in(arena, inst, t).0 as int] is Var
}

/// Whether `t` and what it stands for lie in the arena.
pub open spec fn walkable(arena: Seq<Type>, inst: Seq<Option<TypeRef>>, t: TypeRef) -> bool {
    t.0 < arena.len() && pruned_in(arena, inst, t).0 < arena.len()
}

/// What unifying `t1` with `t2` gives under the bindings `inst`: whether
/// the two could be made the same, and the bindings after. `None` where
/// the walk goes deeper than `fuel`, leaves the arena, or meets what the
/// checker refuses: two procs, two keyword hashes, a local variable left
/// after following bindings, instances of one class with different
/// numbers of type parameters, or a union whose unresolved members fail
/// to unify.
pub open spec fn unify_in(arena: Seq<Type>, inst: Seq<Option<TypeRef>>, t1: TypeRef, t2: TypeRef, fuel: nat)
    -> Option<(Result<(), UnificationError>, Seq<Option<TypeRef>>)>
    decreases fuel, 0int, 0int,
{
    if fuel == 0 || !walkable(arena, inst, t1) || !walkable(arena, inst, t2) {
        None
    } else {
        let p1 = pruned_in(arena, inst, t1);
        let p2 = pruned_in(arena, inst, t2);
        let mismatch = Some((Err(UnificationError::Incompatible(p1, p2)), inst));
        match (arena[p1.0 as int], arena[p2.0 as int]) {
            (Type::Var { id: id1, .. }, b) => {
                if b matches Type::Var { id: id2, .. } && id1 == id2 {
                    Some((Ok(()), inst))
                } else {
                    match occurs_in(arena, inst, p2, id1, fuel) {
                        None => None,
                        Some(true) => mismatch,
                        Some(false) => if id1 < inst.len() && inst[id1 as int] is None {
                            Some((Ok(()), inst.update(id1 as int, Some(p2))))
                        } else {
                            None
                        },
                    }
                }
            },
            (_, Type::Var { .. }) => unify_in(arena, inst, p2, p1, (fuel - 1) as nat),
            (Type::Instance { class: c1, type_parameters: tp1, .. }, Type::Instance { class: c2, type_parameters: tp2, .. }) =>
                if c1 != c2 {
                    mismatch
                } else if tp1@.len() != tp2@.len() {
                    None
                } else {
                    unify_pairs(arena, inst, tp1@, tp2@, (fuel - 1) as nat)
                },
            (Type::Instance { .. }, _) => mismatch,
            (Type::Tuple { lead: l1, splat: s1, post: q1, .. }, Type::Tuple { lead: l2, splat: s2, post: q2, .. }) =>
                unify_tuples(arena, inst, p1, p2, l1@, s1, q1@, l2@, s2, q2@, (fuel - 1) as nat),
            (Type::Tuple { .. }, _) => mismatch,
            (Type::Union { types: u1, .. }, Type::Union { types: u2, .. }) =>
                if u1@.len() != u2@.len() {
                    mismatch
                } else {
                    unify_unions(arena, inst, p1, p2, u1@, u2@, (fuel - 1) as nat)
                },
            (Type::Union { .. }, _) => mismatch,
            (Type::Any { .. }, Type::Any { .. }) => Some((Ok(()), inst)),
            (Type::Any { .. }, _) => mismatch,
            (Type::TypeParameter { name: n1, .. }, Type::TypeParameter { name: n2, .. }) =>
                if n1@ == n2@ { Some((Ok(()), inst)) } else { mismatch },
            (Type::TypeParameter { .. }, _) => mismatch,
            (Type::Proc { .. }, Type::Proc { .. }) => None,
            (Type::Proc { .. }, _) => mismatch,
            (Type::KeywordHash { .. }, Type::KeywordHash { .. }) => None,
            (Type::KeywordHash { .. }, _) => mismatch,
            (Type::LocalVariable { .. }, _) => None,
        }
    }
}

/// Unifies `ts1` with `ts2` pair by pair, in order, up to the first pair
/// that cannot be made the same.
pub open spec fn unify_pairs(arena: Seq<Type>, inst: Seq<Option<TypeRef>>, ts1: Seq<TypeRef>, ts2: Seq<TypeRef>, fuel: nat)
    -> Option<(Result<(), UnificationError>, Seq<Option<TypeRef>>)>
    decreases fuel, 1int, ts1.len(),
{
    if ts1.len() == 0 || ts2.len() == 0 {
        Some((Ok(()), inst))
    } else {
        match unify_in(arena, inst, ts1[0], ts2[0], fuel) {
            None => None,
            Some((Ok(()), i1)) => unify_pairs(arena, i1, ts1.skip(1), ts2.skip(1), fuel),
            Some((Err(e), i1)) => Some((Err(e), i1)),
        }
    }
}

/// Unifies the tuples `p1` and `p2`: their leading elements pair by pair,
/// their splats, then their trailing elements. Different numbers of
/// leading or trailing elements, or a splat on one side only, make them
/// incompatible.
pub open spec fn unify_tuples(arena: Seq<Type>, inst: Seq<Option<TypeRef>>, p1: TypeRef, p2: TypeRef,
    l1: Seq<TypeRef>, s1: Option<TypeRef>, q1: Seq<TypeRef>, l2: Seq<TypeRef>, s2: Option<TypeRef>, q2: Seq<TypeRef>, fuel: nat)
    -> Option<(Result<(), UnificationError>, Seq<Option<TypeRef>>)>
    decreases fuel, 4int, 0int,
{
    if l1.len() != l2.len() {
        Some((Err(UnificationError::Incompatible(p1, p2)), inst))
    } else {
        match unify_pairs(arena, inst, l1, l2, fuel) {
            None => None,
            Some((r1, i1)) => {
                let after_splat = match (s1, s2) {
                    (Some(a), Some(b)) => if r1 is Ok { Some(unify_in(arena, i1, a, b, fuel)) } else { Some(Some((r1, i1))) },
                    (None, None) => Some(Some((r1, i1))),
                    _ => None,
                };
                match after_splat {
                    None => Some((Err(UnificationError::Incompatible(p1, p2)), i1)),
                    Some(None) => None,
                    Some(Some((r2, i2))) => if r2 is Err {
                        Some((r2, i2))
                    } else if q1.len() != q2.len() {
                        Some((Err(UnificationError::Incompatible(p1, p2)), i2))
                    } else {
                        unify_pairs(arena, i2, q1, q2, fuel)
                    },
                }
            },
        }
    }
}

/// The first pass over the members of two unions: each member of `ts2`
/// from `idx2` on that is not an unresolved variable is unified with the
/// first unmarked member of `ts1`, not an unresolved variable, that it
/// unifies with; both are then marked.
pub open spec fn resolved_pass(arena: Seq<Type>, inst: Seq<Option<TypeRef>>, ts1: Seq<TypeRef>, ts2: Seq<TypeRef>,
    idx2: int, m1: Seq<bool>, m2: Seq<bool>, fuel: nat) -> Option<(Seq<Option<TypeRef>>, Seq<bool>, Seq<bool>)>
    decreases fuel, 3int, ts2.len() - idx2,
{
    if idx2 < 0 || idx2 >= ts2.len() || idx2 >= m2.len() {
        Some((inst, m1, m2))
    } else if !walkable(arena, inst, ts2[idx2]) {
        None
    } else if unresolved_in(arena, inst, ts2[idx2]) {
        resolved_pass(arena, inst, ts1, ts2, idx2 + 1, m1, m2, fuel)
    } else {
        match resolved_match(arena, inst, ts1, ts2[idx2], 0, m1, fuel) {
            None => None,
            Some((i2, n1, found)) =>
                resolved_pass(arena, i2, ts1, ts2, idx2 + 1, n1, if found { m2.update(idx2, true) } else { m2 }, fuel),
        }
    }
}

/// The members of `ts1` from `idx1` on tried against `ty2` in the first
/// pass: the first one unmarked, not an unresolved variable, that unifies
/// with it is marked, and the result says whether there was one.
pub open spec fn resolved_match(arena: Seq<Type>, inst: Seq<Option<TypeRef>>, ts1: Seq<TypeRef>, ty2: TypeRef,
    idx1: int, m1: Seq<bool>, fuel: nat) -> Option<(Seq<Option<TypeRef>>, Seq<bool>, bool)>
    decreases fuel, 2int, ts1.len() - idx1,
{
    if idx1 < 0 || idx1 >= ts1.len() || idx1 >= m1.len() {
        Some((inst, m1, false))
    } else if m1[idx1] {
        resolved_match(arena, inst, ts1, ty2, idx1 + 1, m1, fuel)
    } else if !walkable(arena, inst, ts1[idx1]) {
        None
    } else if unresolved_in(arena, inst, ts1[idx1]) {
        resolved_match(arena, inst, ts1, ty2, idx1 + 1, m1, fuel)
    } else {
        match unify_in(arena, inst, ts1[idx1], ty2, fuel) {
            None => None,
            Some((Ok(()), i2)) => Some((i2, m1.update(idx1, true), true)),
            Some((Err(_), i2)) => resolved_match(arena, i2, ts1, ty2, idx1 + 1, m1, fuel),
        }
    }
}

/// The second pass over the members of two unions: each member of `ts2`
/// from `idx2` on still unmarked is unified with every member of `ts1`
/// still unmarked, and all of them are marked.
pub open spec fn unresolved_pass(arena: Seq<Type>, inst: Seq<Option<TypeRef>>, ts1: Seq<TypeRef>, ts2: Seq<TypeRef>,
    idx2: int, m1: Seq<bool>, m2: Seq<bool>, fuel: nat) -> Option<(Seq<Option<TypeRef>>, Seq<bool>, Seq<bool>)>
    decreases fuel, 3int, ts2.len() - idx2,
{
    if idx2 < 0 || idx2 >= ts2.len() || idx2 >= m2.len() {
        Some((inst, m1, m2))
    } else if m2[idx2] {
        unresolved_pass(arena, inst, ts1, ts2, idx2 + 1, m1, m2, fuel)
    } else {
        match unresolved_match(arena, inst, ts1, ts2[idx2], 0, m1, fuel) {
            None => None,
            Some((i2, n1, any)) =>
                unresolved_pass(arena, i2, ts1, ts2, idx2 + 1, n1, if any { m2.update(idx2, true) } else { m2 }, fuel),
        }
    }
}

/// The members of `ts1` from `idx1` on still unmarked, each unified with
/// `ty2` and marked in the second pass; the result says whether there was
/// one.
pub open spec fn unresolved_match(arena: Seq<Type>, inst: Seq<Option<TypeRef>>, ts1: Seq<TypeRef>, ty2: TypeRef,
    idx1: int, m1: Seq<bool>, fuel: nat) -> Option<(Seq<Option<TypeRef>>, Seq<bool>, bool)>
    decreases fuel, 2int, ts1.len() - idx1,
{
    if idx1 < 0 || idx1 >= ts1.len() || idx1 >= m1.len() {
        Some((inst, m1, false))
    } else if m1[idx1] {
        unresolved_match(arena, inst, ts1, ty2, idx1 + 1, m1, fuel)
    } else {
        match unify_in(arena, inst, ts1[idx1], ty2, fuel) {
            Some((Ok(()), i2)) => match unresolved_match(arena, i2, ts1, ty2, idx1 + 1, m1.update(idx1, true), fuel) {
                None => None,
                Some((i3, n1, _)) => Some((i3, n1, true)),
            },
            _ => None,
        }
    }
}

/// Unifies the unions `p1` and `p2`, with members `u1` and `u2` as many:
/// the two passes, then whether some member on each side was matched.
pub open spec fn unify_unions(arena: Seq<Type>, inst: Seq<Option<TypeRef>>, p1: TypeRef, p2: TypeRef,
    u1: Seq<TypeRef>, u2: Seq<TypeRef>, fuel: nat) -> Option<(Result<(), UnificationError>, Seq<Option<TypeRef>>)>
    decreases fuel, 4int, 0int,
{
    let unmarked = Seq::new(u1.len(), |i: int| false);
    match resolved_pass(arena, inst, u1, u2, 0, unmarked, unmarked, fuel) {
        None => None,
        Some((i1, m1, m2)) => match unresolved_pass(arena, i1, u1, u2, 0, m1, m2, fuel) {
            None => None,
            Some((i2, n1, n2)) => if n1.contains(true) && n2.contains(true) {
                Some((Ok(()), i2))
            } else {
                Some((Err(UnificationError::Incompatible(p1, p2)), i2))
            },
        },
    }
}

/// Unifying an unbound variable with a type that the variable does not
/// occur in, and that stands for no bound variable, succeeds and binds the
/// variable: afterwards the variable stands for what that type stands for.
pub proof fn lemma_unify_binds_variable(arena: Seq<Type>, inst: Seq<Option<TypeRef>>, v: TypeRef, t: TypeRef, fuel: nat)
    requires
        fuel > 0,
        v.0 < arena.len(),
        walkable(arena, inst, t),
        arena[v.0 as int] matches Type::Var { id, .. } && id < inst.len() && inst[id as int] is None
            && occurs_in(arena, inst, pruned_in(arena, inst, t), id, fuel) == Some(false)
            && (type_var(arena[pruned_in(arena, inst, t).0 as int]) matches Some(j)
                ==> j < inst.len() && inst[j as int] is None && j != id),
    ensures
        unify_in(arena, inst, v, t, fuel) matches Some((Ok(()), after))
            && pruned_in(arena, after, v) == pruned_in(arena, inst, t),
{
    let id = type_var(arena[v.0 as int])->0;
    let p2 = pruned_in(arena, inst, t);
    assert(pruned_in(arena, inst, v) == v);
    let after = inst.update(id as int, Some(p2));
    assert(unify_in(arena, inst, v, t, fuel) == Some((Ok::<(), UnificationError>(()), after)));
    let f = (inst.len() - 1) as nat;
    assert(prune_in(arena, after, p2, f) == p2) by {
        if f > 0 {
            match type_var(arena[p2.0 as int]) {
                Some(j) => assert(after[j as int] == inst[j as int]),
                None => {},
            }
        }
    }
    assert(pruned_in(arena, after, v) == prune_in(arena, after, p2, f));
}

/// `after` holds every binding of `before`, with as many variables.
pub open spec fn keeps_bindings(before: Seq<Option<TypeRef>>, after: Seq<Option<TypeRef>>) -> bool {
    &&& after.len() == before.len()
    &&& forall|i: int| 0 <= i < before.len() && (#[trigger] before[i]) is Some ==> after[i] == before[i]
}

/// Unification only adds bindings: every variable bound before stays
/// bound to the same type, and no variable is added or lost.
pub proof fn lemma_unify_keeps_bindings(arena: Seq<Type>, inst: Seq<Option<TypeRef>>, t1: TypeRef, t2: TypeRef, fuel: nat)
    ensures
        unify_in(arena, inst, t1, t2, fuel) matches Some((_, after)) ==> keeps_bindings(inst, after),
    decreases fuel, 0int, 0int,
{
    if fuel > 0 && walkable(arena, inst, t1) && walkable(arena, inst, t2) {
        let p1 = pruned_in(arena, inst, t1);
        let p2 = pruned_in(arena, inst, t2);
        match (arena[p1.0 as int], arena[p2.0 as int]) {
            (Type::Var { .. }, _) => {},
            (_, Type::Var { .. }) => lemma_unify_keeps_bindings(arena, inst, p2, p1, (fuel - 1) as nat),
            (Type::Instance { type_parameters: tp1, .. }, Type::Instance { type_parameters: tp2, .. }) =>
                lemma_pairs_keep_bindings(arena, inst, tp1@, tp2@, (fuel - 1) as nat),
            (Type::Tuple { lead: l1, splat: s1, post: q1, .. }, Type::Tuple { lead: l2, splat: s2, post: q2, .. }) =>
                lemma_tuples_keep_bindings(arena, inst, p1, p2, l1@, s1, q1@, l2@, s2, q2@, (fuel - 1) as nat),
            (Type::Union { types: u1, .. }, Type::Union { types: u2, .. }) =>
                lemma_unions_keep_bindings(arena, inst, p1, p2, u1@, u2@, (fuel - 1) as nat),
            _ => {},
        }
    }
}

proof fn lemma_pairs_keep_bindings(arena: Seq<Type>, inst: Seq<Option<TypeRef>>, ts1: Seq<TypeRef>, ts2: Seq<TypeRef>, fuel: nat)
    ensures
        unify_pairs(arena, inst, ts1, ts2, fuel) matches Some((_, after)) ==> keeps_bindings(inst, after),
    decreases fuel, 1int, ts1.len(),
{
    if ts1.len() > 0 && ts2.len() > 0 {
        lemma_unify_keeps_bindings(arena, inst, ts1[0], ts2[0], fuel);
        if let Some((Ok(()), i1)) = unify_in(arena, inst, ts1[0], ts2[0], fuel) {
            lemma_pairs_keep_bindings(arena, i1, ts1.skip(1), ts2.skip(1), fuel);
        }
    }
}

proof fn lemma_tuples_keep_bindings(arena: Seq<Type>, inst: Seq<Option<TypeRef>>, p1: TypeRef, p2: TypeRef,
    l1: Seq<TypeRef>, s1: Option<TypeRef>, q1: Seq<TypeRef>, l2: Seq<TypeRef>, s2: Option<TypeRef>, q2: Seq<TypeRef>, fuel: nat)
    ensures
        unify_tuples(arena, inst, p1, p2, l1, s1, q1, l2, s2, q2, fuel) matches Some((_, after)) ==> keeps_bindings(inst, after),
    decreases fuel, 4int, 0int,
{
    if l1.len() == l2.len() {
        lemma_pairs_keep_bindings(arena, inst, l1, l2, fuel);
        if let Some((r1, i1)) = unify_pairs(arena, inst, l1, l2, fuel) {
            if let (Some(a), Some(b)) = (s1, s2) {
                if r1 is Ok {
                    lemma_unify_keeps_bindings(arena, i1, a, b, fuel);
                    if let Some((_, i2)) = unify_in(arena, i1, a, b, fuel) {
                        lemma_pairs_keep_bindings(arena, i2, q1, q2, fuel);
                    }
                }
            } else if s1 is None && s2 is None {
                lemma_pairs_keep_bindings(arena, i1, q1, q2, fuel);
            }
        }
    }
}

proof fn lemma_unions_keep_bindings(arena: Seq<Type>, inst: Seq<Option<TypeRef>>, p1: TypeRef, p2: TypeRef,
    u1: Seq<TypeRef>, u2: Seq<TypeRef>, fuel: nat)
    ensures
        unify_unions(arena, inst, p1, p2, u1, u2, fuel) matches Some((_, after)) ==> keeps_bindings(inst, after),
    decreases fuel, 4int, 0int,
{
    let unmarked = Seq::new(u1.len(), |i: int| false);
    lemma_resolved_pass_keeps(arena, inst, u1, u2, 0, unmarked, unmarked, fuel);
    if let Some((i1, m1, m2)) = resolved_pass(arena, inst, u1, u2, 0, unmarked, unmarked, fuel) {
        lemma_unresolved_pass_keeps(arena, i1, u1, u2, 0, m1, m2, fuel);
    }
}

proof fn lemma_resolved_pass_keeps(arena: Seq<Type>, inst: Seq<Option<TypeRef>>, ts1: Seq<TypeRef>, ts2: Seq<TypeRef>,
    idx2: int, m1: Seq<bool>, m2: Seq<bool>, fuel: nat)
    ensures
        resolved_pass(arena, inst, ts1, ts2, idx2, m1, m2, fuel) matches Some((after, _, _)) ==> keeps_bindings(inst, after),
    decreases fuel, 3int, ts2.len() - idx2,
{
    if 0 <= idx2 < ts2.len() && idx2 < m2.len() && walkable(arena, inst, ts2[idx2]) {
        if unresolved_in(arena, inst, ts2[idx2]) {
            lemma_resolved_pass_keeps(arena, inst, ts1, ts2, idx2 + 1, m1, m2, fuel);
        } else {
            lemma_resolved_match_keeps(arena, inst, ts1, ts2[idx2], 0, m1, fuel);
            if let Some((i2, n1, found)) = resolved_match(arena, inst, ts1, ts2[idx2], 0, m1, fuel) {
                lemma_resolved_pass_keeps(arena, i2, ts1, ts2, idx2 + 1, n1, if found { m2.update(idx2, true) } else { m2 }, fuel);
            }
        }
    }
}

proof fn lemma_resolved_match_keeps(arena: Seq<Type>, inst: Seq<Option<TypeRef>>, ts1: Seq<TypeRef>, ty2: TypeRef,
    idx1: int, m1: Seq<bool>, fuel: nat)
    ensures
        resolved_match(arena, inst, ts1, ty2, idx1, m1, fuel) matches Some((after, _, _)) ==> keeps_bindings(inst, after),
    decreases fuel, 2int, ts1.len() - idx1,
{
    if 0 <= idx1 < ts1.len() && idx1 < m1.len() {
        if m1[idx1] {
            lemma_resolved_match_keeps(arena, inst, ts1, ty2, idx1 + 1, m1, fuel);
        } else if walkable(arena, inst, ts1[idx1]) {
            if unresolved_in(arena, inst, ts1[idx1]) {
                lemma_resolved_match_keeps(arena, inst, ts1, ty2, idx1 + 1, m1, fuel);
            } else {
                lemma_unify_keeps_bindings(arena, inst, ts1[idx1], ty2, fuel);
                if let Some((Err(_), i2)) = unify_in(arena, inst, ts1[idx1], ty2, fuel) {
                    lemma_resolved_match_keeps(arena, i2, ts1, ty2, idx1 + 1, m1, fuel);
                }
            }
        }
    }
}

proof fn lemma_unresolved_pass_keeps(arena: Seq<Type>, inst: Seq<Option<TypeRef>>, ts1: Seq<TypeRef>, ts2: Seq<TypeRef>,
    idx2: int, m1: Seq<bool>, m2: Seq<bool>, fuel: nat)
    ensures
        unresolved_pass(arena, inst, ts1, ts2, idx2, m1, m2, fuel) matches Some((after, _, _)) ==> keeps_bindings(inst, after),
    decreases fuel, 3int, ts2.len() - idx2,
{
    if 0 <= idx2 < ts2.len() && idx2 < m2.len() {
        if m2[idx2] {
            lemma_unresolved_pass_keeps(arena, inst, ts1, ts2, idx2 + 1, m1, m2, fuel);
        } else {
            lemma_unresolved_match_keeps(arena, inst, ts1, ts2[idx2], 0, m1, fuel);
            if let Some((i2, n1, any)) = unresolved_match(arena, inst, ts1, ts2[idx2], 0, m1, fuel) {
                lemma_unresolved_pass_keeps(arena, i2, ts1, ts2, idx2 + 1, n1, if any { m2.update(idx2, true) } else { m2 }, fuel);
            }
        }
    }
}

proof fn lemma_unresolved_match_keeps(arena: Seq<Type>, inst: Seq<Option<TypeRef>>, ts1: Seq<TypeRef>, ty2: TypeRef,
    idx1: int, m1: Seq<bool>, fuel: nat)
    ensures
        unresolved_match(arena, inst, ts1, ty2, idx1, m1, fuel) matches Some((after, _, _)) ==> keeps_bindings(inst, after),
    decreases fuel, 2int, ts1.len() - idx1,
{
    if 0 <= idx1 < ts1.len() && idx1 < m1.len() {
        if m1[idx1] {
            lemma_unresolved_match_keeps(arena, inst, ts1, ty2, idx1 + 1, m1, fuel);
        } else {
            lemma_unify_keeps_bindings(arena, inst, ts1[idx1], ty2, fuel);
            if let Some((Ok(()), i2)) = unify_in(arena, inst, ts1[idx1], ty2, fuel) {
                lemma_unresolved_match_keeps(arena, i2, ts1, ty2, idx1 + 1, m1.update(idx1, true), fuel);
            }
        }
    }
}

/// The element types of a tuple, in order.
fn tuple_types_of(lead: &Vec<TypeRef>, splat: Option<TypeRef>, post: &Vec<TypeRef>) -> (v: Vec<TypeRef>)
    ensures
        v@ == tuple_types(lead@, splat, post@),
{
    let mut v: Vec<TypeRef> = Vec::new();
    let mut i: usize = 0;
    while i < lead.len()
        invariant
            i <= lead@.len(),
            v@ == lead@.take(i as int),
        decreases lead.len() - i,
    {
        v.push(lead[i]);
        assert(lead@.take(i + 1) =~= lead@.take(i as int).push(lead@[i as int]));
        i = i + 1;
    }
    assert(lead@.take(i as int) =~= lead@);
    if let Some(s) = splat {
        v.push(s);
    }
    let ghost mid = v@;
    let mut j: usize = 0;
    while j < post.len()
        invariant
            j <= post@.len(),
            v@ == mid + post@.take(j as int),
        decreases post.len() - j,
    {
        v.push(post[j]);
        assert(post@.take(j + 1) =~= post@.take(j as int).push(post@[j as int]));
        j = j + 1;
    }
    assert(post@.take(j as int) =~= post@);
    assert(v@ =~= tuple_types(lead@, splat, post@));
    v
}

/// The value types of the keywords of a keyword hash, in order.
fn keyword_types_of(keywords: &Vec<(String, TypeRef)>) -> (v: Vec<TypeRef>)
    ensures
        v@ == keyword_types(keywords@),
{
    let mut v: Vec<TypeRef> = Vec::new();
    let mut i: usize = 0;
    while i < keywords.len()
        invariant
            i <= keywords@.len(),
            v@ == keyword_types(keywords@.take(i as int)),
        decreases keywords.len() - i,
    {
        v.push(keywords[i].1);
        assert(keywords@.take(i + 1) =~= keywords@.take(i as int).push(keywords@[i as int]));
        assert(v@ =~= keyword_types(keywords@.take(i + 1)));
        i = i + 1;
    }
    assert(keywords@.take(i as int) =~= keywords@);
    v
}

/// `b` is `a` with only its bindings changed, and well formed.
pub open spec fn same_but_bindings(a: TypeEnv, b: TypeEnv) -> bool {
    &&& b.wf()
    &&& b.types@ == a.types@
    &&& b.instances@.len() == a.instances@.len()
    &&& b.hash_class == a.hash_class
    &&& b.nil_class == a.nil_class
}

/// The references of `v`, copied.
fn copy_refs(v: &Vec<TypeRef>) -> (r: Vec<TypeRef>)
    ensures
        r@ == v@,
{
    let mut r: Vec<TypeRef> = Vec::new();
    let mut i: usize = 0;
    while i < v.len()
        invariant
            i <= v@.len(),
            r@ == v@.take(i as int),
        decreases v.len() - i,
    {
        r.push(v[i]);
        assert(v@.take(i + 1) =~= v@.take(i as int).push(v@[i as int]));
        i = i + 1;
    }
    assert(v@.take(i as int) =~= v@);
    r
}

/// `n` marks, none set.
fn unmarked(n: usize) -> (v: Vec<bool>)
    ensures
        v@ == Seq::new(n as nat, |i: int| false),
{
    let mut v: Vec<bool> = Vec::new();
    let mut i: usize = 0;
    while i < n
        invariant
            i <= n,
            v@ == Seq::new(i as nat, |k: int| false),
        decreases n - i,
    {
        v.push(false);
        assert(v@ =~= Seq::new((i + 1) as nat, |k: int| false));
        i = i + 1;
    }
    v
}

/// Whether some mark is set.
fn any_marked(v: &Vec<bool>) -> (r: bool)
    ensures
        r == v@.contains(true),
{
    let mut i: usize = 0;
    while i < v.len()
        invariant
            i <= v@.len(),
            forall|k: int| 0 <= k < i ==> !v@[k],
        decreases v.len() - i,
    {
        if v[i] {
            assert(v@[i as int] == true);
            return true;
        }
        i = i + 1;
    }
    false
}

impl TypeEnv {
    /// Makes `t1` and `t2` the same by binding the variables they stand
    /// for, walking at most `fuel` levels deep: a variable is bound to the
    /// other type unless it occurs in it; instances of one class unify
    /// their type parameters; tuples and unions unify their members;
    /// anything else must be of one kind and alike.
    fn unify_within(&mut self, t1: TypeRef, t2: TypeRef, fuel: usize) -> (r: Result<(), UnificationError>)
        requires
            old(self).wf(),
            unify_in(old(self).types@, old(self).instances@, t1, t2, fuel as nat) is Some,
        ensures
            same_but_bindings(*old(self), *final(self)),
            unify_in(old(self).types@, old(self).instances@, t1, t2, fuel as nat) == Some((r, final(self).instances@)),
        decreases fuel, 0int, 0int,
    {
        proof {
            lemma_prune_in(*self, t1, self.instances@.len());
            lemma_prune_in(*self, t2, self.instances@.len());
        }
        let p1 = self.prune(t1);
        let p2 = self.prune(t2);
        let var1 = match self.get(p1) {
            Type::Var { id, .. } => Some(*id),
            _ => None,
        };
        if let Some(id1) = var1 {
            let same = match self.get(p2) {
                Type::Var { id, .. } => *id == id1,
                _ => false,
            };
            if same {
                return Ok(());
            }
            if self.occurs(p2, id1, fuel) {
                return Err(UnificationError::Incompatible(p1, p2));
            }
            self.instances.set(id1, Some(p2));
            proof {
                assert forall|i: int| 0 <= i < self.instances@.len() implies
                    (#[trigger] self.instances@[i] matches Some(t) ==> t.0 < self.types@.len()) by {
                    if i != id1 {
                        assert(self.instances@[i] == old(self).instances@[i]);
                    }
                }
            }
            return Ok(());
        }
        let var2 = match self.get(p2) {
            Type::Var { .. } => true,
            _ => false,
        };
        if var2 {
            return self.unify_within(p2, p1, fuel - 1);
        }
        match self.get(p1) {
            Type::Instance { class, type_parameters, .. } => {
                let c1 = *class;
                let tp1 = copy_refs(type_parameters);
                let other = match self.get(p2) {
                    Type::Instance { class, type_parameters, .. } => Some((*class, copy_refs(type_parameters))),
                    _ => None,
                };
                match other {
                    Some((c2, tp2)) => {
                        if c1 != c2 || tp1.len() != tp2.len() {
                            Err(UnificationError::Incompatible(p1, p2))
                        } else {
                            self.unify_pairs(&tp1, &tp2, fuel - 1)
                        }
                    },
                    None => Err(UnificationError::Incompatible(p1, p2)),
                }
            },
            Type::Tuple { lead, splat, post, .. } => {
                let l1 = copy_refs(lead);
                let s1 = *splat;
                let q1 = copy_refs(post);
                let other = match self.get(p2) {
                    Type::Tuple { lead, splat, post, .. } => Some((copy_refs(lead), *splat, copy_refs(post))),
                    _ => None,
                };
                match other {
                    Some((l2, s2, q2)) => self.unify_tuples(p1, p2, &l1, s1, &q1, &l2, s2, &q2, fuel - 1),
                    None => Err(UnificationError::Incompatible(p1, p2)),
                }
            },
            Type::Union { types, .. } => {
                let u1 = copy_refs(types);
                let other = match self.get(p2) {
                    Type::Union { types, .. } => Some(copy_refs(types)),
                    _ => None,
                };
                match other {
                    Some(u2) => {
                        if u1.len() != u2.len() {
                            Err(UnificationError::Incompatible(p1, p2))
                        } else {
                            self.unify_unions(p1, p2, &u1, &u2, fuel - 1)
                        }
                    },
                    None => Err(UnificationError::Incompatible(p1, p2)),
                }
            },
            Type::Any { .. } => match self.get(p2) {
                Type::Any { .. } => Ok(()),
                _ => Err(UnificationError::Incompatible(p1, p2)),
            },
            Type::TypeParameter { name: n1, .. } => match self.get(p2) {
                Type::TypeParameter { name: n2, .. } => if str_eq(n1.as_str(), n2.as_str()) {
                    Ok(())
                } else {
                    Err(UnificationError::Incompatible(p1, p2))
                },
                _ => Err(UnificationError::Incompatible(p1, p2)),
            },
            _ => Err(UnificationError::Incompatible(p1, p2)),
        }
    }

    /// Unifies `ts1` with `ts2` pair by pair, stopping at the first pair
    /// that cannot be made the same.
    fn unify_pairs(&mut self, ts1: &Vec<TypeRef>, ts2: &Vec<TypeRef>, fuel: usize) -> (r: Result<(), UnificationError>)
        requires
            old(self).wf(),
            unify_pairs(old(self).types@, old(self).instances@, ts1@, ts2@, fuel as nat) is Some,
        ensures
            same_but_bindings(*old(self), *final(self)),
            unify_pairs(old(self).types@, old(self).instances@, ts1@, ts2@, fuel as nat) == Some((r, final(self).instances@)),
        decreases fuel, 1int, ts1@.len(),
    {
        let mut i: usize = 0;
        assert(ts1@.skip(0) =~= ts1@);
        assert(ts2@.skip(0) =~= ts2@);
        while i < ts1.len() && i < ts2.len()
            invariant
                same_but_bindings(*old(self), *self),
                i <= ts1@.len(),
                i <= ts2@.len(),
                unify_pairs(self.types@, self.instances@, ts1@.skip(i as int), ts2@.skip(i as int), fuel as nat)
                    == unify_pairs(old(self).types@, old(self).instances@, ts1@, ts2@, fuel as nat),
                unify_pairs(old(self).types@, old(self).instances@, ts1@, ts2@, fuel as nat) is Some,
            decreases ts1.len() - i,
        {
            assert(ts1@.skip(i as int).skip(1) =~= ts1@.skip(i + 1));
            assert(ts2@.skip(i as int).skip(1) =~= ts2@.skip(i + 1));
            match self.unify_within(ts1[i], ts2[i], fuel) {
                Ok(()) => {},
                Err(e) => {
                    return Err(e);
                },
            }
            i = i + 1;
        }
        Ok(())
    }

    /// Unifies two tuples: leading elements, splats, trailing elements.
    fn unify_tuples(&mut self, p1: TypeRef, p2: TypeRef, l1: &Vec<TypeRef>, s1: Option<TypeRef>, q1: &Vec<TypeRef>,
        l2: &Vec<TypeRef>, s2: Option<TypeRef>, q2: &Vec<TypeRef>, fuel: usize) -> (r: Result<(), UnificationError>)
        requires
            old(self).wf(),
            unify_tuples(old(self).types@, old(self).instances@, p1, p2, l1@, s1, q1@, l2@, s2, q2@, fuel as nat) is Some,
        ensures
            same_but_bindings(*old(self), *final(self)),
            unify_tuples(old(self).types@, old(self).instances@, p1, p2, l1@, s1, q1@, l2@, s2, q2@, fuel as nat)
                == Some((r, final(self).instances@)),
        decreases fuel, 4int, 0int,
    {
        if l1.len() != l2.len() {
            return Err(UnificationError::Incompatible(p1, p2));
        }
        let r1 = self.unify_pairs(l1, l2, fuel);
        let r2 = match (s1, s2) {
            (Some(a), Some(b)) => if r1.is_ok() {
                self.unify_within(a, b, fuel)
            } else {
                r1
            },
            (None, None) => r1,
            _ => {
                return Err(UnificationError::Incompatible(p1, p2));
            },
        };
        if r2.is_err() {
            return r2;
        }
        if q1.len() != q2.len() {
            return Err(UnificationError::Incompatible(p1, p2));
        }
        self.unify_pairs(q1, q2, fuel)
    }

    /// Unifies two unions with as many members: the two passes, then
    /// whether a member on each side was matched.
    fn unify_unions(&mut self, p1: TypeRef, p2: TypeRef, u1: &Vec<TypeRef>, u2: &Vec<TypeRef>, fuel: usize)
        -> (r: Result<(), UnificationError>)
        requires
            old(self).wf(),
            unify_unions(old(self).types@, old(self).instances@, p1, p2, u1@, u2@, fuel as nat) is Some,
        ensures
            same_but_bindings(*old(self), *final(self)),
            unify_unions(old(self).types@, old(self).instances@, p1, p2, u1@, u2@, fuel as nat) == Some((r, final(self).instances@)),
        decreases fuel, 4int, 0int,
    {
        let mut m1 = unmarked(u1.len());
        let mut m2 = unmarked(u1.len());
        self.resolved_pass(u1, u2, &mut m1, &mut m2, fuel);
        self.unresolved_pass(u1, u2, &mut m1, &mut m2, fuel);
        if any_marked(&m1) && any_marked(&m2) {
            Ok(())
        } else {
            Err(UnificationError::Incompatible(p1, p2))
        }
    }

    /// The first pass over the members of two unions.
    fn resolved_pass(&mut self, ts1: &Vec<TypeRef>, ts2: &Vec<TypeRef>, m1: &mut Vec<bool>, m2: &mut Vec<bool>, fuel: usize)
        requires
            old(self).wf(),
            resolved_pass(old(self).types@, old(self).instances@, ts1@, ts2@, 0, old(m1)@, old(m2)@, fuel as nat) is Some,
        ensures
            same_but_bindings(*old(self), *final(self)),
            resolved_pass(old(self).types@, old(self).instances@, ts1@, ts2@, 0, old(m1)@, old(m2)@, fuel as nat)
                == Some((final(self).instances@, final(m1)@, final(m2)@)),
        decreases fuel, 3int, ts2@.len(),
    {
        let mut idx2: usize = 0;
        while idx2 < ts2.len() && idx2 < m2.len()
            invariant
                same_but_bindings(*old(self), *self),
                idx2 <= ts2@.len(),
                resolved_pass(self.types@, self.instances@, ts1@, ts2@, idx2 as int, m1@, m2@, fuel as nat)
                    == resolved_pass(old(self).types@, old(self).instances@, ts1@, ts2@, 0, old(m1)@, old(m2)@, fuel as nat),
                resolved_pass(old(self).types@, old(self).instances@, ts1@, ts2@, 0, old(m1)@, old(m2)@, fuel as nat) is Some,
            decreases ts2.len() - idx2,
        {
            let ty2 = ts2[idx2];
            proof {
                lemma_prune_in(*self, ty2, self.instances@.len());
            }
            if self.is_unresolved_var(ty2) {
                idx2 = idx2 + 1;
                continue;
            }
            let found = self.resolved_match(ts1, ty2, m1, fuel);
            if found {
                m2.set(idx2, true);
            }
            idx2 = idx2 + 1;
        }
    }

    /// The members of `ts1` tried against `ty2` in the first pass.
    fn resolved_match(&mut self, ts1: &Vec<TypeRef>, ty2: TypeRef, m1: &mut Vec<bool>, fuel: usize) -> (found: bool)
        requires
            old(self).wf(),
            resolved_match(old(self).types@, old(self).instances@, ts1@, ty2, 0, old(m1)@, fuel as nat) is Some,
        ensures
            same_but_bindings(*old(self), *final(self)),
            resolved_match(old(self).types@, old(self).instances@, ts1@, ty2, 0, old(m1)@, fuel as nat)
                == Some((final(self).instances@, final(m1)@, found)),
        decreases fuel, 2int, ts1@.len(),
    {
        let mut idx1: usize = 0;
        while idx1 < ts1.len() && idx1 < m1.len()
            invariant
                same_but_bindings(*old(self), *self),
                idx1 <= ts1@.len(),
                resolved_match(self.types@, self.instances@, ts1@, ty2, idx1 as int, m1@, fuel as nat)
                    == resolved_match(old(self).types@, old(self).instances@, ts1@, ty2, 0, old(m1)@, fuel as nat),
                resolved_match(old(self).types@, old(self).instances@, ts1@, ty2, 0, old(m1)@, fuel as nat) is Some,
            decreases ts1.len() - idx1,
        {
            if m1[idx1] {
                idx1 = idx1 + 1;
                continue;
            }
            let ty1 = ts1[idx1];
            proof {
                lemma_prune_in(*self, ty1, self.instances@.len());
            }
            if self.is_unresolved_var(ty1) {
                idx1 = idx1 + 1;
                continue;
            }
            match self.unify_within(ty1, ty2, fuel) {
                Ok(()) => {
                    m1.set(idx1, true);
                    return true;
                },
                Err(_) => {},
            }
            idx1 = idx1 + 1;
        }
        false
    }

    /// The second pass over the members of two unions.
    fn unresolved_pass(&mut self, ts1: &Vec<TypeRef>, ts2: &Vec<TypeRef>, m1: &mut Vec<bool>, m2: &mut Vec<bool>, fuel: usize)
        requires
            old(self).wf(),
            unresolved_pass(old(self).types@, old(self).instances@, ts1@, ts2@, 0, old(m1)@, old(m2)@, fuel as nat) is Some,
        ensures
            same_but_bindings(*old(self), *final(self)),
            unresolved_pass(old(self).types@, old(self).instances@, ts1@, ts2@, 0, old(m1)@, old(m2)@, fuel as nat)
                == Some((final(self).instances@, final(m1)@, final(m2)@)),
        decreases fuel, 3int, ts2@.len(),
    {
        let mut idx2: usize = 0;
        while idx2 < ts2.len() && idx2 < m2.len()
            invariant
                same_but_bindings(*old(self), *self),
                idx2 <= ts2@.len(),
                unresolved_pass(self.types@, self.instances@, ts1@, ts2@, idx2 as int, m1@, m2@, fuel as nat)
                    == unresolved_pass(old(self).types@, old(self).instances@, ts1@, ts2@, 0, old(m1)@, old(m2)@, fuel as nat),
                unresolved_pass(old(self).types@, old(self).instances@, ts1@, ts2@, 0, old(m1)@, old(m2)@, fuel as nat) is Some,
            decreases ts2.len() - idx2,
        {
            if m2[idx2] {
                idx2 = idx2 + 1;
                continue;
            }
            let any = self.unresolved_match(ts1, ts2[idx2], m1, fuel);
            if any {
                m2.set(idx2, true);
            }
            idx2 = idx2 + 1;
        }
    }

    /// The unmarked members of `ts1` unified with `ty2` in the second pass.
    fn unresolved_match(&mut self, ts1: &Vec<TypeRef>, ty2: TypeRef, m1: &mut Vec<bool>, fuel: usize) -> (any: bool)
        requires
            old(self).wf(),
            unresolved_match(old(self).types@, old(self).instances@, ts1@, ty2, 0, old(m1)@, fuel as nat) is Some,
        ensures
            same_but_bindings(*old(self), *final(self)),
            unresolved_match(old(self).types@, old(self).instances@, ts1@, ty2, 0, old(m1)@, fuel as nat)
                == Some((final(self).instances@, final(m1)@, any)),
        decreases fuel, 2int, ts1@.len(),
    {
        let mut any = false;
        let mut idx1: usize = 0;
        while idx1 < ts1.len() && idx1 < m1.len()
            invariant
                same_but_bindings(*old(self), *self),
                idx1 <= ts1@.len(),
                ({
                    let rest = unresolved_match(self.types@, self.instances@, ts1@, ty2, idx1 as int, m1@, fuel as nat);
                    let whole = unresolved_match(old(self).types@, old(self).instances@, ts1@, ty2, 0, old(m1)@, fuel as nat);
                    &&& rest matches Some((ri, rm, rb))
                    &&& whole matches Some((wi, wm, wb))
                    &&& wi == ri
                    &&& wm == rm
                    &&& wb == (any || rb)
                }),
            decreases ts1.len() - idx1,
        {
            if m1[idx1] {
                idx1 = idx1 + 1;
                continue;
            }
            match self.unify_within(ts1[idx1], ty2, fuel) {
                Ok(()) => {
                    m1.set(idx1, true);
                    any = true;
                },
                Err(_) => {
                    return false;
                },
            }
            idx1 = idx1 + 1;
        }
        any
    }

    /// A fresh variable placed at `loc` that stands for what `ty` stands
    /// for.
    pub fn update_loc(&mut self, ty: TypeRef, loc: Loc) -> (r: TypeRef)
        requires
            old(self).wf(),
            old(self).instances@.len() < usize::MAX,
            old(self).types@.len() + 1 < usize::MAX,
            unify_in(old(self).types@.push(Type::Var { loc, id: old(self).instances@.len() as usize }),
                old(self).instances@.push(None), TypeRef(old(self).types@.len() as usize), ty,
                (old(self).types@.len() + 2) as nat) matches Some((Ok(()), _)),
        ensures
            r.0 == old(self).types@.len(),
            final(self).wf(),
            final(self).types@ == old(self).types@.push(Type::Var { loc, id: old(self).instances@.len() as usize }),
            unify_in(old(self).types@.push(Type::Var { loc, id: old(self).instances@.len() as usize }),
                old(self).instances@.push(None), r, ty, (old(self).types@.len() + 2) as nat)
                == Some((Ok::<(), UnificationError>(()), final(self).instances@)),
            final(self).hash_class == old(self).hash_class,
            final(self).nil_class == old(self).nil_class,
    {
        let tyvar = self.new_var(loc);
        let _ = self.unify(tyvar, ty);
        tyvar
    }

    /// Makes `t1` and `t2` the same by binding the variables they stand
    /// for, walking one level deeper for each type of the arena at most.
    pub fn unify(&mut self, t1: TypeRef, t2: TypeRef) -> (r: Result<(), UnificationError>)
        requires
            old(self).wf(),
            old(self).types@.len() < usize::MAX,
            unify_in(old(self).types@, old(self).instances@, t1, t2, (old(self).types@.len() + 1) as nat) is Some,
        ensures
            same_but_bindings(*old(self), *final(self)),
            unify_in(old(self).types@, old(self).instances@, t1, t2, (old(self).types@.len() + 1) as nat)
                == Some((r, final(self).instances@)),
    {
        let fuel = self.types.len() + 1;
        self.unify_within(t1, t2, fuel)
    }
    /// Whether the variable `id` occurs in what `t` stands for, looking at
    /// most `fuel` levels deep.
    fn occurs(&self, t: TypeRef, id: TypeVarId, fuel: usize) -> (r: bool)
        requires
            self.wf(),
            occurs_in(self.types@, self.instances@, t, id, fuel as nat) is Some,
        ensures
            r == occurs_in(self.types@, self.instances@, t, id, fuel as nat)->0,
        decreases fuel, 1nat, 0nat,
    {
        let p = self.prune(t);
        proof {
            lemma_prune_in(*self, t, self.instances@.len());
        }
        match self.get(p) {
            Type::Var { id: v, .. } => *v == id,
            Type::Instance { type_parameters, .. } => self.occurs_list(type_parameters, id, fuel - 1),
            Type::Tuple { lead, splat, post, .. } => {
                let ts = tuple_types_of(lead, *splat, post);
                self.occurs_list(&ts, id, fuel - 1)
            },
            Type::Union { types, .. } => self.occurs_list(types, id, fuel - 1),
            Type::Any { .. } => false,
            Type::TypeParameter { .. } => false,
            Type::KeywordHash { keywords, .. } => {
                let ts = keyword_types_of(keywords);
                self.occurs_list(&ts, id, fuel - 1)
            },
            Type::Proc { proto, .. } => self.occurs_in_args(&proto.args, proto.retn, id, fuel - 1),
            Type::LocalVariable { .. } => false,
        }
    }

    /// Whether the variable `id` occurs in one of `ts`.
    fn occurs_list(&self, ts: &Vec<TypeRef>, id: TypeVarId, fuel: usize) -> (r: bool)
        requires
            self.wf(),
            occurs_any(self.types@, self.instances@, ts@, id, fuel as nat) is Some,
        ensures
            r == occurs_any(self.types@, self.instances@, ts@, id, fuel as nat)->0,
        decreases fuel, 2nat, ts@.len(),
    {
        let mut i: usize = 0;
        assert(ts@.skip(0) =~= ts@);
        while i < ts.len()
            invariant
                self.wf(),
                i <= ts@.len(),
                occurs_any(self.types@, self.instances@, ts@.skip(i as int), id, fuel as nat) == occurs_any(self.types@, self.instances@, ts@, id, fuel as nat),
                occurs_any(self.types@, self.instances@, ts@, id, fuel as nat) is Some,
            decreases ts.len() - i,
        {
            let ghost rest = ts@.skip(i as int);
            assert(rest[0] == ts@[i as int]);
            assert(rest.skip(1) =~= ts@.skip(i + 1));
            if self.occurs(ts[i], id, fuel) {
                return true;
            }
            i = i + 1;
        }
        assert(ts@.skip(i as int) =~= Seq::<TypeRef>::empty());
        false
    }

    /// Whether the variable `id` occurs in the types of `args` or in
    /// `retn`.
    fn occurs_in_args(&self, args: &Vec<Arg>, retn: TypeRef, id: TypeVarId, fuel: usize) -> (r: bool)
        requires
            self.wf(),
            occurs_args(self.types@, self.instances@, args@, retn, id, fuel as nat) is Some,
        ensures
            r == occurs_args(self.types@, self.instances@, args@, retn, id, fuel as nat)->0,
        decreases fuel, 2nat, args@.len(),
    {
        let mut i: usize = 0;
        assert(args@.skip(0) =~= args@);
        while i < args.len()
            invariant
                self.wf(),
                i <= args@.len(),
                occurs_args(self.types@, self.instances@, args@.skip(i as int), retn, id, fuel as nat) == occurs_args(self.types@, self.instances@, args@, retn, id, fuel as nat),
                occurs_args(self.types@, self.instances@, args@, retn, id, fuel as nat) is Some,
            decreases args.len() - i,
        {
            let ghost rest = args@.skip(i as int);
            assert(rest[0] == args@[i as int]);
            assert(rest.skip(1) =~= args@.skip(i + 1));
            let ty = match args[i].unwrap_procarg0() {
                Arg::Required { ty, .. } => *ty,
                Arg::Optional { ty, .. } => *ty,
                Arg::Rest { ty, .. } => *ty,
                Arg::Kwarg { ty, .. } => *ty,
                Arg::Kwoptarg { ty, .. } => *ty,
                Arg::Kwrest { ty, .. } => *ty,
                Arg::Block { ty, .. } => *ty,
                Arg::Procarg0 { .. } => {
                    return false;
                },
            };
            if self.occurs(ty, id, fuel) {
                return true;
            }
            i = i + 1;
        }
        assert(args@.skip(i as int) =~= Seq::<Arg>::empty());
        self.occurs(retn, id, fuel)
    }
}

/// Two type parameters unify exactly when they have the same name, and
/// unifying them binds nothing; with different names they are reported
/// as incompatible.
pub proof fn lemma_type_parameters_unify_by_name(arena: Seq<Type>, inst: Seq<Option<TypeRef>>, t1: TypeRef, t2: TypeRef, fuel: nat)
    requires
        fuel > 0,
        t1.0 < arena.len(),
        t2.0 < arena.len(),
        arena[t1.0 as int] is TypeParameter,
        arena[t2.0 as int] is TypeParameter,
    ensures
        unify_in(arena, inst, t1, t2, fuel) == Some((
            if arena[t1.0 as int]->TypeParameter_name@ == arena[t2.0 as int]->TypeParameter_name@ {
                Ok::<(), UnificationError>(())
            } else {
                Err(UnificationError::Incompatible(t1, t2))
            },
            inst,
        )),
{
    assert(prune_in(arena, inst, t1, inst.len()) == t1);
    assert(prune_in(arena, inst, t2, inst.len()) == t2);
}

/// Instances of two different classes never unify: they are reported as
/// incompatible, and nothing is bound.
pub proof fn lemma_different_classes_incompatible(arena: Seq<Type>, inst: Seq<Option<TypeRef>>, t1: TypeRef, t2: TypeRef, fuel: nat)
    requires
        fuel > 0,
        t1.0 < arena.len(),
        t2.0 < arena.len(),
        arena[t1.0 as int] is Instance,
        arena[t2.0 as int] is Instance,
        arena[t1.0 as int]->Instance_class != arena[t2.0 as int]->Instance_class,
    ensures
        unify_in(arena, inst, t1, t2, fuel) == Some((Err::<(), UnificationError>(UnificationError::Incompatible(t1, t2)), inst)),
{
    assert(prune_in(arena, inst, t1, inst.len()) == t1);
    assert(prune_in(arena, inst, t2, inst.len()) == t2);
}

} // verus!
