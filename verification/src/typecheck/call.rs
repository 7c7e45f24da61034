//! Matching the arguments of a call against the prototype of the method.
//!
//! The prototype's keyword arguments are matched first, against a keyword
//! hash passed last; then the required arguments from the front and from
//! the back, the optional ones, and last a rest argument. What is left over
//! on either side is an error.

use vstd::prelude::*;
use crate::ast::{join_locs, Loc};
use crate::slice_util::SliceView;
use crate::text::str_eq;
use crate::object::ObjectGraph;
use crate::typecheck::types::{arg_loc, hash_like, splat_ty, type_loc, unwrap_procarg0, Arg, SplatArg, Type, TypeEnv, TypeRef};

verus! {

broadcast use vstd::string::group_string_axioms;

/// What is wrong with the arguments of a call.
pub enum ArgError {
    TooFewArguments,
    TooManyArguments(Loc),
    MissingKeyword(String),
    UnknownKeyword(String),
    UnexpectedSplat(Loc),
}

/// The pairs of prototype type and passed type that must agree, and the
/// errors found.
pub struct MatchResult {
    pub matches: Vec<(TypeRef, TypeRef)>,
    pub errors: Vec<ArgError>,
}

/// The prototype arguments, the passed arguments, the pairs matched and
/// the errors found, at some point of the matching.
pub struct ArgState {
    pub p: Seq<Arg>,
    pub a: Seq<SplatArg>,
    pub m: Seq<(TypeRef, TypeRef)>,
    pub e: Seq<ArgError>,
}

// ---------------------------------------------------------------------------
// Positional arguments

/// The elements of `s` in the order they are taken: from the front, or from
/// the back when `rev`.
pub open spec fn taken<T>(s: Seq<T>, rev: bool) -> Seq<T> {
    if rev { s.reverse() } else { s }
}

/// The type of a required (or, when `opt`, an optional) prototype argument.
pub open spec fn positional(a: Arg, opt: bool) -> Option<TypeRef> {
    match unwrap_procarg0(a) {
        Arg::Required { ty, .. } => if opt { None } else { Some(ty) },
        Arg::Optional { ty, .. } => if opt { Some(ty) } else { None },
        _ => None,
    }
}

/// Matches passed arguments one by one with the required (or optional)
/// prototype arguments that come first in `p`; a splat is matched with each
/// of them and stays.
pub open spec fn positional_phase(
    p: Seq<Arg>,
    a: Seq<SplatArg>,
    m: Seq<(TypeRef, TypeRef)>,
    opt: bool,
) -> (Seq<Arg>, Seq<SplatArg>, Seq<(TypeRef, TypeRef)>)
    decreases p.len(),
{
    if a.len() > 0 && p.len() > 0 && positional(p[0], opt) is Some {
        let ty = positional(p[0], opt)->0;
        match a[0] {
            SplatArg::Value(t) => positional_phase(p.drop_first(), a.drop_first(), m.push((ty, t)), opt),
            SplatArg::Splat(t) => positional_phase(p.drop_first(), a, m.push((ty, t)), opt),
        }
    } else {
        (p, a, m)
    }
}

/// `p` without the optional arguments it starts with.
pub open spec fn drop_optionals(p: Seq<Arg>) -> Seq<Arg>
    decreases p.len(),
{
    if p.len() > 0 && p[0] is Optional {
        drop_optionals(p.drop_first())
    } else {
        p
    }
}

/// A rest argument that comes first in `p` takes all passed arguments.
pub open spec fn rest_phase(
    p: Seq<Arg>,
    a: Seq<SplatArg>,
    m: Seq<(TypeRef, TypeRef)>,
) -> (Seq<Arg>, Seq<SplatArg>, Seq<(TypeRef, TypeRef)>) {
    if p.len() > 0 && p[0] is Rest {
        let ty = p[0]->Rest_ty;
        (p.drop_first(), seq![], m + a.map_values(|x: SplatArg| (ty, splat_ty(x))))
    } else {
        (p, a, m)
    }
}

// ---------------------------------------------------------------------------
// Keyword arguments

/// The number of required arguments in `p`.
pub open spec fn count_required(p: Seq<Arg>) -> nat
    decreases p.len(),
{
    if p.len() == 0 {
        0
    } else {
        count_required(p.drop_last()) + if p.last() is Required { 1nat } else { 0nat }
    }
}

/// Whether `a` is a keyword argument of some kind.
pub open spec fn is_keyword_arg(a: Arg) -> bool {
    a is Kwarg || a is Kwoptarg || a is Kwrest
}

/// No two entries of a keyword table have the same name.
pub open spec fn kw_distinct(m: Seq<(String, TypeRef)>) -> bool {
    forall|i: int, j: int| 0 <= i < j < m.len() ==> (#[trigger] m[i]).0@ != (#[trigger] m[j]).0@
}

/// The place of `name` in a keyword table, if it is there.
pub open spec fn kw_find(m: Seq<(String, TypeRef)>, name: Seq<char>) -> Option<int> {
    if exists|i: int| 0 <= i < m.len() && (#[trigger] m[i]).0@ == name {
        Some(choose|i: int| 0 <= i < m.len() && (#[trigger] m[i]).0@ == name)
    } else {
        None
    }
}

/// A keyword table with entry `e` added: it replaces an entry of the same
/// name in place.
pub open spec fn kw_put(m: Seq<(String, TypeRef)>, e: (String, TypeRef)) -> Seq<(String, TypeRef)> {
    match kw_find(m, e.0@) {
        Some(i) => m.update(i, e),
        None => m.push(e),
    }
}

/// The keywords of a hash type as a table, a later entry for a name
/// replacing an earlier one.
pub open spec fn kw_table(s: Seq<(String, TypeRef)>) -> Seq<(String, TypeRef)>
    decreases s.len(),
{
    if s.len() == 0 {
        seq![]
    } else {
        kw_put(kw_table(s.drop_last()), s.last())
    }
}

/// Matches the keyword arguments at the end of `p`, from the back, with
/// the passed keywords; a `**` argument is remembered in `kwrest`.
pub open spec fn kw_match(
    p: Seq<Arg>,
    kws: Seq<(String, TypeRef)>,
    kwrest: Option<TypeRef>,
    m: Seq<(TypeRef, TypeRef)>,
    e: Seq<ArgError>,
) -> (Seq<Arg>, Seq<(String, TypeRef)>, Option<TypeRef>, Seq<(TypeRef, TypeRef)>, Seq<ArgError>)
    decreases p.len(),
{
    if p.len() == 0 {
        (p, kws, kwrest, m, e)
    } else {
        match p.last() {
            Arg::Kwarg { name, ty, .. } => match kw_find(kws, name@) {
                Some(i) => kw_match(p.drop_last(), kws.remove(i), kwrest, m.push((ty, kws[i].1)), e),
                None => kw_match(p.drop_last(), kws, kwrest, m, e.push(ArgError::MissingKeyword(name))),
            },
            Arg::Kwoptarg { name, ty, .. } => match kw_find(kws, name@) {
                Some(i) => kw_match(p.drop_last(), kws.remove(i), kwrest, m.push((ty, kws[i].1)), e),
                None => kw_match(p.drop_last(), kws, kwrest, m, e),
            },
            Arg::Kwrest { ty, .. } => kw_match(p.drop_last(), kws, Some(ty), m, e),
            _ => (p, kws, kwrest, m, e),
        }
    }
}

/// The passed keywords left over go to the `**` argument; without one they
/// are unknown, and so is a passed `**` splat.
pub open spec fn kw_finish(
    env: TypeEnv,
    kws: Seq<(String, TypeRef)>,
    splat: Option<TypeRef>,
    kwrest: Option<TypeRef>,
    m: Seq<(TypeRef, TypeRef)>,
    e: Seq<ArgError>,
) -> (Seq<(TypeRef, TypeRef)>, Seq<ArgError>) {
    match kwrest {
        Some(k) => (
            m + kws.map_values(|x: (String, TypeRef)| (k, x.1)) + match splat {
                Some(s) => seq![(k, s)],
                None => seq![],
            },
            e,
        ),
        None => (
            m,
            e + kws.map_values(|x: (String, TypeRef)| ArgError::UnknownKeyword(x.0)) + match splat {
                Some(s) => seq![ArgError::UnexpectedSplat(type_loc(env.at(s)))],
                None => seq![],
            },
        ),
    }
}

/// Collects the keyword arguments at the end of `p`, from the back, into
/// the shape of a keyword hash: its location, keywords and `**` type.
pub open spec fn hash_collect(
    p: Seq<Arg>,
    loc: Loc,
    pot: Seq<(String, TypeRef)>,
    kwrest: Option<TypeRef>,
) -> (Seq<Arg>, Loc, Seq<(String, TypeRef)>, Option<TypeRef>)
    decreases p.len(),
{
    if p.len() == 0 {
        (p, loc, pot, kwrest)
    } else {
        match p.last() {
            Arg::Kwarg { loc: l, name, ty } => hash_collect(p.drop_last(), join_locs(loc, l), pot.push((name, ty)), kwrest),
            Arg::Kwoptarg { loc: l, name, ty, .. } => hash_collect(p.drop_last(), join_locs(loc, l), pot.push((name, ty)), kwrest),
            Arg::Kwrest { ty, .. } => hash_collect(p.drop_last(), loc, pot, Some(ty)),
            _ => (p, loc, pot, kwrest),
        }
    }
}

/// Drops the keyword arguments at the end of `p`; each required one is
/// missing.
pub open spec fn drop_keywords(p: Seq<Arg>, e: Seq<ArgError>) -> (Seq<Arg>, Seq<ArgError>)
    decreases p.len(),
{
    if p.len() == 0 {
        (p, e)
    } else {
        match p.last() {
            Arg::Kwarg { name, .. } => drop_keywords(p.drop_last(), e.push(ArgError::MissingKeyword(name))),
            Arg::Kwoptarg { .. } => drop_keywords(p.drop_last(), e),
            Arg::Kwrest { .. } => drop_keywords(p.drop_last(), e),
            _ => (p, e),
        }
    }
}

/// The type that the last passed argument stands for.
pub open spec fn last_passed_type(env: TypeEnv, a: Seq<SplatArg>) -> Type {
    env.at(env.pruned(splat_ty(a.last())))
}

/// The last passed argument is a keyword hash: there are more passed
/// arguments than required ones, and the last is a value whose type is one.
pub open spec fn kw_keywords_case(env: TypeEnv, p: Seq<Arg>, a: Seq<SplatArg>) -> bool {
    &&& a.len() > count_required(p)
    &&& a.last() is Value
    &&& last_passed_type(env, a) is KeywordHash
}

/// The last passed argument is a value of class `Hash`, with more passed
/// arguments than required ones.
pub open spec fn kw_hash_case(env: TypeEnv, g: ObjectGraph, p: Seq<Arg>, a: Seq<SplatArg>) -> bool {
    &&& a.len() > count_required(p)
    &&& a.last() is Value
    &&& last_passed_type(env, a) matches Type::Instance { class, .. } && hash_like(g, class)
}

/// The prototype ends in keyword arguments.
pub open spec fn ends_in_keywords(p: Seq<Arg>) -> bool {
    p.len() > 0 && is_keyword_arg(p.last())
}

/// The shape of the keyword hash that the prototype's keyword arguments
/// make, where a `Hash` value is passed for them.
pub open spec fn kw_hash_shape(p: Seq<Arg>) -> (Seq<Arg>, Loc, Seq<(String, TypeRef)>, Option<TypeRef>) {
    hash_collect(p, arg_loc(p.last()), seq![], None)
}

/// The matching of the keyword arguments. Where a `Hash` value is passed
/// for them, the keyword hash type they make is the next one of the arena.
pub open spec fn kw_phase(env: TypeEnv, g: ObjectGraph, s: ArgState) -> ArgState {
    let p = s.p;
    let a = s.a;
    if !ends_in_keywords(p) {
        s
    } else if kw_keywords_case(env, p, a) {
        let (keywords, splat) = match last_passed_type(env, a) {
            Type::KeywordHash { keywords, splat, .. } => (keywords@, splat),
            _ => (seq![], None),
        };
        let (p2, kws2, kr, m2, e2) = kw_match(p, kw_table(keywords), None, s.m, s.e);
        let (m3, e3) = kw_finish(env, kws2, splat, kr, m2, e2);
        ArgState { p: p2, a: a.drop_last(), m: m3, e: e3 }
    } else if kw_hash_case(env, g, p, a) {
        ArgState {
            p: kw_hash_shape(p).0,
            a: a.drop_last(),
            m: s.m.push((TypeRef(env.types@.len() as usize), splat_ty(a.last()))),
            e: s.e,
        }
    } else {
        let (p2, e2) = drop_keywords(p, s.e);
        ArgState { p: p2, a, m: s.m, e: e2 }
    }
}

/// The matching that follows the keywords: required arguments from the
/// front and from the back, optional ones, a rest argument, and the errors
/// for what is left.
pub open spec fn after_keywords(env: TypeEnv, s: ArgState) -> (Seq<(TypeRef, TypeRef)>, Seq<ArgError>) {
    let (p1, a1, m1) = positional_phase(s.p, s.a, s.m, false);
    let (p2, a2, m2) = positional_phase(p1.reverse(), a1.reverse(), m1, false);
    let (p3, a3, m3) = positional_phase(p2.reverse(), a2.reverse(), m2, true);
    let (p5, a5, m5) = rest_phase(drop_optionals(p3), a3, m3);
    let e1 = if p5.len() > 0 { s.e.push(ArgError::TooFewArguments) } else { s.e };
    let e2 = if a5.len() > 0 {
        e1.push(ArgError::TooManyArguments(type_loc(env.at(splat_ty(a5[0])))))
    } else {
        e1
    };
    (m5, e2)
}

/// What matching `args` against `proto` gives.
pub open spec fn match_spec(env: TypeEnv, g: ObjectGraph, proto: Seq<Arg>, args: Seq<SplatArg>) -> (Seq<(TypeRef, TypeRef)>, Seq<ArgError>) {
    after_keywords(env, kw_phase(env, g, ArgState { p: proto, a: args, m: seq![], e: seq![] }))
}

/// Whether matching `args` against `proto` makes a keyword hash type.
pub open spec fn makes_keyword_hash(env: TypeEnv, g: ObjectGraph, proto: Seq<Arg>, args: Seq<SplatArg>) -> bool {
    ends_in_keywords(proto) && !kw_keywords_case(env, proto, args) && kw_hash_case(env, g, proto, args)
}

// ---------------------------------------------------------------------------
// The matching

/// Every passed argument's type lies below `n` in the arena.
pub open spec fn passed_below(a: Seq<SplatArg>, n: nat) -> bool {
    forall|i: int| 0 <= i < a.len() ==> (#[trigger] splat_ty(a[i])).0 < n
}

/// Every prototype argument's types lie below `n` in the arena.
pub open spec fn proto_below(p: Seq<Arg>, n: nat) -> bool {
    forall|i: int| 0 <= i < p.len() ==> crate::typecheck::types::arg_refs_below(#[trigger] p[i], n)
}

/// The next element of `v` in taking order.
fn peek<'a, T>(v: &SliceView<'a, T>, rev: bool) -> (r: Option<&'a T>)
    ensures
        r == (if taken(v.0@, rev).len() > 0 { Some(&taken(v.0@, rev)[0]) } else { None }),
{
    if rev {
        proof {
            if v.0@.len() > 0 {
                assert(v.0@.reverse()[0] == v.0@.last());
            }
        }
        v.last()
    } else {
        v.first()
    }
}

/// Takes the next element of `v` in taking order.
fn take<'a, T>(v: &mut SliceView<'a, T>, rev: bool)
    requires
        taken(old(v).0@, rev).len() > 0,
    ensures
        taken(final(v).0@, rev) == taken(old(v).0@, rev).drop_first(),
        final(v).0@ == if rev { old(v).0@.drop_last() } else { old(v).0@.drop_first() },
{
    if rev {
        let ghost before = v.0@;
        v.consume_back();
        assert(v.0@.reverse() =~= before.reverse().drop_first());
    } else {
        v.consume_front();
    }
}

/// Matches the passed arguments, in taking order, with the required (or,
/// when `opt`, the optional) prototype arguments.
fn match_positional<'a>(
    p: &mut SliceView<'a, Arg>,
    a: &mut SliceView<'a, SplatArg>,
    rev: bool,
    opt: bool,
    result: &mut MatchResult,
    Ghost(n): Ghost<nat>,
)
    requires
        passed_below(old(a).0@, n),
    ensures
        passed_below(final(a).0@, n),
        (taken(final(p).0@, rev), taken(final(a).0@, rev), final(result).matches@)
            == positional_phase(taken(old(p).0@, rev), taken(old(a).0@, rev), old(result).matches@, opt),
        final(result).errors@ == old(result).errors@,
{
    loop
        invariant
            positional_phase(taken(p.0@, rev), taken(a.0@, rev), result.matches@, opt)
                == positional_phase(taken(old(p).0@, rev), taken(old(a).0@, rev), old(result).matches@, opt),
            result.errors@ == old(result).errors@,
            passed_below(a.0@, n),
        ensures
            (taken(p.0@, rev), taken(a.0@, rev), result.matches@)
                == positional_phase(taken(old(p).0@, rev), taken(old(a).0@, rev), old(result).matches@, opt),
            result.errors@ == old(result).errors@,
            passed_below(a.0@, n),
        decreases p.0@.len(),
    {
        let pa = match peek(a, rev) {
            Some(x) => *x,
            None => break,
        };
        let ty = match peek(p, rev) {
            Some(x) => match x.unwrap_procarg0() {
                Arg::Required { ty, .. } => if opt { break } else { *ty },
                Arg::Optional { ty, .. } => if opt { *ty } else { break },
                _ => break,
            },
            None => break,
        };
        proof {
            if rev {
                assert(p.0@.reverse().len() == p.0@.len());
            }
        }
        match pa {
            SplatArg::Value(t) => {
                take(p, rev);
                take(a, rev);
                result.matches.push((ty, t));
            },
            SplatArg::Splat(t) => {
                take(p, rev);
                result.matches.push((ty, t));
            },
        }
        assert(taken(p.0@, rev).len() == p.0@.len());
    }
}

/// Drops the optional prototype arguments at the front.
fn drop_optional_arguments<'a>(p: &mut SliceView<'a, Arg>)
    ensures
        final(p).0@ == drop_optionals(old(p).0@),
{
    loop
        invariant
            drop_optionals(p.0@) == drop_optionals(old(p).0@),
        ensures
            p.0@ == drop_optionals(old(p).0@),
        decreases p.0@.len(),
    {
        match p.first() {
            Some(Arg::Optional { .. }) => p.consume_front(),
            _ => break,
        }
    }
}

/// A rest argument at the front of the prototype takes all passed
/// arguments.
fn match_rest_argument<'a>(p: &mut SliceView<'a, Arg>, a: &mut SliceView<'a, SplatArg>, result: &mut MatchResult)
    ensures
        (final(p).0@, final(a).0@, final(result).matches@) == rest_phase(old(p).0@, old(a).0@, old(result).matches@),
        final(result).errors@ == old(result).errors@,
{
    let ty = match p.first() {
        Some(Arg::Rest { ty, .. }) => *ty,
        _ => return,
    };
    p.consume_front();
    let ghost m0 = result.matches@;
    let ghost a0 = a.0@;
    while a.0.len() > 0
        invariant
            a0.len() >= a.0@.len(),
            a.0@ == a0.subrange(a0.len() - a.0@.len(), a0.len() as int),
            result.matches@ == m0 + a0.subrange(0, a0.len() - a.0@.len()).map_values(|x: SplatArg| (ty, splat_ty(x))),
            result.errors@ == old(result).errors@,
        decreases a.0@.len(),
    {
        let passed = match &a.0[0] {
            SplatArg::Value(t) => *t,
            SplatArg::Splat(t) => *t,
        };
        let ghost k = a0.len() - a.0@.len();
        a.consume_front();
        result.matches.push((ty, passed));
        assert(a0.subrange(0, k + 1) =~= a0.subrange(0, k).push(a0[k]));
        assert(result.matches@ =~= m0 + a0.subrange(0, a0.len() - a.0@.len()).map_values(|x: SplatArg| (ty, splat_ty(x))));
        assert(a.0@ =~= a0.subrange(a0.len() - a.0@.len(), a0.len() as int));
    }
    assert(a0.subrange(0, a0.len() as int) =~= a0);
    assert(a.0@ =~= Seq::<SplatArg>::empty());
}

/// The number of required arguments in `p`.
fn count_required_args(p: &[Arg]) -> (r: usize)
    ensures
        r == count_required(p@),
{
    let mut n: usize = 0;
    let mut i: usize = 0;
    while i < p.len()
        invariant
            i <= p@.len(),
            n == count_required(p@.subrange(0, i as int)),
            n <= i,
        decreases p@.len() - i,
    {
        assert(p@.subrange(0, i + 1).drop_last() =~= p@.subrange(0, i as int));
        if let Arg::Required { .. } = &p[i] {
            n = n + 1;
        }
        i = i + 1;
    }
    assert(p@.subrange(0, p@.len() as int) =~= p@);
    n
}

/// The place of `name` in the keyword table `m`.
fn kw_lookup(m: &Vec<(String, TypeRef)>, name: &str) -> (r: Option<usize>)
    requires
        kw_distinct(m@),
    ensures
        match r {
            Some(i) => kw_find(m@, name@) == Some(i as int),
            None => kw_find(m@, name@) is None,
        },
{
    let mut j: usize = 0;
    while j < m.len()
        invariant
            j <= m@.len(),
            kw_distinct(m@),
            forall|k: int| 0 <= k < j ==> (#[trigger] m@[k]).0@ != name@,
        decreases m@.len() - j,
    {
        if str_eq(m[j].0.as_str(), name) {
            assert(m@[j as int].0@ == name@);
            assert(exists|i: int| 0 <= i < m@.len() && (#[trigger] m@[i]).0@ == name@);
            let ghost c = choose|i: int| 0 <= i < m@.len() && (#[trigger] m@[i]).0@ == name@;
            assert(c == j) by {
                if c < j {
                } else if c > j {
                    assert(m@[j as int].0@ != m@[c].0@);
                }
            }
            return Some(j);
        }
        j = j + 1;
    }
    None
}

/// Adding an entry to a keyword table keeps its names distinct.
proof fn lemma_kw_put_distinct(m: Seq<(String, TypeRef)>, e: (String, TypeRef))
    requires
        kw_distinct(m),
    ensures
        kw_distinct(kw_put(m, e)),
{
    let r = kw_put(m, e);
    match kw_find(m, e.0@) {
        Some(i) => {
            assert forall|a: int, b: int| 0 <= a < b < r.len() implies (#[trigger] r[a]).0@ != (#[trigger] r[b]).0@ by {
                if a == i {
                    assert(m[b].0@ != m[i].0@ || b == i);
                } else if b == i {
                    assert(m[a].0@ != m[i].0@);
                }
            }
        },
        None => {
            assert forall|a: int, b: int| 0 <= a < b < r.len() implies (#[trigger] r[a]).0@ != (#[trigger] r[b]).0@ by {
                if b == m.len() {
                    assert(m[a].0@ != e.0@);
                }
            }
        },
    }
}

/// A keyword table's names are distinct.
proof fn lemma_kw_table_distinct(s: Seq<(String, TypeRef)>)
    ensures
        kw_distinct(kw_table(s)),
    decreases s.len(),
{
    if s.len() > 0 {
        lemma_kw_table_distinct(s.drop_last());
        lemma_kw_put_distinct(kw_table(s.drop_last()), s.last());
    }
}

/// Removing an entry from a keyword table keeps its names distinct.
proof fn lemma_kw_remove_distinct(m: Seq<(String, TypeRef)>, i: int)
    requires
        kw_distinct(m),
        0 <= i < m.len(),
    ensures
        kw_distinct(m.remove(i)),
{
    let r = m.remove(i);
    assert forall|a: int, b: int| 0 <= a < b < r.len() implies (#[trigger] r[a]).0@ != (#[trigger] r[b]).0@ by {
        let a0 = if a < i { a } else { a + 1 };
        let b0 = if b < i { b } else { b + 1 };
        assert(r[a] == m[a0]);
        assert(r[b] == m[b0]);
    }
}

/// The keywords of a hash type as a table.
fn keyword_table(s: &[(String, TypeRef)]) -> (r: Vec<(String, TypeRef)>)
    ensures
        r@ == kw_table(s@),
        kw_distinct(r@),
{
    let mut m: Vec<(String, TypeRef)> = Vec::new();
    let mut i: usize = 0;
    while i < s.len()
        invariant
            i <= s@.len(),
            m@ == kw_table(s@.subrange(0, i as int)),
            kw_distinct(m@),
        decreases s@.len() - i,
    {
        assert(s@.subrange(0, i + 1).drop_last() =~= s@.subrange(0, i as int));
        proof {
            lemma_kw_put_distinct(m@, s@[i as int]);
        }
        let e = (s[i].0.clone(), s[i].1);
        match kw_lookup(&m, s[i].0.as_str()) {
            Some(j) => m.set(j, e),
            None => m.push(e),
        }
        i = i + 1;
    }
    assert(s@.subrange(0, s@.len() as int) =~= s@);
    m
}

/// What the last passed argument is to the keyword arguments.
enum KeywordHashArgument {
    Keywords(Vec<(String, TypeRef)>, Option<TypeRef>),
    Hash(TypeRef),
    Absent,
}

/// Takes the last passed argument where it is a keyword hash or a `Hash`
/// value meant for the keyword arguments.
fn keyword_hash_argument<'a>(env: &TypeEnv, graph: &ObjectGraph, p: &SliceView<'a, Arg>, a: &mut SliceView<'a, SplatArg>)
    -> (r: KeywordHashArgument)
    requires
        env.wf(),
        graph.wf(),
        crate::object::class_named(*graph, "Hash"@) is Some,
        env.classes_below(graph@.len()),
        forall|i: int| 0 <= i < old(a).0@.len() ==> env.valid(#[trigger] splat_ty(old(a).0@[i])),
    ensures
        match r {
            KeywordHashArgument::Keywords(t, s) => {
                &&& kw_keywords_case(*env, p.0@, old(a).0@)
                &&& last_passed_type(*env, old(a).0@) matches Type::KeywordHash { keywords, splat, .. }
                    && t@ == kw_table(keywords@) && s == splat
                &&& kw_distinct(t@)
                &&& final(a).0@ == old(a).0@.drop_last()
            },
            KeywordHashArgument::Hash(h) => {
                &&& !kw_keywords_case(*env, p.0@, old(a).0@)
                &&& kw_hash_case(*env, *graph, p.0@, old(a).0@)
                &&& h == splat_ty(old(a).0@.last())
                &&& final(a).0@ == old(a).0@.drop_last()
            },
            KeywordHashArgument::Absent => {
                &&& !kw_keywords_case(*env, p.0@, old(a).0@)
                &&& !kw_hash_case(*env, *graph, p.0@, old(a).0@)
                &&& final(a).0@ == old(a).0@
            },
        },
{
    let required_argc = count_required_args(p.0);
    if a.0.len() <= required_argc {
        return KeywordHashArgument::Absent;
    }
    let ty = match a.last() {
        Some(SplatArg::Value(ty)) => *ty,
        _ => return KeywordHashArgument::Absent,
    };
    let pruned = env.prune(ty);
    match env.get(pruned) {
        Type::KeywordHash { keywords, splat, .. } => {
            let t = keyword_table(keywords.as_slice());
            a.consume_back();
            KeywordHashArgument::Keywords(t, *splat)
        },
        Type::Instance { class, .. } => {
            proof {
                env.lemma_prune_valid(ty, env.instances@.len());
            }
            if env.is_hash(graph, *class) {
                a.consume_back();
                KeywordHashArgument::Hash(ty)
            } else {
                KeywordHashArgument::Absent
            }
        },
        _ => KeywordHashArgument::Absent,
    }
}

/// Drops the keyword arguments at the end of the prototype; each required
/// one is missing.
fn consume_remaining_keywords<'a>(p: &mut SliceView<'a, Arg>, result: &mut MatchResult)
    ensures
        (final(p).0@, final(result).errors@) == drop_keywords(old(p).0@, old(result).errors@),
        final(result).matches@ == old(result).matches@,
{
    loop
        invariant
            drop_keywords(p.0@, result.errors@) == drop_keywords(old(p).0@, old(result).errors@),
            result.matches@ == old(result).matches@,
        ensures
            (p.0@, result.errors@) == drop_keywords(old(p).0@, old(result).errors@),
            result.matches@ == old(result).matches@,
        decreases p.0@.len(),
    {
        match p.last() {
            Some(Arg::Kwarg { name, .. }) => {
                p.consume_back();
                result.errors.push(ArgError::MissingKeyword(name.clone()));
            },
            Some(Arg::Kwoptarg { .. }) | Some(Arg::Kwrest { .. }) => {
                p.consume_back();
            },
            _ => break,
        }
    }
}

/// Matches the keyword arguments at the end of the prototype, from the
/// back, with the passed keywords; gives back the keywords left and the
/// `**` argument's type.
fn match_keywords<'a>(p: &mut SliceView<'a, Arg>, kws: Vec<(String, TypeRef)>, result: &mut MatchResult)
    -> (r: (Vec<(String, TypeRef)>, Option<TypeRef>))
    requires
        kw_distinct(kws@),
    ensures
        (final(p).0@, r.0@, r.1, final(result).matches@, final(result).errors@)
            == kw_match(old(p).0@, kws@, None, old(result).matches@, old(result).errors@),
{
    let ghost kws0 = kws@;
    let mut kws = kws;
    let mut kwrest: Option<TypeRef> = None;
    loop
        invariant
            kw_distinct(kws@),
            kw_match(p.0@, kws@, kwrest, result.matches@, result.errors@)
                == kw_match(old(p).0@, kws0, None, old(result).matches@, old(result).errors@),
        ensures
            (p.0@, kws@, kwrest, result.matches@, result.errors@)
                == kw_match(old(p).0@, kws0, None, old(result).matches@, old(result).errors@),
        decreases p.0@.len(),
    {
        match p.last() {
            Some(Arg::Kwarg { name, ty, .. }) => {
                let ty = *ty;
                p.consume_back();
                match kw_lookup(&kws, name.as_str()) {
                    Some(j) => {
                        proof {
                            lemma_kw_remove_distinct(kws@, j as int);
                        }
                        let (_, passed) = kws.remove(j);
                        result.matches.push((ty, passed));
                    },
                    None => {
                        result.errors.push(ArgError::MissingKeyword(name.clone()));
                    },
                }
            },
            Some(Arg::Kwoptarg { name, ty, .. }) => {
                let ty = *ty;
                p.consume_back();
                match kw_lookup(&kws, name.as_str()) {
                    Some(j) => {
                        proof {
                            lemma_kw_remove_distinct(kws@, j as int);
                        }
                        let (_, passed) = kws.remove(j);
                        result.matches.push((ty, passed));
                    },
                    None => {},
                }
            },
            Some(Arg::Kwrest { ty, .. }) => {
                kwrest = Some(*ty);
                p.consume_back();
            },
            _ => break,
        }
    }
    (kws, kwrest)
}

/// The passed keywords left over go to the `**` argument; without one they
/// are unknown, and so is a passed `**` splat.
fn finish_keywords(
    env: &TypeEnv,
    kws: Vec<(String, TypeRef)>,
    splat: Option<TypeRef>,
    kwrest: Option<TypeRef>,
    result: &mut MatchResult,
)
    requires
        splat matches Some(s) ==> env.valid(s),
    ensures
        (final(result).matches@, final(result).errors@)
            == kw_finish(*env, kws@, splat, kwrest, old(result).matches@, old(result).errors@),
{
    let mut i: usize = 0;
    match kwrest {
        Some(k) => {
            while i < kws.len()
                invariant
                    i <= kws@.len(),
                    result.matches@ == old(result).matches@
                        + kws@.subrange(0, i as int).map_values(|x: (String, TypeRef)| (k, x.1)),
                    result.errors@ == old(result).errors@,
                decreases kws@.len() - i,
            {
                result.matches.push((k, kws[i].1));
                i = i + 1;
                assert(result.matches@ =~= old(result).matches@
                    + kws@.subrange(0, i as int).map_values(|x: (String, TypeRef)| (k, x.1)));
            }
            assert(kws@.subrange(0, kws@.len() as int) =~= kws@);
            if let Some(s) = splat {
                result.matches.push((k, s));
            }
            assert(result.matches@ =~= kw_finish(*env, kws@, splat, kwrest, old(result).matches@, old(result).errors@).0);
        },
        None => {
            while i < kws.len()
                invariant
                    i <= kws@.len(),
                    result.errors@ == old(result).errors@
                        + kws@.subrange(0, i as int).map_values(|x: (String, TypeRef)| ArgError::UnknownKeyword(x.0)),
                    result.matches@ == old(result).matches@,
                decreases kws@.len() - i,
            {
                result.errors.push(ArgError::UnknownKeyword(kws[i].0.clone()));
                i = i + 1;
                assert(result.errors@ =~= old(result).errors@
                    + kws@.subrange(0, i as int).map_values(|x: (String, TypeRef)| ArgError::UnknownKeyword(x.0)));
            }
            assert(kws@.subrange(0, kws@.len() as int) =~= kws@);
            if let Some(s) = splat {
                result.errors.push(ArgError::UnexpectedSplat(s.deref(env).loc().clone()));
            }
            assert(result.errors@ =~= kw_finish(*env, kws@, splat, kwrest, old(result).matches@, old(result).errors@).1);
        },
    }
}

/// Collects the keyword arguments at the end of the prototype, from the
/// back, into the shape of a keyword hash.
fn collect_hash_keywords<'a>(p: &mut SliceView<'a, Arg>, loc: Loc, Ghost(n): Ghost<nat>)
    -> (r: (Loc, Vec<(String, TypeRef)>, Option<TypeRef>))
    requires
        proto_below(old(p).0@, n),
    ensures
        (final(p).0@, r.0, r.1@, r.2) == hash_collect(old(p).0@, loc, seq![], None),
        forall|i: int| 0 <= i < r.1@.len() ==> (#[trigger] r.1@[i]).1.0 < n,
        r.2 matches Some(k) ==> k.0 < n,
{
    let ghost loc0 = loc;
    let mut loc = loc;
    let mut pot: Vec<(String, TypeRef)> = Vec::new();
    let mut kwrest: Option<TypeRef> = None;
    loop
        invariant
            proto_below(p.0@, n),
            forall|i: int| 0 <= i < pot@.len() ==> (#[trigger] pot@[i]).1.0 < n,
            kwrest matches Some(k) ==> k.0 < n,
            hash_collect(p.0@, loc, pot@, kwrest) == hash_collect(old(p).0@, loc0, seq![], None),
        ensures
            proto_below(p.0@, n),
            forall|i: int| 0 <= i < pot@.len() ==> (#[trigger] pot@[i]).1.0 < n,
            kwrest matches Some(k) ==> k.0 < n,
            (p.0@, loc, pot@, kwrest) == hash_collect(old(p).0@, loc0, seq![], None),
        decreases p.0@.len(),
    {
        let ghost last = p.0@.last();
        match p.last() {
            Some(Arg::Kwarg { loc: l, name, ty }) => {
                assert(crate::typecheck::types::arg_refs_below(last, n));
                loc = loc.join(l);
                pot.push((name.clone(), *ty));
                p.consume_back();
            },
            Some(Arg::Kwoptarg { loc: l, name, ty, .. }) => {
                assert(crate::typecheck::types::arg_refs_below(last, n));
                loc = loc.join(l);
                pot.push((name.clone(), *ty));
                p.consume_back();
            },
            Some(Arg::Kwrest { ty, .. }) => {
                assert(crate::typecheck::types::arg_refs_below(last, n));
                kwrest = Some(*ty);
                p.consume_back();
            },
            _ => break,
        }
    }
    (loc, pot, kwrest)
}

/// Matches the keyword arguments of the prototype, where it ends in some,
/// with a keyword hash or `Hash` value passed last.
fn match_keyword_hash_argument<'a>(
    env: &mut TypeEnv,
    graph: &ObjectGraph,
    p: &mut SliceView<'a, Arg>,
    a: &mut SliceView<'a, SplatArg>,
    result: &mut MatchResult,
)
    requires
        old(env).wf(),
        graph.wf(),
        crate::object::class_named(*graph, "Hash"@) is Some,
        old(env).classes_below(graph@.len()),
        old(env).instances@.len() < usize::MAX,
        passed_below(old(a).0@, old(env).types@.len()),
        proto_below(old(p).0@, old(env).types@.len()),
    ensures
        ({
            let s = kw_phase(*old(env), *graph, ArgState {
                p: old(p).0@, a: old(a).0@, m: old(result).matches@, e: old(result).errors@,
            });
            &&& final(p).0@ == s.p
            &&& final(a).0@ == s.a
            &&& final(result).matches@ == s.m
            &&& final(result).errors@ == s.e
        }),
        final(env).wf(),
        final(env).classes_below(graph@.len()),
        final(env).hash_class == old(env).hash_class,
        final(env).nil_class == old(env).nil_class,
        if makes_keyword_hash(*old(env), *graph, old(p).0@, old(a).0@) {
            let shape = kw_hash_shape(old(p).0@);
            &&& final(env).types@.drop_last() == old(env).types@
            &&& final(env).types@.len() == old(env).types@.len() + 1
            &&& final(env).types@.last() matches Type::KeywordHash { loc, keywords, splat, id }
                && loc == shape.1 && keywords@ == shape.2 && splat == shape.3 && id == old(env).instances@.len()
            &&& final(env).instances@ == old(env).instances@.push(None)
        } else {
            &&& final(env).types@ == old(env).types@
            &&& final(env).instances@ == old(env).instances@
        },
{
    let ghost n = env.types@.len();
    let kw_loc = match p.last() {
        Some(Arg::Kwarg { loc, .. }) => loc.clone(),
        Some(Arg::Kwoptarg { loc, .. }) => loc.clone(),
        Some(Arg::Kwrest { loc, .. }) => loc.clone(),
        _ => return,
    };
    match keyword_hash_argument(env, graph, p, a) {
        KeywordHashArgument::Keywords(kws, splat) => {
            proof {
                let ty = splat_ty(old(a).0@.last());
                assert(env.valid(ty));
                env.lemma_prune_valid(ty, env.instances@.len());
                assert(refs_below_at(*env, env.pruned(ty)));
            }
            let (rest, kwrest) = match_keywords(p, kws, result);
            finish_keywords(env, rest, splat, kwrest, result);
        },
        KeywordHashArgument::Hash(hash_ty) => {
            let (loc, pot, kwrest) = collect_hash_keywords(p, kw_loc, Ghost(n));
            let proto_hash_ty = env.keyword_hash(loc, pot, kwrest);
            result.matches.push((proto_hash_ty, hash_ty));
            assert(env.types@.drop_last() =~= old(env).types@);
        },
        KeywordHashArgument::Absent => {
            consume_remaining_keywords(p, result);
        },
    }
}

/// Every type that the type at `t` is made of is in the arena.
pub open spec fn refs_below_at(env: TypeEnv, t: TypeRef) -> bool {
    crate::typecheck::types::refs_below(env.at(t), env.types@.len())
}

/// Matches the arguments `call_args` of a call against the arguments
/// `prototype_args` of the method's prototype: the pairs of types that must
/// agree, and what is wrong with the call. Where a `Hash` value is passed
/// for keyword arguments, the keyword hash type they make is added to the
/// arena.
pub fn match_prototype_with_invocation(env: &mut TypeEnv, graph: &ObjectGraph, prototype_args: &[Arg], call_args: &[SplatArg])
    -> (r: MatchResult)
    requires
        old(env).wf(),
        graph.wf(),
        crate::object::class_named(*graph, "Hash"@) is Some,
        old(env).classes_below(graph@.len()),
        old(env).instances@.len() < usize::MAX,
        passed_below(call_args@, old(env).types@.len()),
        proto_below(prototype_args@, old(env).types@.len()),
    ensures
        (r.matches@, r.errors@) == match_spec(*old(env), *graph, prototype_args@, call_args@),
        final(env).wf(),
        final(env).classes_below(graph@.len()),
        final(env).hash_class == old(env).hash_class,
        final(env).nil_class == old(env).nil_class,
        if makes_keyword_hash(*old(env), *graph, prototype_args@, call_args@) {
            let shape = kw_hash_shape(prototype_args@);
            &&& final(env).types@.drop_last() == old(env).types@
            &&& final(env).types@.len() == old(env).types@.len() + 1
            &&& final(env).types@.last() matches Type::KeywordHash { loc, keywords, splat, id }
                && loc == shape.1 && keywords@ == shape.2 && splat == shape.3 && id == old(env).instances@.len()
            &&& final(env).instances@ == old(env).instances@.push(None)
        } else {
            &&& final(env).types@ == old(env).types@
            &&& final(env).instances@ == old(env).instances@
        },
{
    let mut result = MatchResult { matches: Vec::new(), errors: Vec::new() };
    let mut pv = SliceView(prototype_args);
    let mut av = SliceView(call_args);
    let ghost n = env.types@.len();
    match_keyword_hash_argument(env, graph, &mut pv, &mut av, &mut result);
    let ghost s = kw_phase(*old(env), *graph, ArgState { p: prototype_args@, a: call_args@, m: seq![], e: seq![] });
    assert(passed_below(av.0@, n)) by {
        if av.0@ != call_args@ {
            assert(av.0@ =~= call_args@.drop_last());
            assert forall|i: int| 0 <= i < av.0@.len() implies (#[trigger] splat_ty(av.0@[i])).0 < n by {
                assert(av.0@[i] == call_args@[i]);
            }
        }
    }
    match_positional(&mut pv, &mut av, false, false, &mut result, Ghost(n));
    match_positional(&mut pv, &mut av, true, false, &mut result, Ghost(n));
    assert(pv.0@.reverse().reverse() =~= pv.0@);
    assert(av.0@.reverse().reverse() =~= av.0@);
    match_positional(&mut pv, &mut av, false, true, &mut result, Ghost(n));
    drop_optional_arguments(&mut pv);
    match_rest_argument(&mut pv, &mut av, &mut result);
    if pv.0.len() > 0 {
        result.errors.push(ArgError::TooFewArguments);
    }
    if let Some(arg) = av.first() {
        assert(env.at(splat_ty(*arg)) == old(env).at(splat_ty(*arg))) by {
            assert(splat_ty(av.0@[0]).0 < n);
            if env.types@.len() > n {
                assert(env.types@.drop_last()[splat_ty(*arg).0 as int] == env.types@[splat_ty(*arg).0 as int]);
            }
        }
        result.errors.push(ArgError::TooManyArguments(arg.loc(env).clone()));
    }
    result
}

/// Whether every argument of `p` is a plain required one.
pub open spec fn all_required(p: Seq<Arg>) -> bool {
    forall|i: int| 0 <= i < p.len() ==> (#[trigger] p[i]) is Required
}

/// The pairs of the types of `p`'s required arguments with the values
/// passed in `a`, position by position.
pub open spec fn paired(p: Seq<Arg>, a: Seq<SplatArg>) -> Seq<(TypeRef, TypeRef)> {
    Seq::new(p.len(), |i: int| (p[i]->Required_ty, splat_ty(a[i])))
}

proof fn lemma_positional_all(p: Seq<Arg>, a: Seq<SplatArg>, m: Seq<(TypeRef, TypeRef)>)
    requires
        all_required(p),
        p.len() == a.len(),
        forall|i: int| 0 <= i < a.len() ==> (#[trigger] a[i]) is Value,
    ensures
        positional_phase(p, a, m, false) == (Seq::<Arg>::empty(), Seq::<SplatArg>::empty(), m + paired(p, a)),
    decreases p.len(),
{
    if p.len() == 0 {
        assert(p =~= Seq::<Arg>::empty());
        assert(a =~= Seq::<SplatArg>::empty());
        assert(m + paired(p, a) =~= m);
    } else {
        assert(positional(p[0], false) == Some(p[0]->Required_ty));
        let t = splat_ty(a[0]);
        assert(a[0] == SplatArg::Value(t));
        assert forall|i: int| 0 <= i < p.drop_first().len() implies (#[trigger] p.drop_first()[i]) is Required by {
            assert(p.drop_first()[i] == p[i + 1]);
        }
        assert forall|i: int| 0 <= i < a.drop_first().len() implies (#[trigger] a.drop_first()[i]) is Value by {
            assert(a.drop_first()[i] == a[i + 1]);
        }
        lemma_positional_all(p.drop_first(), a.drop_first(), m.push((p[0]->Required_ty, t)));
        assert(m.push((p[0]->Required_ty, t)) + paired(p.drop_first(), a.drop_first()) =~= m + paired(p, a));
    }
}

/// A call that passes exactly one value for each argument of a prototype
/// of required arguments only matches them in order, with no error.
pub proof fn lemma_exact_call_matches_in_order(env: TypeEnv, g: ObjectGraph, p: Seq<Arg>, a: Seq<SplatArg>)
    requires
        all_required(p),
        p.len() == a.len(),
        forall|i: int| 0 <= i < a.len() ==> (#[trigger] a[i]) is Value,
    ensures
        match_spec(env, g, p, a) == (paired(p, a), Seq::<ArgError>::empty()),
{
    let s = ArgState { p, a, m: seq![], e: seq![] };
    if p.len() > 0 {
        assert(p[p.len() - 1] is Required);
    }
    assert(kw_phase(env, g, s) == s);
    lemma_positional_all(p, a, seq![]);
    assert(Seq::<(TypeRef, TypeRef)>::empty() + paired(p, a) =~= paired(p, a));
    let e = Seq::<Arg>::empty();
    let sa = Seq::<SplatArg>::empty();
    assert(e.reverse() =~= e);
    assert(sa.reverse() =~= sa);
    assert(drop_optionals(e) == e);
}

/// The pairs of the types of the required arguments `post` with the last
/// values passed in `a`, taken from the back: the last argument with the
/// last value first.
pub open spec fn paired_back(post: Seq<Arg>, a: Seq<SplatArg>) -> Seq<(TypeRef, TypeRef)> {
    Seq::new(post.len(), |i: int| (post[post.len() - 1 - i]->Required_ty, splat_ty(a[a.len() - 1 - i])))
}

/// The pairs of the type `ty` of a rest argument with each value of `a`.
pub open spec fn paired_rest(ty: TypeRef, a: Seq<SplatArg>) -> Seq<(TypeRef, TypeRef)> {
    Seq::new(a.len(), |i: int| (ty, splat_ty(a[i])))
}

proof fn lemma_positional_prefix(pre: Seq<Arg>, tail: Seq<Arg>, a: Seq<SplatArg>, m: Seq<(TypeRef, TypeRef)>)
    requires
        all_required(pre),
        pre.len() <= a.len(),
        forall|i: int| 0 <= i < a.len() ==> (#[trigger] a[i]) is Value,
        tail.len() > 0 ==> positional(tail[0], false) is None,
    ensures
        positional_phase(pre + tail, a, m, false) == (tail, a.skip(pre.len() as int), m + paired(pre, a)),
    decreases pre.len(),
{
    if pre.len() == 0 {
        assert(pre + tail =~= tail);
        assert(a.skip(0) =~= a);
        assert(m + paired(pre, a) =~= m);
        if tail.len() > 0 && a.len() > 0 {
            assert((pre + tail)[0] == tail[0]);
        }
    } else {
        let p = pre + tail;
        assert(p[0] == pre[0]);
        assert(positional(p[0], false) == Some(pre[0]->Required_ty));
        let t = splat_ty(a[0]);
        assert(a[0] == SplatArg::Value(t));
        assert(p.drop_first() =~= pre.drop_first() + tail);
        assert forall|i: int| 0 <= i < pre.drop_first().len() implies (#[trigger] pre.drop_first()[i]) is Required by {
            assert(pre.drop_first()[i] == pre[i + 1]);
        }
        assert forall|i: int| 0 <= i < a.drop_first().len() implies (#[trigger] a.drop_first()[i]) is Value by {
            assert(a.drop_first()[i] == a[i + 1]);
        }
        lemma_positional_prefix(pre.drop_first(), tail, a.drop_first(), m.push((pre[0]->Required_ty, t)));
        assert(a.drop_first().skip(pre.drop_first().len() as int) =~= a.skip(pre.len() as int));
        assert(m.push((pre[0]->Required_ty, t)) + paired(pre.drop_first(), a.drop_first()) =~= m + paired(pre, a));
    }
}

/// A call that passes enough values, none of them splats, to a prototype
/// of required arguments around one rest argument matches the leading
/// required arguments with the first values in order, the trailing ones
/// with the last values taken from the back, and the rest argument with
/// every value in between, with no error.
pub proof fn lemma_required_around_rest(env: TypeEnv, g: ObjectGraph, pre: Seq<Arg>, l: Loc, ty: TypeRef, post: Seq<Arg>,
    a: Seq<SplatArg>)
    requires
        all_required(pre),
        all_required(post),
        pre.len() + post.len() <= a.len(),
        forall|i: int| 0 <= i < a.len() ==> (#[trigger] a[i]) is Value,
    ensures
        match_spec(env, g, pre + seq![Arg::Rest { loc: l, ty }] + post, a) == (
            paired(pre, a) + paired_back(post, a) + paired_rest(ty, a.subrange(pre.len() as int, a.len() - post.len())),
            Seq::<ArgError>::empty(),
        ),
{
    let rest = Arg::Rest { loc: l, ty };
    let p = pre + seq![rest] + post;
    let s = ArgState { p, a, m: seq![], e: seq![] };
    if post.len() > 0 {
        assert(p.last() == post.last());
        assert(post[post.len() - 1] is Required);
    } else {
        assert(p.last() == rest);
    }
    assert(kw_phase(env, g, s) == s);
    // leading required arguments, from the front
    let tail = seq![rest] + post;
    assert(p =~= pre + tail);
    assert(tail[0] == rest);
    lemma_positional_prefix(pre, tail, a, seq![]);
    let a1 = a.skip(pre.len() as int);
    let m1 = Seq::<(TypeRef, TypeRef)>::empty() + paired(pre, a);
    // trailing required arguments, from the back
    let rpost = post.reverse();
    let a1r = a1.reverse();
    assert(tail.reverse() =~= rpost + seq![rest]);
    assert forall|i: int| 0 <= i < rpost.len() implies (#[trigger] rpost[i]) is Required by {
        assert(rpost[i] == post[post.len() - 1 - i]);
    }
    assert forall|i: int| 0 <= i < a1r.len() implies (#[trigger] a1r[i]) is Value by {
        assert(a1r[i] == a[a.len() - 1 - i]);
    }
    lemma_positional_prefix(rpost, seq![rest], a1r, m1);
    let a2 = a1r.skip(rpost.len() as int);
    let m2 = m1 + paired(rpost, a1r);
    assert(paired(rpost, a1r) =~= paired_back(post, a));
    // optional arguments: none
    let mid = a.subrange(pre.len() as int, a.len() - post.len());
    assert(seq![rest].reverse() =~= seq![rest]);
    assert(a2.reverse() =~= mid);
    assert(positional(rest, true) is None);
    assert(positional_phase(seq![rest], mid, m2, true) == (seq![rest], mid, m2));
    assert(drop_optionals(seq![rest]) == seq![rest]);
    assert(seq![rest].drop_first() =~= Seq::<Arg>::empty());
    assert(mid.map_values(|x: SplatArg| (ty, splat_ty(x))) =~= paired_rest(ty, mid));
    assert(m1 =~= paired(pre, a));
}

proof fn lemma_positional_exhaust(pre: Seq<Arg>, tail: Seq<Arg>, a: Seq<SplatArg>, m: Seq<(TypeRef, TypeRef)>, opt: bool)
    requires
        forall|i: int| 0 <= i < pre.len() ==> positional(#[trigger] pre[i], opt) is Some,
        pre.len() == a.len(),
        forall|i: int| 0 <= i < a.len() ==> (#[trigger] a[i]) is Value,
    ensures
        positional_phase(pre + tail, a, m, opt) == (tail, Seq::<SplatArg>::empty(),
            m + Seq::new(pre.len(), |i: int| (positional(pre[i], opt)->0, splat_ty(a[i])))),
    decreases pre.len(),
{
    if pre.len() == 0 {
        assert(pre + tail =~= tail);
        assert(a =~= Seq::<SplatArg>::empty());
        assert(m + Seq::new(pre.len(), |i: int| (positional(pre[i], opt)->0, splat_ty(a[i]))) =~= m);
    } else {
        let p = pre + tail;
        assert(p[0] == pre[0]);
        assert(positional(pre[0], opt) is Some);
        let t = splat_ty(a[0]);
        assert(a[0] == SplatArg::Value(t));
        assert(p.drop_first() =~= pre.drop_first() + tail);
        assert forall|i: int| 0 <= i < pre.drop_first().len() implies positional(#[trigger] pre.drop_first()[i], opt) is Some by {
            assert(pre.drop_first()[i] == pre[i + 1]);
        }
        assert forall|i: int| 0 <= i < a.drop_first().len() implies (#[trigger] a.drop_first()[i]) is Value by {
            assert(a.drop_first()[i] == a[i + 1]);
        }
        let m1 = m.push((positional(pre[0], opt)->0, t));
        lemma_positional_exhaust(pre.drop_first(), tail, a.drop_first(), m1, opt);
        assert(m1 + Seq::new(pre.drop_first().len(), |i: int| (positional(pre.drop_first()[i], opt)->0, splat_ty(a.drop_first()[i])))
            =~= m + Seq::new(pre.len(), |i: int| (positional(pre[i], opt)->0, splat_ty(a[i]))));
    }
}

/// A call that passes, none of them splats, fewer values than a prototype
/// of required arguments only has arguments is reported as having too few
/// arguments, and as nothing else.
pub proof fn lemma_too_few_arguments(env: TypeEnv, g: ObjectGraph, p: Seq<Arg>, a: Seq<SplatArg>)
    requires
        all_required(p),
        a.len() < p.len(),
        forall|i: int| 0 <= i < a.len() ==> (#[trigger] a[i]) is Value,
    ensures
        match_spec(env, g, p, a).1 == seq![ArgError::TooFewArguments],
{
    let s = ArgState { p, a, m: seq![], e: seq![] };
    assert(p[p.len() - 1] is Required);
    assert(kw_phase(env, g, s) == s);
    let pre = p.take(a.len() as int);
    let tail = p.skip(a.len() as int);
    assert(p =~= pre + tail);
    assert forall|i: int| 0 <= i < pre.len() implies positional(#[trigger] pre[i], false) is Some by {
        assert(pre[i] == p[i]);
        assert(p[i] is Required);
    }
    lemma_positional_exhaust(pre, tail, a, seq![], false);
    let e = Seq::<SplatArg>::empty();
    assert(e.reverse() =~= e);
    assert(tail.reverse().reverse() =~= tail);
    assert(tail[0] == p[a.len() as int]);
    assert(tail[0] is Required);
    assert(drop_optionals(tail) == tail);
}

/// A call that passes, none of them splats, more values than a prototype
/// of required arguments only has arguments is reported as having too many
/// arguments, at the first value left over, and as nothing else.
pub proof fn lemma_too_many_arguments(env: TypeEnv, g: ObjectGraph, p: Seq<Arg>, a: Seq<SplatArg>)
    requires
        all_required(p),
        a.len() > p.len(),
        forall|i: int| 0 <= i < a.len() ==> (#[trigger] a[i]) is Value,
    ensures
        match_spec(env, g, p, a).1 == seq![ArgError::TooManyArguments(type_loc(env.at(splat_ty(a[p.len() as int]))))],
{
    let s = ArgState { p, a, m: seq![], e: seq![] };
    if p.len() > 0 {
        assert(p[p.len() - 1] is Required);
    }
    assert(kw_phase(env, g, s) == s);
    let none = Seq::<Arg>::empty();
    assert(p + none =~= p);
    lemma_positional_prefix(p, none, a, seq![]);
    let a1 = a.skip(p.len() as int);
    assert(none.reverse() =~= none);
    assert(a1.reverse().reverse() =~= a1);
    assert(drop_optionals(none) == none);
    assert(a1[0] == a[p.len() as int]);
}

proof fn lemma_drop_all_optionals(p: Seq<Arg>)
    requires
        forall|i: int| 0 <= i < p.len() ==> (#[trigger] p[i]) is Optional,
    ensures
        drop_optionals(p) == Seq::<Arg>::empty(),
    decreases p.len(),
{
    if p.len() > 0 {
        assert(p[0] is Optional);
        assert forall|i: int| 0 <= i < p.drop_first().len() implies (#[trigger] p.drop_first()[i]) is Optional by {
            assert(p.drop_first()[i] == p[i + 1]);
        }
        lemma_drop_all_optionals(p.drop_first());
    } else {
        assert(p =~= Seq::<Arg>::empty());
    }
}

/// A call that passes, none of them splats, values for every required
/// argument of a prototype of required arguments around one or more
/// optional ones, and for at most all the optional ones, matches the
/// leading required arguments with the first values in order, the trailing
/// ones with the last values taken from the back, and as many optional
/// arguments, from the first, as values are left in between, in order; the
/// other optional arguments take their defaults, and there is no error.
pub proof fn lemma_optional_arguments(env: TypeEnv, g: ObjectGraph, pre: Seq<Arg>, opts: Seq<Arg>, post: Seq<Arg>,
    a: Seq<SplatArg>)
    requires
        all_required(pre),
        all_required(post),
        opts.len() > 0,
        forall|i: int| 0 <= i < opts.len() ==> (#[trigger] opts[i]) is Optional,
        pre.len() + post.len() <= a.len() <= pre.len() + opts.len() + post.len(),
        forall|i: int| 0 <= i < a.len() ==> (#[trigger] a[i]) is Value,
    ensures
        match_spec(env, g, pre + opts + post, a) == (
            paired(pre, a) + paired_back(post, a)
                + Seq::new((a.len() - pre.len() - post.len()) as nat,
                    |i: int| (opts[i]->Optional_ty, splat_ty(a[pre.len() + i]))),
            Seq::<ArgError>::empty(),
        ),
{
    let p = pre + opts + post;
    let s = ArgState { p, a, m: seq![], e: seq![] };
    if post.len() > 0 {
        assert(p.last() == post.last());
        assert(post[post.len() - 1] is Required);
    } else {
        assert(p.last() == opts.last());
        assert(opts[opts.len() - 1] is Optional);
    }
    assert(kw_phase(env, g, s) == s);
    // leading required arguments, from the front
    let tail = opts + post;
    assert(p =~= pre + tail);
    assert(tail[0] == opts[0]);
    assert(opts[0] is Optional);
    lemma_positional_prefix(pre, tail, a, seq![]);
    let a1 = a.skip(pre.len() as int);
    let m1 = Seq::<(TypeRef, TypeRef)>::empty() + paired(pre, a);
    // trailing required arguments, from the back
    let rpost = post.reverse();
    let ropts = opts.reverse();
    let a1r = a1.reverse();
    assert(tail.reverse() =~= rpost + ropts);
    assert(ropts[0] == opts[opts.len() - 1]);
    assert(opts[opts.len() - 1] is Optional);
    assert forall|i: int| 0 <= i < rpost.len() implies (#[trigger] rpost[i]) is Required by {
        assert(rpost[i] == post[post.len() - 1 - i]);
    }
    assert forall|i: int| 0 <= i < a1r.len() implies (#[trigger] a1r[i]) is Value by {
        assert(a1r[i] == a[a.len() - 1 - i]);
    }
    lemma_positional_prefix(rpost, ropts, a1r, m1);
    let a2 = a1r.skip(rpost.len() as int);
    let m2 = m1 + paired(rpost, a1r);
    assert(paired(rpost, a1r) =~= paired_back(post, a));
    // optional arguments, from the front
    let mid = a.subrange(pre.len() as int, a.len() - post.len());
    assert(ropts.reverse() =~= opts);
    assert(a2.reverse() =~= mid);
    let k = mid.len();
    let first = opts.take(k as int);
    let rest = opts.skip(k as int);
    assert(opts =~= first + rest);
    assert forall|i: int| 0 <= i < first.len() implies positional(#[trigger] first[i], true) is Some by {
        assert(first[i] == opts[i]);
    }
    assert forall|i: int| 0 <= i < mid.len() implies (#[trigger] mid[i]) is Value by {
        assert(mid[i] == a[pre.len() + i]);
    }
    lemma_positional_exhaust(first, rest, mid, m2, true);
    assert forall|i: int| 0 <= i < rest.len() implies (#[trigger] rest[i]) is Optional by {
        assert(rest[i] == opts[k + i]);
    }
    lemma_drop_all_optionals(rest);
    assert(Seq::new(first.len(), |i: int| (positional(first[i], true)->0, splat_ty(mid[i])))
        =~= Seq::new((a.len() - pre.len() - post.len()) as nat, |i: int| (opts[i]->Optional_ty, splat_ty(a[pre.len() + i]))));
    assert(m1 =~= paired(pre, a));
}

} // verus!
