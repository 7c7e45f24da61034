//! Resolving type annotations: the types, arguments and prototypes written
//! in the source become `TypeNode`s, `ArgNode`s and `Prototype`s that refer
//! to the classes of the object graph, and what is wrong in them is
//! collected as reports, in the order it is found.

use std::rc::Rc;
use vstd::prelude::*;
use crate::abstract_type::{
    scope_constant, scope_extended, scope_has_param, status_append, type_loc, AnnotationStatus, ArgExpr, ArgLhs,
    ArgNode, Prototype, TypeConstraint, TypeNode, TypeNodeRef, TypeScope,
};
use crate::ast::{Id, Loc, Node};
use crate::environment::{cpath_lookup, lemma_cpath_lookup_grows, lemma_scope_in_grows, resolve_cpath, scope_at, scope_in};
use crate::errors::{quotable, reports_ok, reports_view, Report, ReportView};
use crate::object::{class_named, grows, grows_mc, obj_name, same_but_class, type_params, ConstantEntry, ObjectGraph, RubyObject};
use crate::text::push_str;

verus! {

/// The node `r` points at.
pub open spec fn node_at(r: Rc<Node>) -> Node {
    *r
}

/// The optional node `r` points at.
pub open spec fn opt_at(r: &Option<Rc<Node>>) -> Option<Rc<Node>> {
    *r
}

/// The type `r` points at.
pub open spec fn type_at(r: TypeNodeRef) -> TypeNode {
    *r
}

/// A report that points at one place.
pub open spec fn report1(msg: Seq<char>, label: Seq<char>, loc: Loc) -> ReportView {
    (msg, seq![(label, loc)])
}

/// What the constant path `cpath` names as a type in `ts`: a class or
/// module, or nothing, with the report that says why.
pub open spec fn named_type(g: ObjectGraph, ts: TypeScope, cpath: Node) -> (Option<usize>, Seq<ReportView>) {
    match cpath_lookup(g, cpath, constant_scope_of(ts)) {
        Ok(c) => match *c {
            ConstantEntry::Expression { .. } => (None, seq![report1(
                "Constant mentioned in type name does not reference static class/module"@, "here"@, cpath.spec_loc())]),
            ConstantEntry::Module { value, .. } => (Some(value), seq![]),
        },
        Err((l, m)) => (None, seq![report1(m, "here"@, l)]),
    }
}

/// The constant path of a type instance node.
pub open spec fn inst_cpath(n: Node) -> Node {
    match n {
        Node::TyCpath(_, c) => *c,
        Node::TyGeninst(_, c, _) => *c,
        _ => n,
    }
}

/// The type arguments of a type instance node.
pub open spec fn inst_args(n: Node) -> Seq<Rc<Node>> {
    match n {
        Node::TyGeninst(_, _, a) => a@,
        _ => seq![],
    }
}

/// Whether the type instance node `n` is a bare name of a type parameter
/// in `ts`.
pub open spec fn names_type_param(g: ObjectGraph, ts: TypeScope, n: Node) -> bool {
    inst_cpath(n) matches Node::Const(_, None, id) && scope_has_param(g, ts, id.1@)
}

/// The place of the name of a constant.
pub open spec fn const_name_loc(n: Node) -> Loc {
    match n {
        Node::Const(_, _, id) => id.0,
        _ => n.spec_loc(),
    }
}

/// The names of `ids` joined by commas.
pub open spec fn join_names(ids: Seq<Id>) -> Seq<char>
    decreases ids.len(),
{
    if ids.len() == 0 {
        seq![]
    } else if ids.len() == 1 {
        ids[0].1@
    } else {
        join_names(ids.drop_last()) + ", "@ + ids.last().1@
    }
}

/// Where the type that `n` resolves to is: a type parameter at its name,
/// a name that names nothing at the name, anything else at `n` or, in
/// parentheses, at what is inside.
pub open spec fn resolved_loc(g: ObjectGraph, ts: TypeScope, n: Node) -> Loc
    decreases n,
{
    match n {
        Node::TyCpath(..) | Node::TyGeninst(..) => if names_type_param(g, ts, n) {
            const_name_loc(inst_cpath(n))
        } else if named_type(g, ts, inst_cpath(n)).0 is Some {
            n.spec_loc()
        } else {
            inst_cpath(n).spec_loc()
        },
        Node::TyParen(_, inner) => resolved_loc(g, ts, *inner),
        _ => n.spec_loc(),
    }
}

/// `a` doubled `k` times.
pub open spec fn doubled(a: nat, k: nat) -> nat
    decreases k,
{
    if k == 0 { a } else { doubled(2 * a, (k - 1) as nat) }
}

pub proof fn lemma_doubled_mono(a: nat, b: nat, k: nat)
    requires
        a <= b,
    ensures
        doubled(a, k) <= doubled(b, k),
    decreases k,
{
    if k > 0 {
        lemma_doubled_mono(2 * a, 2 * b, (k - 1) as nat);
    }
}

pub proof fn lemma_doubled_add(a: nat, j: nat, k: nat)
    ensures
        doubled(doubled(a, j), k) == doubled(a, j + k),
        a <= doubled(a, j),
    decreases j,
{
    if j > 0 {
        lemma_doubled_add(2 * a, (j - 1) as nat, k);
        assert((j - 1) as nat + k == (j + k - 1) as nat);
    }
}

/// The parts of a prototype: its generic arguments, if it has them.
pub open spec fn gen_items(n: Node) -> Seq<Rc<Node>> {
    match n {
        Node::TyPrototype(_, Some(g), _, _) => match *g {
            Node::TyGenargs(_, items) => items@,
            _ => seq![],
        },
        _ => seq![],
    }
}

/// Whether a prototype declares generic arguments.
pub open spec fn has_genargs(n: Node) -> bool {
    n matches Node::TyPrototype(_, Some(g), _, _) && *g is TyGenargs
}

/// The arguments of a prototype or of an argument list.
pub open spec fn proto_args(n: Node) -> Seq<Rc<Node>> {
    match n {
        Node::TyPrototype(_, _, a, _) => match *a {
            Node::Args(_, l) => l@,
            _ => seq![],
        },
        Node::Args(_, l) => l@,
        _ => seq![],
    }
}

/// The return type of a prototype, unwrapped from its return signature.
pub open spec fn proto_retn(n: Node) -> Option<Rc<Node>> {
    match n {
        Node::TyPrototype(_, _, _, Some(r)) => match *r {
            Node::TyReturnSig(_, t) => Some(t),
            _ => Some(r),
        },
        _ => None,
    }
}

/// The type variables declared by the first `k` generic arguments.
pub open spec fn gen_vars(items: Seq<Rc<Node>>, k: int) -> Seq<Id>
    decreases k,
{
    if k <= 0 || k > items.len() {
        seq![]
    } else {
        gen_vars(items, k - 1) + match *items[k - 1] {
            Node::TyGendeclarg(l, name, _) => seq![Id(l, name)],
            _ => seq![],
        }
    }
}

/// The number of constraints the first `k` generic arguments declare with
/// their type variables.
pub open spec fn decl_count(items: Seq<Rc<Node>>, k: int) -> nat
    decreases k,
{
    if k <= 0 || k > items.len() {
        0
    } else {
        decl_count(items, k - 1) + if *items[k - 1] matches Node::TyGendeclarg(_, _, Some(_)) { 1nat } else { 0nat }
    }
}

/// The type from which the type of an argument is read, if it is typed,
/// and the argument itself.
pub open spec fn arg_parts(n: Node) -> (Option<Rc<Node>>, Node) {
    match n {
        Node::TyTypedArg(_, t, a) => (Some(t), *a),
        _ => (None, n),
    }
}

// How many metaclasses resolving a node may make, at most.

pub open spec fn type_budget(n: Node) -> nat
    decreases n, 1int,
{
    match n {
        Node::TyCpath(..) => 1,
        Node::TyGeninst(_, _, args) => 1 + list_budget(args@, args@.len() as int),
        Node::TyArray(_, e) => type_budget(*e),
        Node::TyHash(_, k, v) => type_budget(*k) + type_budget(*v),
        Node::TyProc(_, p) => proto_budget(*p),
        Node::TyNillable(_, t) => type_budget(*t),
        Node::TyParen(_, t) => type_budget(*t),
        Node::TyOr(_, a, b) => type_budget(*a) + type_budget(*b),
        Node::TyTuple(_, ts) => list_budget(ts@, ts@.len() as int),
        _ => 0,
    }
}

pub open spec fn list_budget(ns: Seq<Rc<Node>>, k: int) -> nat
    decreases ns, k,
{
    if k <= 0 || k > ns.len() {
        0
    } else {
        list_budget(ns, k - 1) + type_budget(*ns[k - 1])
    }
}

pub open spec fn proto_budget(n: Node) -> nat
    decreases n, 3int,
{
    match n {
        Node::TyPrototype(_, g, a, r) => (match g {
            Some(gx) => match *gx {
                Node::TyGenargs(_, items) => decl_budget(items@, items@.len() as int)
                    + sub_budget(items@, items@.len() as int),
                _ => 0,
            },
            None => 0,
        }) + (match *a {
            Node::Args(_, l) => args_budget(l@, l@.len() as int),
            _ => 0,
        }) + (match r {
            Some(rx) => match *rx {
                Node::TyReturnSig(_, t) => type_budget(*t),
                _ => type_budget(*rx),
            },
            None => 0,
        }),
        Node::Args(_, l) => args_budget(l@, l@.len() as int),
        _ => 0,
    }
}

/// How many metaclasses the generic arguments of a prototype may make.
pub open spec fn gen_budget_of(n: Node) -> nat {
    match n {
        Node::TyPrototype(_, Some(gx), _, _) => match *gx {
            Node::TyGenargs(_, items) => decl_budget(items@, items@.len() as int) + sub_budget(items@, items@.len() as int),
            _ => 0,
        },
        _ => 0,
    }
}

/// How many metaclasses the arguments and return type of a prototype may
/// make.
pub open spec fn rest_budget_of(n: Node) -> nat {
    match n {
        Node::TyPrototype(_, _, a, r) => (match *a {
            Node::Args(_, l) => args_budget(l@, l@.len() as int),
            _ => 0,
        }) + (match r {
            Some(rx) => match *rx {
                Node::TyReturnSig(_, t) => type_budget(*t),
                _ => type_budget(*rx),
            },
            None => 0,
        }),
        Node::Args(_, l) => args_budget(l@, l@.len() as int),
        _ => 0,
    }
}

pub open spec fn decl_budget(items: Seq<Rc<Node>>, k: int) -> nat
    decreases items, k,
{
    if k <= 0 || k > items.len() {
        0
    } else {
        decl_budget(items, k - 1) + match *items[k - 1] {
            Node::TyGendeclarg(_, _, Some(st)) => type_budget(*st),
            _ => 0,
        }
    }
}

pub open spec fn sub_budget(items: Seq<Rc<Node>>, k: int) -> nat
    decreases items, k,
{
    if k <= 0 || k > items.len() {
        0
    } else {
        sub_budget(items, k - 1) + match *items[k - 1] {
            Node::TyConSubtype(_, a, b) => type_budget(*a) + type_budget(*b),
            _ => 0,
        }
    }
}

pub open spec fn args_budget(ns: Seq<Rc<Node>>, k: int) -> nat
    decreases ns, k,
{
    if k <= 0 || k > ns.len() {
        0
    } else {
        args_budget(ns, k - 1) + arg_budget(*ns[k - 1])
    }
}

pub open spec fn arg_budget(n: Node) -> nat
    decreases n, 2int,
{
    match n {
        Node::TyTypedArg(_, t, a) => type_budget(*t) + match *a {
            Node::Procarg0(_, x) => arg_budget(*x),
            _ => 0,
        },
        Node::Procarg0(_, x) => arg_budget(*x),
        _ => 0,
    }
}


/// The name of a constant.
pub open spec fn const_name(n: Node) -> Seq<char> {
    match n {
        Node::Const(_, _, id) => id.1@,
        _ => seq![],
    }
}

// Which annotations can be resolved: every place in them can be quoted, the
// classes `Array` and `Hash` exist where they are used, and each part is of
// a kind that its position takes.

/// A constant path whose places can all be quoted.
pub open spec fn cpath_ok(n: Node) -> bool
    decreases n,
{
    quotable(n.spec_loc()) && match n {
        Node::Const(_, base, id) => quotable(id.0) && match base {
            Some(b) => cpath_ok(*b),
            None => true,
        },
        _ => true,
    }
}

pub open spec fn type_ok(g: ObjectGraph, n: Node) -> bool
    decreases n, 1int,
{
    quotable(n.spec_loc()) && match n {
        Node::TyCpath(_, c) => cpath_ok(*c),
        Node::TyGeninst(_, c, args) => cpath_ok(*c) && list_ok(g, args@, args@.len() as int),
        Node::TyNil(_) => true,
        Node::TyAny(_) => true,
        Node::TyClass(_) => true,
        Node::TySelf(_) => true,
        Node::TyInstance(_) => true,
        Node::TyArray(_, e) => class_named(g, "Array"@) is Some && type_ok(g, *e),
        Node::TyHash(_, k, v) => class_named(g, "Hash"@) is Some && type_ok(g, *k) && type_ok(g, *v),
        Node::TyProc(_, p) => proto_ok(g, *p),
        Node::TyNillable(_, t) => type_ok(g, *t),
        Node::TyParen(_, t) => type_ok(g, *t),
        Node::TyOr(_, a, b) => type_ok(g, *a) && type_ok(g, *b),
        Node::TyTuple(_, ts) => list_ok(g, ts@, ts@.len() as int),
        _ => false,
    }
}

pub open spec fn list_ok(g: ObjectGraph, ns: Seq<Rc<Node>>, k: int) -> bool
    decreases ns, k,
{
    if k <= 0 || k > ns.len() {
        true
    } else {
        list_ok(g, ns, k - 1) && type_ok(g, *ns[k - 1])
    }
}

pub open spec fn proto_ok(g: ObjectGraph, n: Node) -> bool
    decreases n, 3int,
{
    quotable(n.spec_loc()) && match n {
        Node::TyPrototype(_, gopt, a, r) => (match gopt {
            Some(gx) => match *gx {
                Node::TyGenargs(_, items) => gen_ok(g, items@, items@.len() as int),
                _ => true,
            },
            None => true,
        }) && (match *a {
            Node::Args(_, l) => args_ok(g, l@, l@.len() as int),
            _ => false,
        }) && (match r {
            Some(rx) => match *rx {
                Node::TyReturnSig(_, t) => type_ok(g, *t),
                _ => type_ok(g, *rx),
            },
            None => true,
        }),
        Node::Args(_, l) => args_ok(g, l@, l@.len() as int),
        _ => false,
    }
}

pub open spec fn gen_ok(g: ObjectGraph, items: Seq<Rc<Node>>, k: int) -> bool
    decreases items, k,
{
    if k <= 0 || k > items.len() {
        true
    } else {
        gen_ok(g, items, k - 1) && match *items[k - 1] {
            Node::TyGendeclarg(l, _, st) => quotable(l) && match st {
                Some(x) => type_ok(g, *x),
                None => true,
            },
            Node::TyConSubtype(_, a, b) => type_ok(g, *a) && type_ok(g, *b),
            _ => false,
        }
    }
}

pub open spec fn args_ok(g: ObjectGraph, ns: Seq<Rc<Node>>, k: int) -> bool
    decreases ns, k,
{
    if k <= 0 || k > ns.len() {
        true
    } else {
        args_ok(g, ns, k - 1) && arg_ok(g, *ns[k - 1])
    }
}

/// An argument of a kind that an argument list holds.
pub open spec fn plain_arg(n: Node) -> bool {
    n is Arg || n is Blockarg || n is Kwarg || n is Kwoptarg || n is Optarg || n is Restarg || n is Kwrestarg
}

pub open spec fn arg_ok(g: ObjectGraph, n: Node) -> bool
    decreases n, 2int,
{
    quotable(n.spec_loc()) && match n {
        Node::TyTypedArg(_, t, a) => type_ok(g, *t) && quotable(a.spec_loc()) && match *a {
            Node::Procarg0(_, x) => arg_ok(g, *x),
            Node::Mlhs(..) => mlhs_ok(*a),
            _ => plain_arg(*a),
        },
        Node::Procarg0(_, x) => arg_ok(g, *x),
        Node::Mlhs(..) => mlhs_ok(n),
        _ => plain_arg(n),
    }
}

/// A destructuring argument made of plain and rest arguments.
pub open spec fn mlhs_ok(n: Node) -> bool
    decreases n, 1int,
{
    match n {
        Node::Arg(..) => true,
        Node::Restarg(l, _) => quotable(l),
        Node::Mlhs(_, items) => mlhs_list_ok(items@, items@.len() as int),
        _ => false,
    }
}

pub open spec fn mlhs_list_ok(ns: Seq<Rc<Node>>, k: int) -> bool
    decreases ns, k,
{
    if k <= 0 || k > ns.len() {
        true
    } else {
        mlhs_list_ok(ns, k - 1) && mlhs_ok(*ns[k - 1])
    }
}

// The reports that resolving a node makes, in order.

pub open spec fn type_reps(g: ObjectGraph, ts: TypeScope, n: Node) -> Seq<ReportView>
    decreases n, 1int,
{
    match n {
        Node::TyCpath(..) => inst_reps(g, ts, n),
        Node::TyGeninst(..) => inst_reps(g, ts, n),
        Node::TyArray(_, e) => type_reps(g, ts, *e),
        Node::TyHash(_, k, v) => type_reps(g, ts, *k) + type_reps(g, ts, *v),
        Node::TyProc(_, p) => proto_reps(g, ts, *p),
        Node::TyNillable(_, t) => type_reps(g, ts, *t),
        Node::TyParen(_, t) => type_reps(g, ts, *t),
        Node::TyOr(_, a, b) => type_reps(g, ts, *a) + type_reps(g, ts, *b),
        Node::TyTuple(_, items) => list_reps(g, ts, items@, items@.len() as int),
        _ => seq![],
    }
}

/// The reports for a metaclass named with type arguments `args`.
pub open spec fn class_args_reps(g: ObjectGraph, ts: TypeScope, args: Seq<Rc<Node>>) -> Seq<ReportView> {
    if args.len() == 0 {
        seq![]
    } else {
        (if args.len() > 1 {
            seq![report1("Too many type parameters supplied in instantiation of metaclass"@, "from here"@,
                args[1].spec_loc())]
        } else {
            seq![]
        }) + match *args[0] {
            Node::TyCpath(_, cp) => named_type(g, ts, *cp).1,
            _ => seq![report1("Type parameter in metaclass instantiation must be constant path"@, "here"@,
                args[0].spec_loc())],
        }
    }
}

/// The report for instantiating class `c` at `loc` with the type arguments
/// `args`, when their number is not what the class takes.
pub open spec fn create_reps(g: ObjectGraph, ts: TypeScope, loc: Loc, c: usize, args: Seq<Rc<Node>>) -> Seq<ReportView> {
    let params = type_params(g@[c as int]);
    if args.len() == 0 && params.len() > 0 {
        seq![report1("Type referenced is generic but no type parameters were supplied"@, "here"@, loc)]
    } else if args.len() < params.len() {
        seq![report1("Too few type parameters supplied in instantiation of generic type"@,
            obj_name(g@, c as int) + " also expects "@ + join_names(params.skip(args.len() as int)), loc)]
    } else if args.len() > params.len() {
        seq![report1("Too many type parameters supplied in instantiation of generic type"@, "from here"@,
            resolved_loc(g, ts, *args[params.len() as int]))]
    } else {
        seq![]
    }
}

pub open spec fn inst_reps(g: ObjectGraph, ts: TypeScope, n: Node) -> Seq<ReportView>
    decreases n, 0int,
{
    if names_type_param(g, ts, n) {
        if inst_args(n).len() > 0 {
            seq![report1("Type parameters were supplied but type mentioned does not take any"@, "here"@,
                const_name_loc(inst_cpath(n)))]
        } else {
            seq![]
        }
    } else {
        named_type(g, ts, inst_cpath(n)).1 + match named_type(g, ts, inst_cpath(n)).0 {
            Some(c) => if c == g.class_index() {
                class_args_reps(g, ts, inst_args(n))
            } else {
                (match n {
                    Node::TyGeninst(_, _, a) => list_reps(g, ts, a@, a@.len() as int),
                    _ => seq![],
                }) + create_reps(g, ts, n.spec_loc(), c, inst_args(n))
            },
            None => seq![],
        }
    }
}

pub open spec fn list_reps(g: ObjectGraph, ts: TypeScope, ns: Seq<Rc<Node>>, k: int) -> Seq<ReportView>
    decreases ns, k,
{
    if k <= 0 || k > ns.len() {
        seq![]
    } else {
        list_reps(g, ts, ns, k - 1) + type_reps(g, ts, *ns[k - 1])
    }
}

pub open spec fn proto_reps(g: ObjectGraph, ts: TypeScope, n: Node) -> Seq<ReportView>
    decreases n, 3int,
{
    match n {
        Node::TyPrototype(_, Some(gx), _, _) => match *gx {
            Node::TyGenargs(_, items) => decl_reps(g, ts, items@, items@.len() as int)
                + sub_reps(g, scope_extended(ts, gen_vars(items@, items@.len() as int)), items@, items@.len() as int)
                + rest_reps(g, scope_extended(ts, gen_vars(items@, items@.len() as int)), n),
            _ => rest_reps(g, ts, n),
        },
        _ => rest_reps(g, ts, n),
    }
}

/// The reports for the arguments and return type of a prototype, in the
/// scope its type variables make.
pub open spec fn rest_reps(g: ObjectGraph, ts: TypeScope, n: Node) -> Seq<ReportView>
    decreases n, 2int,
{
    match n {
        Node::TyPrototype(_, _, a, r) => (match *a {
            Node::Args(_, l) => args_reps(g, ts, l@, l@.len() as int),
            _ => seq![],
        }) + (match r {
            Some(rx) => match *rx {
                Node::TyReturnSig(_, t) => type_reps(g, ts, *t),
                _ => type_reps(g, ts, *rx),
            },
            None => seq![],
        }),
        Node::Args(_, l) => args_reps(g, ts, l@, l@.len() as int),
        _ => seq![],
    }
}

/// The reports for the supertypes of the first `k` type variables, each in
/// the scope that holds it and those before it.
pub open spec fn decl_reps(g: ObjectGraph, ts: TypeScope, items: Seq<Rc<Node>>, k: int) -> Seq<ReportView>
    decreases items, k,
{
    if k <= 0 || k > items.len() {
        seq![]
    } else {
        decl_reps(g, ts, items, k - 1) + match *items[k - 1] {
            Node::TyGendeclarg(_, _, Some(st)) => type_reps(g, scope_extended(ts, gen_vars(items, k)), *st),
            _ => seq![],
        }
    }
}

/// The reports for the constraints among the first `k` generic arguments.
pub open spec fn sub_reps(g: ObjectGraph, ts: TypeScope, items: Seq<Rc<Node>>, k: int) -> Seq<ReportView>
    decreases items, k,
{
    if k <= 0 || k > items.len() {
        seq![]
    } else {
        sub_reps(g, ts, items, k - 1) + match *items[k - 1] {
            Node::TyConSubtype(_, a, b) => type_reps(g, ts, *a) + type_reps(g, ts, *b),
            _ => seq![],
        }
    }
}

pub open spec fn args_reps(g: ObjectGraph, ts: TypeScope, ns: Seq<Rc<Node>>, k: int) -> Seq<ReportView>
    decreases ns, k,
{
    if k <= 0 || k > ns.len() {
        seq![]
    } else {
        args_reps(g, ts, ns, k - 1) + arg_reps(g, ts, *ns[k - 1])
    }
}

pub open spec fn arg_reps(g: ObjectGraph, ts: TypeScope, n: Node) -> Seq<ReportView>
    decreases n, 2int,
{
    match n {
        Node::TyTypedArg(_, t, a) => type_reps(g, ts, *t) + match *a {
            Node::Procarg0(_, x) => arg_reps(g, ts, *x),
            Node::Mlhs(..) => mlhs_reps(*a) + seq![(
                "Exterior type annotations on destructuring arguments are not allowed"@,
                seq![("here"@, resolved_loc(g, ts, *t)), ("for this destructuring argument"@, a.spec_loc())],
            )],
            _ => seq![],
        },
        Node::Procarg0(_, x) => arg_reps(g, ts, *x),
        Node::Mlhs(..) => mlhs_reps(n),
        _ => seq![],
    }
}

pub open spec fn mlhs_reps(n: Node) -> Seq<ReportView>
    decreases n, 1int,
{
    match n {
        Node::Restarg(l, _) => seq![report1("Only required arguments are supported in destructuring arguments"@,
            "here"@, l)],
        Node::Mlhs(_, items) => mlhs_list_reps(items@, items@.len() as int),
        _ => seq![],
    }
}

pub open spec fn mlhs_list_reps(ns: Seq<Rc<Node>>, k: int) -> Seq<ReportView>
    decreases ns, k,
{
    if k <= 0 || k > ns.len() {
        seq![]
    } else {
        mlhs_list_reps(ns, k - 1) + mlhs_reps(*ns[k - 1])
    }
}

// What resolving a node gives, read against the graph `g0` it started
// from and a graph `g` it grew into, which holds the metaclasses it made.

/// An instance of `c` with no type arguments, at `loc`.
pub open spec fn plain_instance(t: TypeNode, loc: Loc, c: usize) -> bool {
    t matches TypeNode::Instance { loc: l, class, type_parameters: ps } && l == loc && class == c && ps@.len() == 0
}

pub open spec fn type_is(g0: ObjectGraph, g: ObjectGraph, ts: TypeScope, n: Node, t: TypeNode) -> bool
    decreases n, 1int,
{
    match n {
        Node::TyCpath(..) => inst_is(g0, g, ts, n, t),
        Node::TyGeninst(..) => inst_is(g0, g, ts, n, t),
        Node::TyNil(loc) => plain_instance(t, loc, g0.nil_index()),
        Node::TyAny(loc) => t == (TypeNode::Any { loc }),
        Node::TyArray(loc, e) => t matches TypeNode::Instance { loc: l, class, type_parameters: ps } && l == loc
            && Some(class) == class_named(g0, "Array"@) && ps@.len() == 1 && type_is(g0, g, ts, *e, *ps@[0]),
        Node::TyHash(loc, k, v) => t matches TypeNode::Instance { loc: l, class, type_parameters: ps } && l == loc
            && Some(class) == class_named(g0, "Hash"@) && ps@.len() == 2 && type_is(g0, g, ts, *k, *ps@[0])
            && type_is(g0, g, ts, *v, *ps@[1]),
        Node::TyProc(loc, p) => t matches TypeNode::Proc { loc: l, proto } && l == loc && proto_is(g0, g, ts, *p, proto),
        Node::TyClass(loc) => t == (TypeNode::SpecialClass { loc }),
        Node::TySelf(loc) => t == (TypeNode::SpecialSelf { loc }),
        Node::TyInstance(loc) => t == (TypeNode::SpecialInstance { loc }),
        Node::TyNillable(loc, x) => t matches TypeNode::Union { loc: l, types } && l == loc && types@.len() == 2
            && plain_instance(*types@[0], loc, g0.nil_index()) && type_is(g0, g, ts, *x, *types@[1]),
        Node::TyParen(_, x) => type_is(g0, g, ts, *x, t),
        Node::TyOr(loc, a, b) => t matches TypeNode::Union { loc: l, types } && l == loc && types@.len() == 2
            && type_is(g0, g, ts, *a, *types@[0]) && type_is(g0, g, ts, *b, *types@[1]),
        Node::TyTuple(loc, items) => t matches TypeNode::Tuple { loc: l, lead, splat, post } && l == loc
            && splat is None && post@.len() == 0 && lead@.len() == items@.len()
            && list_is(g0, g, ts, items@, lead@, items@.len() as int),
        _ => false,
    }
}

/// What `Class` with the type arguments of `n` resolves to: `Class` itself
/// without them, else the metaclass of the class or module the first one
/// names.
pub open spec fn class_inst_is(g0: ObjectGraph, g: ObjectGraph, ts: TypeScope, n: Node, t: TypeNode) -> bool {
    let args = inst_args(n);
    if args.len() == 0 {
        plain_instance(t, n.spec_loc(), g0.class_index())
    } else {
        match *args[0] {
            Node::TyCpath(_, cp) => match named_type(g0, ts, *cp).0 {
                Some(x) => t matches TypeNode::Instance { loc, class: m, type_parameters: ps } && loc == n.spec_loc()
                    && ps@.len() == 0 && m < g@.len() && (g@[m as int] matches RubyObject::Metaclass { of, .. } && of == x),
                None => t == (TypeNode::Error { loc: n.spec_loc() }),
            },
            _ => t == (TypeNode::Error { loc: n.spec_loc() }),
        }
    }
}

pub open spec fn inst_is(g0: ObjectGraph, g: ObjectGraph, ts: TypeScope, n: Node, t: TypeNode) -> bool
    decreases n, 0int,
{
    if names_type_param(g0, ts, n) {
        t matches TypeNode::TypeParameter { loc, name } && loc == const_name_loc(inst_cpath(n))
            && name@ == const_name(inst_cpath(n))
    } else {
        match named_type(g0, ts, inst_cpath(n)).0 {
            Some(c) => if c == g0.class_index() {
                class_inst_is(g0, g, ts, n, t)
            } else {
                t matches TypeNode::Instance { loc, class, type_parameters: ps } && loc == n.spec_loc() && class == c
                    && ps@.len() == type_params(g0@[c as int]).len()
                    && (match n {
                        Node::TyGeninst(_, _, a) => list_is(g0, g, ts, a@, ps@,
                            if a@.len() < ps@.len() { a@.len() as int } else { ps@.len() as int }),
                        _ => true,
                    })
                    && forall|i: int| inst_args(n).len() <= i < ps@.len()
                        ==> *(#[trigger] ps@[i]) == (TypeNode::Error { loc: n.spec_loc() })
            },
            None => t == (TypeNode::Error { loc: inst_cpath(n).spec_loc() }),
        }
    }
}

/// The first `k` of `rs` are what the first `k` of `ns` resolve to.
pub open spec fn list_is(g0: ObjectGraph, g: ObjectGraph, ts: TypeScope, ns: Seq<Rc<Node>>, rs: Seq<TypeNodeRef>, k: int) -> bool
    decreases ns, k,
{
    if k <= 0 {
        true
    } else if k > ns.len() || k > rs.len() {
        false
    } else {
        list_is(g0, g, ts, ns, rs, k - 1) && type_is(g0, g, ts, *ns[k - 1], *rs[k - 1])
    }
}

pub open spec fn proto_is(g0: ObjectGraph, g: ObjectGraph, ts: TypeScope, n: Node, p: Prototype) -> bool
    decreases n, 3int,
{
    &&& p.loc == n.spec_loc()
    &&& match n {
        Node::TyPrototype(_, Some(gx), _, _) => match *gx {
            Node::TyGenargs(_, items) => {
                let k = items@.len() as int;
                let nd = decl_count(items@, k) as int;
                let ts2 = scope_extended(ts, gen_vars(items@, k));
                &&& p.type_vars@ == gen_vars(items@, k)
                &&& p.type_constraints@.len() >= nd
                &&& decl_cons_is(g0, g, ts, items@, k, p.type_constraints@.take(nd))
                &&& sub_cons_is(g0, g, ts2, items@, k, p.type_constraints@.skip(nd))
                &&& rest_is(g0, g, ts2, n, p.args@, p.retn)
            },
            _ => p.type_vars@.len() == 0 && p.type_constraints@.len() == 0 && rest_is(g0, g, ts, n, p.args@, p.retn),
        },
        _ => p.type_vars@.len() == 0 && p.type_constraints@.len() == 0 && rest_is(g0, g, ts, n, p.args@, p.retn),
    }
}

/// The arguments and return type of a prototype, in the scope of its type
/// variables.
pub open spec fn rest_is(g0: ObjectGraph, g: ObjectGraph, ts: TypeScope, n: Node, args: Seq<ArgNode>,
    retn: Option<TypeNodeRef>) -> bool
    decreases n, 2int,
{
    match n {
        Node::TyPrototype(_, _, a, r) => (match *a {
            Node::Args(_, l) => args.len() == l@.len() && args_is(g0, g, ts, l@, args, l@.len() as int),
            _ => false,
        }) && (match r {
            Some(rx) => match *rx {
                Node::TyReturnSig(_, t) => retn matches Some(x) && type_is(g0, g, ts, *t, *x),
                _ => retn matches Some(x) && type_is(g0, g, ts, *rx, *x),
            },
            None => retn is None,
        }),
        Node::Args(_, l) => args.len() == l@.len() && args_is(g0, g, ts, l@, args, l@.len() as int) && retn is None,
        _ => false,
    }
}

/// The constraints that the first `k` type variables declare with their
/// supertypes: each type variable is compatible with its supertype, read in
/// the scope of that variable and those before it.
pub open spec fn decl_cons_is(g0: ObjectGraph, g: ObjectGraph, ts: TypeScope, items: Seq<Rc<Node>>, k: int,
    cs: Seq<TypeConstraint>) -> bool
    decreases items, k,
{
    if k <= 0 || k > items.len() {
        cs.len() == 0
    } else {
        match *items[k - 1] {
            Node::TyGendeclarg(l, name, Some(st)) => cs.len() > 0
                && decl_cons_is(g0, g, ts, items, k - 1, cs.drop_last())
                && (cs.last() matches TypeConstraint::Compatible { loc, sub, super_ } && loc == l
                && *sub == (TypeNode::TypeParameter { loc: l, name })
                && type_is(g0, g, scope_extended(ts, gen_vars(items, k)), *st, *super_)),
            _ => decl_cons_is(g0, g, ts, items, k - 1, cs),
        }
    }
}

/// The constraints among the first `k` generic arguments, in order.
pub open spec fn sub_cons_is(g0: ObjectGraph, g: ObjectGraph, ts: TypeScope, items: Seq<Rc<Node>>, k: int,
    cs: Seq<TypeConstraint>) -> bool
    decreases items, k,
{
    if k <= 0 || k > items.len() {
        cs.len() == 0
    } else {
        match *items[k - 1] {
            Node::TyConSubtype(l, a, b) => cs.len() > 0 && sub_cons_is(g0, g, ts, items, k - 1, cs.drop_last())
                && (cs.last() matches TypeConstraint::Compatible { loc, sub, super_ } && loc == l
                && type_is(g0, g, ts, *a, *sub) && type_is(g0, g, ts, *b, *super_)),
            _ => sub_cons_is(g0, g, ts, items, k - 1, cs),
        }
    }
}

pub open spec fn args_is(g0: ObjectGraph, g: ObjectGraph, ts: TypeScope, ns: Seq<Rc<Node>>, xs: Seq<ArgNode>, k: int) -> bool
    decreases ns, k,
{
    if k <= 0 {
        true
    } else if k > ns.len() || k > xs.len() {
        false
    } else {
        args_is(g0, g, ts, ns, xs, k - 1) && arg_is(g0, g, ts, *ns[k - 1], xs[k - 1])
    }
}

/// The type an argument was given, if any.
pub open spec fn arg_ty(a: ArgNode) -> Option<TypeNodeRef> {
    match a {
        ArgNode::Required { ty, .. } => ty,
        ArgNode::Procarg0 { .. } => None,
        ArgNode::Optional { ty, .. } => ty,
        ArgNode::Rest { ty, .. } => ty,
        ArgNode::Kwarg { ty, .. } => ty,
        ArgNode::Kwoptarg { ty, .. } => ty,
        ArgNode::Kwrest { ty, .. } => ty,
        ArgNode::Block { ty, .. } => ty,
    }
}

/// A plain argument `x`, at `l0`, whatever its type: its kind and names,
/// and the default value of an optional one with the constant scope of
/// `ts`.
pub open spec fn plain_arg_is(ts: TypeScope, l0: Loc, x: Node, a: ArgNode) -> bool {
    match x {
        Node::Arg(l, name) => a matches ArgNode::Required { loc, lhs, .. } && loc == l0
            && lhs == (ArgLhs::Lvar { name: Id(l, name) }),
        Node::Blockarg(_, name) => a matches ArgNode::Block { loc, name: nm, .. } && loc == l0 && nm == name,
        Node::Kwarg(l, name) => a matches ArgNode::Kwarg { loc, name: nm, .. } && loc == l0 && nm == Id(l, name),
        Node::Kwoptarg(_, name, e) => a matches ArgNode::Kwoptarg { loc, name: nm, default, .. } && loc == l0
            && nm == name && default.expr == e && default.scope == scope_constant(ts),
        Node::Optarg(_, name, e) => a matches ArgNode::Optional { loc, name: nm, default, .. } && loc == l0
            && nm == name && default.expr == e && default.scope == scope_constant(ts),
        Node::Restarg(_, name) => a matches ArgNode::Rest { loc, name: nm, .. } && loc == l0 && nm == name,
        Node::Kwrestarg(_, name) => a matches ArgNode::Kwrest { loc, name: nm, .. } && loc == l0 && nm == name,
        _ => false,
    }
}

pub open spec fn arg_is(g0: ObjectGraph, g: ObjectGraph, ts: TypeScope, n: Node, a: ArgNode) -> bool
    decreases n, 2int,
{
    match n {
        Node::TyTypedArg(l0, t, x) => match *x {
            Node::Procarg0(_, y) => a matches ArgNode::Procarg0 { loc, arg } && loc == l0 && arg_is(g0, g, ts, *y, *arg),
            Node::Mlhs(..) => a matches ArgNode::Required { loc, ty, lhs } && loc == l0 && ty is None && lhs_is(*x, lhs),
            _ => plain_arg_is(ts, l0, *x, a) && (arg_ty(a) matches Some(ty) && type_is(g0, g, ts, *t, *ty)),
        },
        Node::Procarg0(l0, y) => a matches ArgNode::Procarg0 { loc, arg } && loc == l0 && arg_is(g0, g, ts, *y, *arg),
        Node::Mlhs(l0, ..) => a matches ArgNode::Required { loc, ty, lhs } && loc == l0 && ty is None && lhs_is(n, lhs),
        _ => plain_arg_is(ts, n.spec_loc(), n, a) && arg_ty(a) is None,
    }
}

/// What a destructuring argument binds: its names, nested as written,
/// without the rest arguments, which it does not take.
pub open spec fn lhs_is(n: Node, lhs: ArgLhs) -> bool
    decreases n, 1int,
{
    match n {
        Node::Arg(l, name) => lhs == (ArgLhs::Lvar { name: Id(l, name) }),
        Node::Mlhs(l, items) => lhs matches ArgLhs::Mlhs { loc, items: v } && loc == l
            && lhs_list_is(items@, v@, items@.len() as int),
        _ => false,
    }
}

pub open spec fn lhs_list_is(ns: Seq<Rc<Node>>, vs: Seq<ArgLhs>, k: int) -> bool
    decreases ns, k,
{
    if k <= 0 || k > ns.len() {
        vs.len() == 0
    } else {
        match *ns[k - 1] {
            Node::Restarg(..) => lhs_list_is(ns, vs, k - 1),
            _ => vs.len() > 0 && lhs_list_is(ns, vs.drop_last(), k - 1) && lhs_is(*ns[k - 1], vs.last()),
        }
    }
}

// How much of a signature is annotated.

pub open spec fn arg_status(n: Node) -> AnnotationStatus
    decreases n,
{
    match n {
        Node::TyTypedArg(_, _, x) => match *x {
            Node::Procarg0(_, y) => status_append(AnnotationStatus::Typed, arg_status(*y)),
            _ => AnnotationStatus::Typed,
        },
        Node::Procarg0(_, y) => status_append(AnnotationStatus::Untyped, arg_status(*y)),
        _ => AnnotationStatus::Untyped,
    }
}

pub open spec fn args_status(s: AnnotationStatus, ns: Seq<Rc<Node>>, k: int) -> AnnotationStatus
    decreases k,
{
    if k <= 0 || k > ns.len() {
        s
    } else {
        status_append(args_status(s, ns, k - 1), arg_status(*ns[k - 1]))
    }
}

/// The status of a prototype: typed generic arguments if it has them, then
/// each argument, then the return type, typed if it is there.
pub open spec fn proto_status(n: Node) -> AnnotationStatus {
    let s0 = if has_genargs(n) { AnnotationStatus::Typed } else { AnnotationStatus::Empty };
    let s1 = args_status(s0, proto_args(n), proto_args(n).len() as int);
    status_append(s1, if proto_retn(n) is Some { AnnotationStatus::Typed } else { AnnotationStatus::Untyped })
}


/// Whether an argument carries a type annotation of its own.
pub open spec fn arg_annotated(n: Node) -> bool {
    n matches Node::TyTypedArg(_, _, x) && !(*x is Procarg0)
}

/// Whether an argument carries no type annotation, nested ones included.
pub open spec fn arg_unannotated(n: Node) -> bool
    decreases n,
{
    match n {
        Node::TyTypedArg(..) => false,
        Node::Procarg0(_, y) => arg_unannotated(*y),
        _ => true,
    }
}

proof fn lemma_unannotated_arg(n: Node)
    requires
        arg_unannotated(n),
    ensures
        arg_status(n) == AnnotationStatus::Untyped,
    decreases n,
{
    if let Node::Procarg0(_, _) = n {
        let y: Node = *n->Procarg0_1;
        lemma_unannotated_arg(y);
    }
}

proof fn lemma_args_typed(s0: AnnotationStatus, ns: Seq<Rc<Node>>, k: int)
    requires
        s0 == AnnotationStatus::Empty || s0 == AnnotationStatus::Typed,
        0 <= k <= ns.len(),
        forall|i: int| 0 <= i < k ==> arg_annotated(#[trigger] *ns[i]),
    ensures
        args_status(s0, ns, k) == if k == 0 { s0 } else { AnnotationStatus::Typed },
    decreases k,
{
    if k > 0 {
        lemma_args_typed(s0, ns, k - 1);
        assert(arg_annotated(*ns[k - 1]));
    }
}

proof fn lemma_args_untyped(ns: Seq<Rc<Node>>, k: int)
    requires
        0 <= k <= ns.len(),
        forall|i: int| 0 <= i < k ==> arg_unannotated(#[trigger] *ns[i]),
    ensures
        args_status(AnnotationStatus::Empty, ns, k) == if k == 0 { AnnotationStatus::Empty } else { AnnotationStatus::Untyped },
    decreases k,
{
    if k > 0 {
        lemma_args_untyped(ns, k - 1);
        lemma_unannotated_arg(node_at(ns[k - 1]));
    }
}

/// Whether `s` is one of the statuses that appending keeps in the pair
/// `(a, b)`.
pub open spec fn status_in(s: AnnotationStatus, a: AnnotationStatus) -> bool {
    s == a || s == AnnotationStatus::Partial
}

proof fn lemma_args_stay(s: AnnotationStatus, ns: Seq<Rc<Node>>, j: int, k: int, a: AnnotationStatus)
    requires
        a == AnnotationStatus::Typed || a == AnnotationStatus::Untyped,
        0 <= j <= k <= ns.len(),
        status_in(args_status(s, ns, j), a),
    ensures
        status_in(args_status(s, ns, k), a),
    decreases k - j,
{
    if j < k {
        lemma_args_stay(s, ns, j, k - 1, a);
    }
}

proof fn lemma_args_reach(s0: AnnotationStatus, ns: Seq<Rc<Node>>, i: int, a: AnnotationStatus)
    requires
        s0 == AnnotationStatus::Empty || s0 == AnnotationStatus::Typed,
        0 <= i < ns.len(),
        a == AnnotationStatus::Untyped ==> arg_unannotated(*ns[i]),
        a == AnnotationStatus::Typed ==> arg_annotated(*ns[i]) && s0 == AnnotationStatus::Empty,
        a == AnnotationStatus::Typed || a == AnnotationStatus::Untyped,
    ensures
        status_in(args_status(s0, ns, ns.len() as int), a),
{
    if a == AnnotationStatus::Untyped {
        lemma_unannotated_arg(node_at(ns[i]));
    }
    assert(status_in(args_status(s0, ns, i + 1), a)) by {
        let before = args_status(s0, ns, i);
        assert(args_status(s0, ns, i + 1) == status_append(before, arg_status(*ns[i])));
    }
    lemma_args_stay(s0, ns, i + 1, ns.len() as int, a);
}

/// A method signature of which every argument carries a type and that has
/// a return type is typed: the method is checked.
pub proof fn lemma_annotated_signature_is_typed(n: Node)
    requires
        n is TyPrototype,
        proto_retn(n) is Some,
        forall|i: int| 0 <= i < proto_args(n).len() ==> arg_annotated(#[trigger] *proto_args(n)[i]),
    ensures
        proto_status(n) == AnnotationStatus::Typed,
{
    let s0 = if has_genargs(n) { AnnotationStatus::Typed } else { AnnotationStatus::Empty };
    lemma_args_typed(s0, proto_args(n), proto_args(n).len() as int);
}

/// A method signature without generic arguments, return type or any type
/// on its arguments is untyped: the method is not checked.
pub proof fn lemma_unannotated_signature_is_untyped(n: Node)
    requires
        !has_genargs(n),
        proto_retn(n) is None,
        forall|i: int| 0 <= i < proto_args(n).len() ==> arg_unannotated(#[trigger] *proto_args(n)[i]),
    ensures
        proto_status(n) == AnnotationStatus::Untyped,
{
    lemma_args_untyped(proto_args(n), proto_args(n).len() as int);
}

/// A method signature that has a return type but an argument without a
/// type, or an argument with a type but no return type, is partial: such a
/// method is refused.
pub proof fn lemma_mixed_signature_is_partial(n: Node, i: int)
    requires
        0 <= i < proto_args(n).len(),
        (arg_unannotated(*proto_args(n)[i]) && proto_retn(n) is Some)
            || (arg_annotated(*proto_args(n)[i]) && proto_retn(n) is None && !has_genargs(n)),
    ensures
        proto_status(n) == AnnotationStatus::Partial,
{
    let s0 = if has_genargs(n) { AnnotationStatus::Typed } else { AnnotationStatus::Empty };
    let ns = proto_args(n);
    if proto_retn(n) is Some {
        lemma_args_reach(s0, ns, i, AnnotationStatus::Untyped);
    } else {
        lemma_args_reach(s0, ns, i, AnnotationStatus::Typed);
    }
}

// Facts the resolution leans on.

proof fn lemma_reports_ok_add(a: Seq<ReportView>, b: Seq<ReportView>)
    requires
        reports_ok(a),
        reports_ok(b),
    ensures
        reports_ok(a + b),
{
    assert forall|i: int, j: int| 0 <= i < (a + b).len() && 0 <= j < (a + b)[i].1.len()
        implies quotable(#[trigger] (a + b)[i].1[j].1) by {
        if i < a.len() {
            assert((a + b)[i] == a[i]);
            assert(quotable(a[i].1[j].1));
        } else {
            assert((a + b)[i] == b[i - a.len()]);
            assert(quotable(b[i - a.len()].1[j].1));
        }
    }
}

proof fn lemma_reports_ok_one(m: Seq<char>, l: Seq<char>, loc: Loc)
    requires
        quotable(loc),
    ensures
        reports_ok(seq![report1(m, l, loc)]),
{
    assert forall|i: int, j: int| 0 <= i < seq![report1(m, l, loc)].len() && 0 <= j < seq![report1(m, l, loc)][i].1.len()
        implies quotable(#[trigger] seq![report1(m, l, loc)][i].1[j].1) by {
        assert(seq![report1(m, l, loc)][i] == report1(m, l, loc));
    }
}

proof fn lemma_reports_ok_empty()
    ensures
        reports_ok(Seq::<ReportView>::empty()),
{
}

/// The type parameters a scope declares stay as the graph grows.
proof fn lemma_has_param_grows(g0: ObjectGraph, g: ObjectGraph, ts: TypeScope, name: Seq<char>)
    requires
        grows(g0, g),
        scope_constant(ts).module < g0@.len(),
    ensures
        scope_has_param(g, ts, name) == scope_has_param(g0, ts, name),
    decreases ts,
{
    match ts {
        TypeScope::Constant { scope } => {
            assert(same_but_class(g@[scope.module as int], g0@[scope.module as int]));
        },
        TypeScope::Param { .. } => {
            let p: TypeScope = *ts->parent;
            lemma_has_param_grows(g0, g, p, name);
        },
    }
}

/// Extending a scope by type parameters keeps its constant scope.
pub proof fn lemma_extended_constant(ts: TypeScope, vars: Seq<Id>)
    ensures
        scope_constant(scope_extended(ts, vars)) == scope_constant(ts),
    decreases vars.len(),
{
    if vars.len() > 0 {
        lemma_extended_constant(ts, vars.drop_last());
    }
}

/// Where a lookup of a constant path whose places can be quoted fails can be
/// quoted.
proof fn lemma_cpath_err_quotable(g: ObjectGraph, n: Node, sc: crate::object::Scope)
    requires
        cpath_ok(n),
    ensures
        cpath_lookup(g, n, sc) matches Err((l, _)) ==> quotable(l),
        crate::environment::cbase_lookup(g, n, sc) matches Err((l, _)) ==> quotable(l),
    decreases n,
{
    match n {
        Node::Const(_, Some(_), _) => {
            let base: Node = *n->Const_1->0;
            lemma_cpath_err_quotable(g, base, sc);
        },
        _ => {},
    }
}

/// The constant scope at the root of `ts`.
pub open spec fn constant_scope_of(ts: TypeScope) -> crate::object::Scope {
    *scope_constant(ts)
}

/// Everything the resolution needs of the graph and the scope, as it goes.
pub open spec fn ready(g0: ObjectGraph, g: ObjectGraph, ts: TypeScope) -> bool {
    &&& grows(g0, g)
    &&& scope_in(g0, constant_scope_of(ts))
}

proof fn lemma_ready(g0: ObjectGraph, g: ObjectGraph, ts: TypeScope)
    requires
        ready(g0, g, ts),
    ensures
        scope_in(g, constant_scope_of(ts)),
        scope_constant(ts).module < g0@.len(),
        scope_constant(ts).module < g@.len(),
        !(g@[scope_constant(ts).module as int] is IClass),
        forall|name: Seq<char>| #[trigger] scope_has_param(g, ts, name) == scope_has_param(g0, ts, name),
        g.wf(),
        g0.wf(),
{
    lemma_scope_in_grows(g0, g, constant_scope_of(ts));
    assert(crate::object::scope_modules(constant_scope_of(ts))[0] == scope_constant(ts).module);
    assert forall|name: Seq<char>| #[trigger] scope_has_param(g, ts, name) == scope_has_param(g0, ts, name) by {
        lemma_has_param_grows(g0, g, ts, name);
    }
}

/// Growing further keeps a graph ready.
proof fn lemma_ready_grows(g0: ObjectGraph, g1: ObjectGraph, g2: ObjectGraph, ts: TypeScope)
    requires
        ready(g0, g1, ts),
        grows(g1, g2),
    ensures
        ready(g0, g2, ts),
{
    ObjectGraph::lemma_grows_trans(g0, g1, g2);
}

proof fn lemma_budget_step(a: nat, a1: nat, j: nat, k: nat)
    requires
        a1 <= doubled(a, j) || a1 == a,
    ensures
        a <= doubled(a, j),
        a1 <= doubled(a1, k),
        doubled(a1, k) <= doubled(a, j + k),
        doubled(a, j) <= doubled(a, j + k),
{
    lemma_doubled_add(a, j, 0);
    lemma_doubled_mono(a1, doubled(a, j), k);
    lemma_doubled_add(a, j, k);
    lemma_doubled_add(doubled(a, j), k, 0);
    lemma_doubled_add(a1, k, 0);
}

proof fn lemma_list_budget_mono(ns: Seq<Rc<Node>>, i: int, j: int)
    requires
        0 <= i <= j <= ns.len(),
    ensures
        list_budget(ns, i) <= list_budget(ns, j),
    decreases j - i,
{
    if i < j {
        lemma_list_budget_mono(ns, i, j - 1);
    }
}

proof fn lemma_list_ok_member(g: ObjectGraph, ns: Seq<Rc<Node>>, k: int, i: int)
    requires
        list_ok(g, ns, k),
        0 <= i < k <= ns.len(),
    ensures
        type_ok(g, *ns[i]),
    decreases k,
{
    if i < k - 1 {
        lemma_list_ok_member(g, ns, k - 1, i);
    }
}

/// Whether the first `k` of `ns` resolve, in order, to the first `k` of
/// `rs` depends on nothing else of `rs`.
proof fn lemma_list_is_prefix(g0: ObjectGraph, g: ObjectGraph, ts: TypeScope, ns: Seq<Rc<Node>>,
    rs: Seq<TypeNodeRef>, rs2: Seq<TypeNodeRef>, k: int, j: int)
    requires
        list_is(g0, g, ts, ns, rs, k),
        0 <= j <= k,
        j <= rs2.len(),
        forall|i: int| 0 <= i < j ==> rs2[i] == rs[i],
    ensures
        list_is(g0, g, ts, ns, rs2, j),
    decreases k,
{
    if j < k {
        lemma_list_is_prefix(g0, g, ts, ns, rs, rs2, k - 1, j);
    } else if j > 0 {
        lemma_list_is_prefix(g0, g, ts, ns, rs, rs2, k - 1, j - 1);
        assert(rs2[j - 1] == rs[j - 1]);
    }
}

/// Pushes a report that points at one place.
pub(crate) fn push_report1(reports: &mut Vec<Report>, message: &str, label: &str, loc: &Loc)
    ensures
        reports_view(final(reports)@) == reports_view(old(reports)@).push(report1(message@, label@, *loc)),
{
    let mut details: Vec<(String, Loc)> = Vec::new();
    details.push((label.to_owned(), loc.clone()));
    let r = Report { message: message.to_owned(), details };
    assert(r@.1 =~= seq![(label@, *loc)]);
    reports.push(r);
    assert(reports_view(reports@) =~= reports_view(old(reports)@).push(report1(message@, label@, *loc)));
}

proof fn lemma_mlhs_list_ok_member(ns: Seq<Rc<Node>>, k: int, i: int)
    requires
        mlhs_list_ok(ns, k),
        0 <= i < k <= ns.len(),
    ensures
        mlhs_ok(*ns[i]),
    decreases k,
{
    if i < k - 1 {
        lemma_mlhs_list_ok_member(ns, k - 1, i);
    }
}

/// A copy of an optional name.
fn clone_opt_id(name: &Option<Id>) -> (r: Option<Id>)
    ensures
        r == *name,
{
    match name {
        Some(id) => Some(id.clone()),
        None => None,
    }
}

proof fn lemma_args_ok_member(g: ObjectGraph, ns: Seq<Rc<Node>>, k: int, i: int)
    requires
        args_ok(g, ns, k),
        0 <= i < k <= ns.len(),
    ensures
        arg_ok(g, *ns[i]),
    decreases k,
{
    if i < k - 1 {
        lemma_args_ok_member(g, ns, k - 1, i);
    }
}

proof fn lemma_gen_ok_member(g: ObjectGraph, ns: Seq<Rc<Node>>, k: int, i: int)
    requires
        gen_ok(g, ns, k),
        0 <= i < k <= ns.len(),
    ensures
        match *ns[i] {
            Node::TyGendeclarg(l, _, st) => quotable(l) && match st {
                Some(x) => type_ok(g, *x),
                None => true,
            },
            Node::TyConSubtype(_, a, b) => type_ok(g, *a) && type_ok(g, *b),
            _ => false,
        },
    decreases k,
{
    if i < k - 1 {
        lemma_gen_ok_member(g, ns, k - 1, i);
    }
}

proof fn lemma_args_budget_mono(ns: Seq<Rc<Node>>, i: int, j: int)
    requires
        0 <= i <= j <= ns.len(),
    ensures
        args_budget(ns, i) <= args_budget(ns, j),
    decreases j - i,
{
    if i < j {
        lemma_args_budget_mono(ns, i, j - 1);
    }
}

proof fn lemma_decl_budget_mono(ns: Seq<Rc<Node>>, i: int, j: int)
    requires
        0 <= i <= j <= ns.len(),
    ensures
        decl_budget(ns, i) <= decl_budget(ns, j),
    decreases j - i,
{
    if i < j {
        lemma_decl_budget_mono(ns, i, j - 1);
    }
}

proof fn lemma_sub_budget_mono(ns: Seq<Rc<Node>>, i: int, j: int)
    requires
        0 <= i <= j <= ns.len(),
    ensures
        sub_budget(ns, i) <= sub_budget(ns, j),
    decreases j - i,
{
    if i < j {
        lemma_sub_budget_mono(ns, i, j - 1);
    }
}

/// Whether the first `k` of `ns` resolve, in order, to the first `k` of
/// `xs` depends on nothing else of `xs`.
proof fn lemma_args_is_prefix(g0: ObjectGraph, g: ObjectGraph, ts: TypeScope, ns: Seq<Rc<Node>>,
    xs: Seq<ArgNode>, xs2: Seq<ArgNode>, k: int, j: int)
    requires
        args_is(g0, g, ts, ns, xs, k),
        0 <= j <= k,
        j <= xs2.len(),
        forall|i: int| 0 <= i < j ==> xs2[i] == xs[i],
    ensures
        args_is(g0, g, ts, ns, xs2, j),
    decreases k,
{
    if j < k {
        lemma_args_is_prefix(g0, g, ts, ns, xs, xs2, k - 1, j);
    } else if j > 0 {
        lemma_args_is_prefix(g0, g, ts, ns, xs, xs2, k - 1, j - 1);
        assert(xs2[j - 1] == xs[j - 1]);
    }
}

/// Pushes a report that points at two places.
pub(crate) fn push_report2(reports: &mut Vec<Report>, message: &str, label1: &str, loc1: &Loc, label2: &str, loc2: &Loc)
    ensures
        reports_view(final(reports)@) == reports_view(old(reports)@).push(
            (message@, seq![(label1@, *loc1), (label2@, *loc2)])),
{
    let mut details: Vec<(String, Loc)> = Vec::new();
    details.push((label1.to_owned(), loc1.clone()));
    details.push((label2.to_owned(), loc2.clone()));
    let r = Report { message: message.to_owned(), details };
    assert(r@.1 =~= seq![(label1@, *loc1), (label2@, *loc2)]);
    reports.push(r);
    assert(reports_view(reports@) =~= reports_view(old(reports)@).push(
        (message@, seq![(label1@, *loc1), (label2@, *loc2)])));
}

/// Resolves annotations in a type scope, collecting what is wrong with
/// them as reports.
struct ResolveType {
    scope: Rc<TypeScope>,
}

impl ResolveType {
    /// The scope names are resolved in.
    spec fn ts(&self) -> TypeScope {
        *self.scope
    }

    /// The class or module `cpath` names, with a report when it names none.
    fn resolve_type_name(&self, graph: &ObjectGraph, cpath: &Node, reports: &mut Vec<Report>, Ghost(g0): Ghost<ObjectGraph>)
        -> (r: Option<usize>)
        requires
            ready(g0, *graph, *self.scope),
            cpath_ok(*cpath),
        ensures
            r == named_type(g0, *self.scope, *cpath).0,
            reports_view(final(reports)@) == reports_view(old(reports)@) + named_type(g0, *self.scope, *cpath).1,
            reports_ok(named_type(g0, *self.scope, *cpath).1),
            r matches Some(c) ==> c < g0@.len() && !(g0@[c as int] is IClass),
    {
        let scope = self.scope.constant_scope();
        proof {
            lemma_ready(g0, *graph, self.ts());
            lemma_cpath_lookup_grows(g0, *graph, *cpath, scope_at(&scope));
            lemma_reports_ok_empty();
        }
        match resolve_cpath(graph, cpath, &scope) {
            Ok(c) => match &*c {
                ConstantEntry::Expression { .. } => {
                    push_report1(reports, "Constant mentioned in type name does not reference static class/module",
                        "here", cpath.loc());
                    proof {
                        lemma_reports_ok_one("Constant mentioned in type name does not reference static class/module"@,
                            "here"@, cpath.spec_loc());
                        assert(reports_view(old(reports)@).push(report1(
                            "Constant mentioned in type name does not reference static class/module"@, "here"@,
                            cpath.spec_loc())) =~= reports_view(old(reports)@) + named_type(g0, *self.scope, *cpath).1);
                    }
                    None
                },
                ConstantEntry::Module { value, .. } => {
                    assert(reports_view(old(reports)@) =~= reports_view(old(reports)@) + Seq::<ReportView>::empty());
                    Some(*value)
                },
            },
            Err((l, m)) => {
                push_report1(reports, m, "here", &l);
                proof {
                    lemma_cpath_err_quotable(g0, *cpath, scope_at(&scope));
                    lemma_reports_ok_one(m@, "here"@, l);
                    assert(reports_view(old(reports)@).push(report1(m@, "here"@, l))
                        =~= reports_view(old(reports)@) + named_type(g0, *self.scope, *cpath).1);
                }
                None
            },
        }
    }

    /// `Class` with the type arguments of `node`: `Class` itself without
    /// them, else the metaclass of what the first one names, which must be
    /// a constant path; only one is taken.
    fn resolve_class_instance_type(&self, graph: &mut ObjectGraph, node: &Node, reports: &mut Vec<Report>,
        Ghost(g0): Ghost<ObjectGraph>) -> (r: TypeNodeRef)
        requires
            ready(g0, *old(graph), self.ts()),
            node is TyCpath || node is TyGeninst,
            type_ok(g0, *node),
            2 * old(graph)@.len() + 2 < usize::MAX,
        ensures
            grows_mc(*old(graph), *final(graph)),
            final(graph)@.len() <= 2 * old(graph)@.len(),
            forall|g: ObjectGraph| #[trigger] grows(*final(graph), g) ==> class_inst_is(g0, g, self.ts(), *node, *r),
            type_loc(*r) == node.spec_loc(),
            reports_view(final(reports)@) == reports_view(old(reports)@) + class_args_reps(g0, self.ts(), inst_args(*node)),
            reports_ok(class_args_reps(g0, self.ts(), inst_args(*node))),
    {
        proof {
            lemma_ready(g0, *graph, self.ts());
            graph.lemma_grows_mc_refl();
            g0.lemma_named_in();
            lemma_reports_ok_empty();
        }
        let ghost g1 = *graph;
        match node {
            Node::TyGeninst(loc, _, args) => {
                if args.len() == 0 {
                    let c = graph.class_class();
                    assert(reports_view(old(reports)@) =~= reports_view(old(reports)@) + Seq::<ReportView>::empty());
                    return Rc::new(TypeNode::Instance { loc: loc.clone(), class: c, type_parameters: Vec::new() });
                }
                let ghost r0 = reports_view(reports@);
                let ghost first: Seq<ReportView> = if args@.len() > 1 {
                    seq![report1("Too many type parameters supplied in instantiation of metaclass"@, "from here"@,
                        args@[1].spec_loc())]
                } else {
                    seq![]
                };
                proof {
                    lemma_list_ok_member(g0, args@, args@.len() as int, 0);
                }
                if args.len() > 1 {
                    push_report1(reports, "Too many type parameters supplied in instantiation of metaclass", "from here",
                        args[1].loc());
                    proof {
                        lemma_list_ok_member(g0, args@, args@.len() as int, 1);
                        lemma_reports_ok_one("Too many type parameters supplied in instantiation of metaclass"@,
                            "from here"@, args@[1].spec_loc());
                    }
                }
                assert(reports_view(reports@) =~= r0 + first);
                match &*args[0] {
                    Node::TyCpath(_, cp) => {
                        let named = self.resolve_type_name(graph, cp, reports, Ghost(g0));
                        proof {
                            lemma_reports_ok_add(first, named_type(g0, self.ts(), node_at(*cp)).1);
                            assert(reports_view(reports@) =~= r0 + (first + named_type(g0, self.ts(), **cp).1));
                        }
                        match named {
                            Some(obj) => {
                                proof {
                                    assert(same_but_class(graph@[obj as int], g0@[obj as int]));
                                }
                                let m = graph.metaclass(obj);
                                proof {
                                    assert forall|g: ObjectGraph| #[trigger] grows(*graph, g) implies
                                        (m < g@.len() && (g@[m as int] matches RubyObject::Metaclass { of, .. } && of == obj)) by {
                                        assert(same_but_class(g@[m as int], graph@[m as int]));
                                    }
                                }
                                Rc::new(TypeNode::Instance { loc: loc.clone(), class: m, type_parameters: Vec::new() })
                            },
                            None => Rc::new(TypeNode::Error { loc: loc.clone() }),
                        }
                    },
                    _ => {
                        push_report1(reports, "Type parameter in metaclass instantiation must be constant path", "here",
                            args[0].loc());
                        proof {
                            let second = seq![report1("Type parameter in metaclass instantiation must be constant path"@,
                                "here"@, args@[0].spec_loc())];
                            lemma_reports_ok_one("Type parameter in metaclass instantiation must be constant path"@,
                                "here"@, args@[0].spec_loc());
                            lemma_reports_ok_add(first, second);
                            assert(reports_view(reports@) =~= r0 + (first + second));
                        }
                        Rc::new(TypeNode::Error { loc: loc.clone() })
                    },
                }
            },
            Node::TyCpath(loc, _) => {
                let c = graph.class_class();
                assert(reports_view(old(reports)@) =~= reports_view(old(reports)@) + Seq::<ReportView>::empty());
                Rc::new(TypeNode::Instance { loc: loc.clone(), class: c, type_parameters: Vec::new() })
            },
            _ => Rc::new(TypeNode::Error { loc: node.loc().clone() }),
        }
    }

    /// An instance of `class` at `loc` with the type arguments
    /// `type_parameters`, resolved from `args`: missing ones are filled with
    /// errors and extra ones dropped, with a report either way.
    fn create_instance_type(&self, graph: &ObjectGraph, loc: &Loc, class: usize,
        type_parameters: Vec<TypeNodeRef>, Ghost(args): Ghost<Seq<Rc<Node>>>, reports: &mut Vec<Report>,
        Ghost(g0): Ghost<ObjectGraph>) -> (r: TypeNodeRef)
        requires
            ready(g0, *graph, self.ts()),
            class < g0@.len(),
            !(g0@[class as int] is IClass),
            quotable(*loc),
            type_parameters@.len() == args.len(),
            forall|i: int| 0 <= i < args.len() ==> type_loc(*(#[trigger] type_parameters@[i]))
                == resolved_loc(g0, self.ts(), *args[i]) && quotable(type_loc(*type_parameters@[i])),
        ensures
            *r matches TypeNode::Instance { loc: l, class: c, type_parameters: ps } && l == *loc && c == class
                && ps@.len() == type_params(g0@[class as int]).len()
                && (forall|i: int| 0 <= i < ps@.len() && i < args.len() ==> #[trigger] ps@[i] == type_parameters@[i])
                && (forall|i: int| args.len() <= i < ps@.len() ==> *(#[trigger] ps@[i]) == (TypeNode::Error { loc: *loc })),
            reports_view(final(reports)@) == reports_view(old(reports)@) + create_reps(g0, self.ts(), *loc, class, args),
            reports_ok(create_reps(g0, self.ts(), *loc, class, args)),
    {
        let mut type_parameters = type_parameters;
        let ghost tps0 = type_parameters@;
        proof {
            lemma_ready(g0, *graph, self.ts());
            assert(same_but_class(graph@[class as int], g0@[class as int]));
            lemma_reports_ok_empty();
        }
        let params = graph.object(class).type_parameters();
        let supplied = type_parameters.len();
        let expected = params.len();
        let ghost r0 = reports_view(reports@);
        if supplied == 0 && expected > 0 {
            push_report1(reports, "Type referenced is generic but no type parameters were supplied", "here", loc);
            proof {
                lemma_reports_ok_one("Type referenced is generic but no type parameters were supplied"@, "here"@, *loc);
            }
            let mut i: usize = 0;
            while i < expected
                invariant
                    i <= expected,
                    type_parameters@.len() == i,
                    forall|k: int| 0 <= k < i ==> *(#[trigger] type_parameters@[k]) == (TypeNode::Error { loc: *loc }),
                decreases expected - i,
            {
                type_parameters.push(Rc::new(TypeNode::Error { loc: loc.clone() }));
                i = i + 1;
            }
        } else if supplied < expected {
            proof {
                ObjectGraph::lemma_grows_name(g0, *graph, class as int);
            }
            let mut message = graph.name_of(class);
            push_str(&mut message, " also expects ");
            let ghost head = message@;
            let ghost rest = params@.skip(supplied as int);
            let mut i: usize = supplied;
            while i < expected
                invariant
                    supplied <= i <= expected,
                    expected == params@.len(),
                    rest == params@.skip(supplied as int),
                    message@ == head + join_names(rest.take(i - supplied)),
                decreases expected - i,
            {
                assert(rest.take(i - supplied + 1).drop_last() =~= rest.take(i - supplied));
                assert(rest.take(i - supplied + 1).last() == params@[i as int]);
                if i > supplied {
                    push_str(&mut message, ", ");
                }
                push_str(&mut message, params[i].1.as_str());
                i = i + 1;
            }
            assert(rest.take(expected - supplied) =~= rest);
            push_report1(reports, "Too few type parameters supplied in instantiation of generic type", message.as_str(), loc);
            proof {
                lemma_reports_ok_one("Too few type parameters supplied in instantiation of generic type"@, message@, *loc);
            }
            let mut i: usize = supplied;
            while i < expected
                invariant
                    supplied <= i <= expected,
                    type_parameters@.len() == i,
                    forall|k: int| 0 <= k < supplied ==> #[trigger] type_parameters@[k] == tps0[k],
                    forall|k: int| supplied <= k < i ==> *(#[trigger] type_parameters@[k]) == (TypeNode::Error { loc: *loc }),
                decreases expected - i,
            {
                type_parameters.push(Rc::new(TypeNode::Error { loc: loc.clone() }));
                i = i + 1;
            }
        } else if supplied > expected {
            push_report1(reports, "Too many type parameters supplied in instantiation of generic type", "from here",
                type_parameters[expected].loc());
            proof {
                lemma_reports_ok_one("Too many type parameters supplied in instantiation of generic type"@, "from here"@,
                    type_loc(type_at(type_parameters@[expected as int])));
            }
            type_parameters.truncate(expected);
        }
        assert(reports_view(reports@) =~= r0 + create_reps(g0, self.ts(), *loc, class, args));
        Rc::new(TypeNode::Instance { loc: loc.clone(), class, type_parameters })
    }

    /// What the destructuring argument `node` binds; a rest argument in it
    /// binds nothing and is reported.
    fn resolve_arg_mlhs(&self, node: &Node, reports: &mut Vec<Report>) -> (r: Option<ArgLhs>)
        requires
            mlhs_ok(*node),
        ensures
            node is Restarg ==> r is None,
            !(node is Restarg) ==> (r matches Some(l) && lhs_is(*node, l)),
            reports_view(final(reports)@) == reports_view(old(reports)@) + mlhs_reps(*node),
            reports_ok(mlhs_reps(*node)),
        decreases *node,
    {
        proof {
            lemma_reports_ok_empty();
        }
        match node {
            Node::Arg(loc, name) => {
                assert(reports_view(old(reports)@) =~= reports_view(old(reports)@) + Seq::<ReportView>::empty());
                Some(ArgLhs::Lvar { name: Id(loc.clone(), name.clone()) })
            },
            Node::Restarg(loc, _) => {
                push_report1(reports, "Only required arguments are supported in destructuring arguments", "here", loc);
                proof {
                    lemma_reports_ok_one("Only required arguments are supported in destructuring arguments"@, "here"@, *loc);
                    assert(reports_view(reports@) =~= reports_view(old(reports)@) + mlhs_reps(*node));
                }
                None
            },
            Node::Mlhs(loc, items) => {
                let mut v: Vec<ArgLhs> = Vec::new();
                let mut i: usize = 0;
                let ghost r0 = reports_view(reports@);
                while i < items.len()
                    invariant
                        i <= items@.len(),
                        *node == Node::Mlhs(*loc, *items),
                        mlhs_list_ok(items@, items@.len() as int),
                        lhs_list_is(items@, v@, i as int),
                        reports_view(reports@) == r0 + mlhs_list_reps(items@, i as int),
                        reports_ok(mlhs_list_reps(items@, i as int)),
                    decreases items@.len() - i,
                {
                    proof {
                        lemma_mlhs_list_ok_member(items@, items@.len() as int, i as int);
                        assert(decreases_to!(*node => node->Mlhs_1));
                        assert(decreases_to!(node->Mlhs_1 => node->Mlhs_1@));
                        assert(decreases_to!(node->Mlhs_1@ => node->Mlhs_1@[i as int]));
                    }
                    let ghost v0 = v@;
                    let r = self.resolve_arg_mlhs(&items[i], reports);
                    match r {
                        Some(l) => {
                            v.push(l);
                            assert(v@.drop_last() =~= v0);
                        },
                        None => {},
                    }
                    proof {
                        lemma_reports_ok_add(mlhs_list_reps(items@, i as int), mlhs_reps(node_at(items@[i as int])));
                        assert(reports_view(reports@) =~= r0 + mlhs_list_reps(items@, i + 1));
                    }
                    i = i + 1;
                }
                Some(ArgLhs::Mlhs { loc: loc.clone(), items: v })
            },
            _ => None,
        }
    }

    /// The plain argument `x`, at `loc`, of type `ty`.
    fn plain_arg(&self, loc: Loc, x: &Node, ty: Option<TypeNodeRef>) -> (r: ArgNode)
        requires
            plain_arg(*x),
        ensures
            plain_arg_is(self.ts(), loc, *x, r),
            arg_ty(r) == ty,
    {
        match x {
            Node::Arg(l, name) => ArgNode::Required { loc, ty, lhs: ArgLhs::Lvar { name: Id(l.clone(), name.clone()) } },
            Node::Blockarg(_, name) => ArgNode::Block { loc, ty, name: clone_opt_id(name) },
            Node::Kwarg(l, name) => ArgNode::Kwarg { loc, ty, name: Id(l.clone(), name.clone()) },
            Node::Kwoptarg(_, name, e) => ArgNode::Kwoptarg { loc, ty, name: name.clone(),
                default: ArgExpr { expr: Rc::clone(e), scope: self.scope.constant_scope() } },
            Node::Optarg(_, name, e) => ArgNode::Optional { loc, ty, name: name.clone(),
                default: ArgExpr { expr: Rc::clone(e), scope: self.scope.constant_scope() } },
            Node::Restarg(_, name) => ArgNode::Rest { loc, ty, name: clone_opt_id(name) },
            Node::Kwrestarg(_, name) => ArgNode::Kwrest { loc, ty, name: clone_opt_id(name) },
            _ => ArgNode::Rest { loc, ty, name: None },
        }
    }
    /// The types that the type arguments `items` of `node`, a tuple or an
    /// instantiation, resolve to, in order.
    fn resolve_list(&self, graph: &mut ObjectGraph, node: &Node, items: &Vec<Rc<Node>>, reports: &mut Vec<Report>,
        Ghost(g0): Ghost<ObjectGraph>) -> (rs: Vec<TypeNodeRef>)
        requires
            ready(g0, *old(graph), self.ts()),
            (node matches Node::TyTuple(_, l) && l == *items) || (node matches Node::TyGeninst(_, _, l) && l == *items),
            list_ok(g0, items@, items@.len() as int),
            doubled(old(graph)@.len() as nat, list_budget(items@, items@.len() as int)) < usize::MAX / 2,
        ensures
            grows_mc(*old(graph), *final(graph)),
            final(graph)@.len() <= doubled(old(graph)@.len() as nat, list_budget(items@, items@.len() as int)),
            rs@.len() == items@.len(),
            forall|g: ObjectGraph| #[trigger] grows(*final(graph), g)
                ==> list_is(g0, g, self.ts(), items@, rs@, items@.len() as int),
            forall|i: int| 0 <= i < items@.len() ==> type_loc(*(#[trigger] rs@[i])) == resolved_loc(g0, self.ts(), *items@[i])
                && quotable(type_loc(*rs@[i])),
            reports_view(final(reports)@) == reports_view(old(reports)@) + list_reps(g0, self.ts(), items@, items@.len() as int),
            reports_ok(list_reps(g0, self.ts(), items@, items@.len() as int)),
        decreases *node, 0int,
    {
        let ghost r0 = reports_view(reports@);
        let ghost len0 = graph@.len() as nat;
        let ghost total = list_budget(items@, items@.len() as int);
        let mut rs: Vec<TypeNodeRef> = Vec::new();
        let mut i: usize = 0;
        proof {
            lemma_ready(g0, *graph, self.ts());
            graph.lemma_grows_mc_refl();
            lemma_reports_ok_empty();
            assert(r0 =~= r0 + list_reps(g0, self.ts(), items@, 0));
        }
        while i < items.len()
            invariant
                i <= items@.len(),
                (node matches Node::TyTuple(_, l) && l == *items) || (node matches Node::TyGeninst(_, _, l) && l == *items),
                ready(g0, *graph, self.ts()),
                grows_mc(*old(graph), *graph),
                len0 == old(graph)@.len(),
                total == list_budget(items@, items@.len() as int),
                doubled(len0, total) < usize::MAX / 2,
                graph@.len() <= doubled(len0, list_budget(items@, i as int)),
                list_ok(g0, items@, items@.len() as int),
                rs@.len() == i,
                forall|g: ObjectGraph| #[trigger] grows(*graph, g) ==> list_is(g0, g, self.ts(), items@, rs@, i as int),
                forall|k: int| 0 <= k < i ==> type_loc(*(#[trigger] rs@[k])) == resolved_loc(g0, self.ts(), *items@[k])
                    && quotable(type_loc(*rs@[k])),
                reports_view(reports@) == r0 + list_reps(g0, self.ts(), items@, i as int),
                reports_ok(list_reps(g0, self.ts(), items@, i as int)),
            decreases items@.len() - i,
        {
            let ghost g1 = *graph;
            let ghost rs0 = rs@;
            proof {
                lemma_list_ok_member(g0, items@, items@.len() as int, i as int);
                lemma_list_budget_mono(items@, i + 1, items@.len() as int);
                lemma_budget_step(len0, graph@.len() as nat, list_budget(items@, i as int), type_budget(node_at(items@[i as int])));
                lemma_budget_step(len0, len0, list_budget(items@, i + 1),
                    (total - list_budget(items@, i + 1)) as nat);
                lemma_doubled_add(len0, list_budget(items@, i + 1), 0);
                if node is TyTuple {
                    assert(decreases_to!(*node => node->TyTuple_1));
                    assert(decreases_to!(node->TyTuple_1 => node->TyTuple_1@));
                    assert(decreases_to!(node->TyTuple_1@ => node->TyTuple_1@[i as int]));
                } else {
                    assert(decreases_to!(*node => node->TyGeninst_2));
                    assert(decreases_to!(node->TyGeninst_2 => node->TyGeninst_2@));
                    assert(decreases_to!(node->TyGeninst_2@ => node->TyGeninst_2@[i as int]));
                }
            }
            let t = self.resolve_type(graph, &items[i], reports, Ghost(g0));
            rs.push(t);
            proof {
                ObjectGraph::lemma_grows_mc_trans(*old(graph), g1, *graph);
                lemma_ready_grows(g0, g1, *graph, self.ts());
                assert forall|g: ObjectGraph| #[trigger] grows(*graph, g)
                    implies list_is(g0, g, self.ts(), items@, rs@, i + 1) by {
                    ObjectGraph::lemma_grows_trans(g1, *graph, g);
                    assert(list_is(g0, g, self.ts(), items@, rs0, i as int));
                    lemma_list_is_prefix(g0, g, self.ts(), items@, rs0, rs@, i as int, i as int);
                    assert(rs@[i as int] == t);
                }
                lemma_reports_ok_add(list_reps(g0, self.ts(), items@, i as int), type_reps(g0, self.ts(), node_at(items@[i as int])));
                assert(reports_view(reports@) =~= r0 + list_reps(g0, self.ts(), items@, i + 1));
            }
            i = i + 1;
        }
        rs
    }

    /// What the type instance `node` resolves to: a type parameter of the
    /// scope, `Class` or a metaclass, or an instance of the class it names
    /// with its type arguments resolved.
    fn resolve_instance_type(&self, graph: &mut ObjectGraph, node: &Node, reports: &mut Vec<Report>,
        Ghost(g0): Ghost<ObjectGraph>) -> (r: TypeNodeRef)
        requires
            ready(g0, *old(graph), self.ts()),
            node is TyCpath || node is TyGeninst,
            type_ok(g0, *node),
            doubled(old(graph)@.len() as nat, type_budget(*node)) < usize::MAX / 2,
        ensures
            grows_mc(*old(graph), *final(graph)),
            final(graph)@.len() <= doubled(old(graph)@.len() as nat, type_budget(*node)),
            forall|g: ObjectGraph| #[trigger] grows(*final(graph), g) ==> inst_is(g0, g, self.ts(), *node, *r),
            type_loc(*r) == resolved_loc(g0, self.ts(), *node),
            quotable(type_loc(*r)),
            reports_view(final(reports)@) == reports_view(old(reports)@) + inst_reps(g0, self.ts(), *node),
            reports_ok(inst_reps(g0, self.ts(), *node)),
        decreases *node, 1int,
    {
        let ghost r0 = reports_view(reports@);
        let ghost len0 = graph@.len() as nat;
        proof {
            lemma_ready(g0, *graph, self.ts());
            graph.lemma_grows_mc_refl();
            g0.lemma_named_in();
            lemma_reports_ok_empty();
            lemma_doubled_add(len0, 1, (type_budget(*node) - 1) as nat);
            lemma_doubled_add(len0 * 2, (type_budget(*node) - 1) as nat, 0);
        }
        let (loc, cpath, nargs): (&Loc, &Rc<Node>, usize) = match node {
            Node::TyCpath(loc, c) => (loc, c, 0),
            Node::TyGeninst(loc, c, a) => (loc, c, a.len()),
            _ => {
                return Rc::new(TypeNode::Error { loc: node.loc().clone() });
            },
        };
        assert(inst_cpath(*node) == **cpath);
        assert(nargs == inst_args(*node).len());
        match &**cpath {
            Node::Const(_, None, id) => {
                if self.scope.is_param(graph, id.1.as_str()) {
                    if nargs > 0 {
                        push_report1(reports, "Type parameters were supplied but type mentioned does not take any",
                            "here", &id.0);
                        proof {
                            lemma_reports_ok_one("Type parameters were supplied but type mentioned does not take any"@,
                                "here"@, id.0);
                        }
                    }
                    assert(reports_view(reports@) =~= r0 + inst_reps(g0, self.ts(), *node));
                    return Rc::new(TypeNode::TypeParameter { loc: id.0.clone(), name: id.1.clone() });
                }
            },
            _ => {},
        }
        assert(!names_type_param(g0, self.ts(), *node));
        let named = self.resolve_type_name(graph, cpath, reports, Ghost(g0));
        let ghost r1 = reports_view(reports@);
        match named {
            Some(class) => {
                if class == graph.class_class() {
                    let r = self.resolve_class_instance_type(graph, node, reports, Ghost(g0));
                    proof {
                        lemma_reports_ok_add(named_type(g0, self.ts(), inst_cpath(*node)).1,
                            class_args_reps(g0, self.ts(), inst_args(*node)));
                        assert(reports_view(reports@) =~= r0 + inst_reps(g0, self.ts(), *node));
                    }
                    r
                } else {
                    let ghost g1 = *graph;
                    let tps = match node {
                        Node::TyGeninst(_, _, a) => {
                            proof {
                                lemma_budget_step(len0, len0, list_budget(a@, a@.len() as int), 1);
                                assert(type_budget(*node) == 1 + list_budget(a@, a@.len() as int));
                            }
                            self.resolve_list(graph, node, a, reports, Ghost(g0))
                        },
                        _ => {
                            assert(list_reps(g0, self.ts(), inst_args(*node), 0) =~= Seq::<ReportView>::empty());
                            Vec::new()
                        },
                    };
                    let ghost g2 = *graph;
                    let ghost r2 = reports_view(reports@);
                    proof {
                        lemma_ready_grows(g0, g1, g2, self.ts());
                        match node {
                            Node::TyGeninst(_, _, a) => {
                                lemma_budget_step(len0, len0, list_budget(a@, a@.len() as int), 1);
                                assert(type_budget(*node) == 1 + list_budget(a@, a@.len() as int));
                            },
                            _ => {},
                        }
                    }
                    let r = self.create_instance_type(graph, loc, class, tps, Ghost(inst_args(*node)), reports, Ghost(g0));
                    proof {
                        match node {
                            Node::TyGeninst(_, _, a) => {
                                assert(inst_args(*node) == a@);
                                lemma_reports_ok_add(named_type(g0, self.ts(), inst_cpath(*node)).1,
                                    list_reps(g0, self.ts(), a@, a@.len() as int));
                                lemma_reports_ok_add(named_type(g0, self.ts(), inst_cpath(*node)).1
                                    + list_reps(g0, self.ts(), a@, a@.len() as int),
                                    create_reps(g0, self.ts(), *loc, class, a@));
                                assert(reports_view(reports@) =~= r0 + inst_reps(g0, self.ts(), *node));
                                assert forall|g: ObjectGraph| #[trigger] grows(*graph, g)
                                    implies inst_is(g0, g, self.ts(), *node, *r) by {
                                    let ps = r->type_parameters@;
                                    let k = if a@.len() < ps.len() { a@.len() as int } else { ps.len() as int };
                                    lemma_list_is_prefix(g0, g, self.ts(), a@, tps@, ps, a@.len() as int, k);
                                }
                            },
                            _ => {
                                lemma_reports_ok_add(named_type(g0, self.ts(), inst_cpath(*node)).1,
                                    create_reps(g0, self.ts(), *loc, class, seq![]));
                                assert(reports_view(reports@) =~= r0 + inst_reps(g0, self.ts(), *node));
                            },
                        }
                    }
                    r
                }
            },
            None => {
                assert(reports_view(reports@) =~= r0 + inst_reps(g0, self.ts(), *node));
                Rc::new(TypeNode::Error { loc: cpath.loc().clone() })
            },
        }
    }

    /// The types that the two parts `a` and `b` of `node`, a hash type or
    /// a union, resolve to, in order.
    fn resolve_pair(&self, graph: &mut ObjectGraph, node: &Node, a: &Rc<Node>, b: &Rc<Node>,
        reports: &mut Vec<Report>, Ghost(g0): Ghost<ObjectGraph>) -> (r: (TypeNodeRef, TypeNodeRef))
        requires
            ready(g0, *old(graph), self.ts()),
            (node matches Node::TyHash(_, x, y) && x == *a && y == *b)
                || (node matches Node::TyOr(_, x, y) && x == *a && y == *b),
            type_ok(g0, **a),
            type_ok(g0, **b),
            doubled(old(graph)@.len() as nat, type_budget(**a) + type_budget(**b)) < usize::MAX / 2,
        ensures
            grows_mc(*old(graph), *final(graph)),
            final(graph)@.len() <= doubled(old(graph)@.len() as nat, type_budget(**a) + type_budget(**b)),
            forall|g: ObjectGraph| #[trigger] grows(*final(graph), g)
                ==> type_is(g0, g, self.ts(), **a, *r.0) && type_is(g0, g, self.ts(), **b, *r.1),
            reports_view(final(reports)@) == reports_view(old(reports)@) + type_reps(g0, self.ts(), **a)
                + type_reps(g0, self.ts(), **b),
            reports_ok(type_reps(g0, self.ts(), **a) + type_reps(g0, self.ts(), **b)),
        decreases *node, 1int,
    {
        let ghost r0 = reports_view(reports@);
        let ghost len0 = graph@.len() as nat;
        let ghost gs = *graph;
        proof {
            lemma_budget_step(len0, len0, type_budget(node_at(*a)), type_budget(node_at(*b)));
        }
        let at = self.resolve_type(graph, a, reports, Ghost(g0));
        let ghost g1 = *graph;
        proof {
            lemma_ready_grows(g0, gs, g1, self.ts());
            lemma_budget_step(len0, g1@.len() as nat, type_budget(node_at(*a)), type_budget(node_at(*b)));
        }
        let bt = self.resolve_type(graph, b, reports, Ghost(g0));
        proof {
            ObjectGraph::lemma_grows_mc_trans(gs, g1, *graph);
            assert forall|g: ObjectGraph| #[trigger] grows(*graph, g)
                implies type_is(g0, g, self.ts(), node_at(*a), *at) && type_is(g0, g, self.ts(), node_at(*b), *bt) by {
                ObjectGraph::lemma_grows_trans(g1, *graph, g);
            }
            lemma_reports_ok_add(type_reps(g0, self.ts(), node_at(*a)), type_reps(g0, self.ts(), node_at(*b)));
            assert(reports_view(reports@) =~= r0 + type_reps(g0, self.ts(), node_at(*a)) + type_reps(g0, self.ts(), node_at(*b)));
        }
        (at, bt)
    }

    /// What the type annotation `node` resolves to.
    fn resolve_type(&self, graph: &mut ObjectGraph, node: &Node, reports: &mut Vec<Report>,
        Ghost(g0): Ghost<ObjectGraph>) -> (r: TypeNodeRef)
        requires
            ready(g0, *old(graph), self.ts()),
            type_ok(g0, *node),
            doubled(old(graph)@.len() as nat, type_budget(*node)) < usize::MAX / 2,
        ensures
            grows_mc(*old(graph), *final(graph)),
            final(graph)@.len() <= doubled(old(graph)@.len() as nat, type_budget(*node)),
            forall|g: ObjectGraph| #[trigger] grows(*final(graph), g) ==> type_is(g0, g, self.ts(), *node, *r),
            type_loc(*r) == resolved_loc(g0, self.ts(), *node),
            quotable(type_loc(*r)),
            reports_view(final(reports)@) == reports_view(old(reports)@) + type_reps(g0, self.ts(), *node),
            reports_ok(type_reps(g0, self.ts(), *node)),
        decreases *node, 2int,
    {
        let ghost r0 = reports_view(reports@);
        let ghost len0 = graph@.len() as nat;
        let ghost gs = *graph;
        proof {
            lemma_ready(g0, *graph, self.ts());
            graph.lemma_grows_mc_refl();
            g0.lemma_named_in();
            lemma_reports_ok_empty();
            lemma_doubled_add(len0, type_budget(*node), 0);
            assert(r0 =~= r0 + Seq::<ReportView>::empty());
        }
        match node {
            Node::TyCpath(..) | Node::TyGeninst(..) => self.resolve_instance_type(graph, node, reports, Ghost(g0)),
            Node::TyNil(loc) => {
                let c = graph.nil_class();
                Rc::new(TypeNode::Instance { loc: loc.clone(), class: c, type_parameters: Vec::new() })
            },
            Node::TyAny(loc) => Rc::new(TypeNode::Any { loc: loc.clone() }),
            Node::TyClass(loc) => Rc::new(TypeNode::SpecialClass { loc: loc.clone() }),
            Node::TySelf(loc) => Rc::new(TypeNode::SpecialSelf { loc: loc.clone() }),
            Node::TyInstance(loc) => Rc::new(TypeNode::SpecialInstance { loc: loc.clone() }),
            Node::TyArray(loc, e) => {
                proof {
                    ObjectGraph::lemma_grows_const_seen(g0, *graph, g0.object_index(), "Array"@);
                }
                let a = graph.array_class();
                let et = self.resolve_type(graph, e, reports, Ghost(g0));
                let mut v: Vec<TypeNodeRef> = Vec::new();
                v.push(et);
                Rc::new(TypeNode::Instance { loc: loc.clone(), class: a, type_parameters: v })
            },
            Node::TyHash(loc, k, v) => {
                proof {
                    ObjectGraph::lemma_grows_const_seen(g0, *graph, g0.object_index(), "Hash"@);
                }
                let h = graph.hash_class();
                let (kt, vt) = self.resolve_pair(graph, node, k, v, reports, Ghost(g0));
                let mut ps: Vec<TypeNodeRef> = Vec::new();
                ps.push(kt);
                ps.push(vt);
                Rc::new(TypeNode::Instance { loc: loc.clone(), class: h, type_parameters: ps })
            },
            Node::TyProc(loc, p) => {
                let (_, proto) = self.resolve_prototype(graph, p, reports, Ghost(g0));
                Rc::new(TypeNode::Proc { loc: loc.clone(), proto })
            },
            Node::TyNillable(loc, x) => {
                let c = graph.nil_class();
                let nil = Rc::new(TypeNode::Instance { loc: loc.clone(), class: c, type_parameters: Vec::new() });
                let xt = self.resolve_type(graph, x, reports, Ghost(g0));
                let mut ts: Vec<TypeNodeRef> = Vec::new();
                ts.push(nil);
                ts.push(xt);
                Rc::new(TypeNode::Union { loc: loc.clone(), types: ts })
            },
            Node::TyParen(_, x) => self.resolve_type(graph, x, reports, Ghost(g0)),
            Node::TyOr(loc, a, b) => {
                let (at, bt) = self.resolve_pair(graph, node, a, b, reports, Ghost(g0));
                let mut ts: Vec<TypeNodeRef> = Vec::new();
                ts.push(at);
                ts.push(bt);
                Rc::new(TypeNode::Union { loc: loc.clone(), types: ts })
            },
            Node::TyTuple(loc, items) => {
                let lead = self.resolve_list(graph, node, items, reports, Ghost(g0));
                Rc::new(TypeNode::Tuple { loc: loc.clone(), lead, splat: None, post: Vec::new() })
            },
            _ => Rc::new(TypeNode::Error { loc: node.loc().clone() }),
        }
    }

    /// An argument and its type, if it has one, with how much of it is
    /// annotated.
    fn resolve_arg(&self, graph: &mut ObjectGraph, node: &Node, reports: &mut Vec<Report>,
        Ghost(g0): Ghost<ObjectGraph>) -> (r: (AnnotationStatus, ArgNode))
        requires
            ready(g0, *old(graph), self.ts()),
            arg_ok(g0, *node),
            doubled(old(graph)@.len() as nat, arg_budget(*node)) < usize::MAX / 2,
        ensures
            grows_mc(*old(graph), *final(graph)),
            final(graph)@.len() <= doubled(old(graph)@.len() as nat, arg_budget(*node)),
            r.0 == arg_status(*node),
            forall|g: ObjectGraph| #[trigger] grows(*final(graph), g) ==> arg_is(g0, g, self.ts(), *node, r.1),
            reports_view(final(reports)@) == reports_view(old(reports)@) + arg_reps(g0, self.ts(), *node),
            reports_ok(arg_reps(g0, self.ts(), *node)),
        decreases *node, 3int,
    {
        let ghost r0 = reports_view(reports@);
        let ghost len0 = graph@.len() as nat;
        let ghost gs = *graph;
        proof {
            lemma_ready(g0, *graph, self.ts());
            graph.lemma_grows_mc_refl();
            lemma_reports_ok_empty();
            lemma_doubled_add(len0, arg_budget(*node), 0);
            assert(r0 =~= r0 + Seq::<ReportView>::empty());
        }
        let arg_loc = node.loc().clone();
        match node {
            Node::TyTypedArg(_, t, x) => {
                proof {
                    lemma_budget_step(len0, len0, type_budget(node_at(*t)), (arg_budget(*node) - type_budget(node_at(*t))) as nat);
                    lemma_doubled_add(len0, type_budget(node_at(*t)), 0);
                }
                let ty = self.resolve_type(graph, t, reports, Ghost(g0));
                let ghost g1 = *graph;
                let ghost r1 = reports_view(reports@);
                proof {
                    lemma_ready_grows(g0, gs, g1, self.ts());
                }
                match &**x {
                    Node::Procarg0(_, y) => {
                        proof {
                            lemma_budget_step(len0, g1@.len() as nat, type_budget(node_at(*t)), arg_budget(node_at(*y)));
                        }
                        let (inner, arg) = self.resolve_arg(graph, y, reports, Ghost(g0));
                        let r = (AnnotationStatus::Typed.append(inner), ArgNode::Procarg0 { loc: arg_loc, arg: Box::new(arg) });
                        proof {
                            ObjectGraph::lemma_grows_mc_trans(gs, g1, *graph);
                            lemma_reports_ok_add(type_reps(g0, self.ts(), node_at(*t)), arg_reps(g0, self.ts(), node_at(*y)));
                            assert(reports_view(reports@) =~= r0 + arg_reps(g0, self.ts(), *node));
                        }
                        r
                    },
                    Node::Mlhs(..) => {
                        let lhs = self.resolve_arg_mlhs(x, reports);
                        let ghost r2 = reports_view(reports@);
                        push_report2(reports, "Exterior type annotations on destructuring arguments are not allowed",
                            "here", ty.loc(), "for this destructuring argument", x.loc());
                        let lhs = match lhs {
                            Some(l) => l,
                            None => ArgLhs::Mlhs { loc: x.loc().clone(), items: Vec::new() },
                        };
                        proof {
                            let ext = seq![(
                                "Exterior type annotations on destructuring arguments are not allowed"@,
                                seq![("here"@, resolved_loc(g0, self.ts(), node_at(*t))),
                                    ("for this destructuring argument"@, x.spec_loc())],
                            )];
                            assert forall|i: int, j: int| 0 <= i < ext.len() && 0 <= j < ext[i].1.len()
                                implies quotable(#[trigger] ext[i].1[j].1) by {
                                assert(ext[i] == ext[0]);
                            }
                            lemma_reports_ok_add(type_reps(g0, self.ts(), node_at(*t)), mlhs_reps(node_at(*x)));
                            lemma_reports_ok_add(type_reps(g0, self.ts(), node_at(*t)) + mlhs_reps(node_at(*x)), ext);
                            assert(reports_view(reports@) =~= r0 + arg_reps(g0, self.ts(), *node));
                        }
                        (AnnotationStatus::Typed, ArgNode::Required { loc: arg_loc, ty: None, lhs })
                    },
                    _ => {
                        let a = self.plain_arg(arg_loc, x, Some(ty));
                        proof {
                            assert(reports_view(reports@) =~= r0 + arg_reps(g0, self.ts(), *node));
                        }
                        (AnnotationStatus::Typed, a)
                    },
                }
            },
            Node::Procarg0(_, y) => {
                let (inner, arg) = self.resolve_arg(graph, y, reports, Ghost(g0));
                (AnnotationStatus::Untyped.append(inner), ArgNode::Procarg0 { loc: arg_loc, arg: Box::new(arg) })
            },
            Node::Mlhs(..) => {
                let lhs = self.resolve_arg_mlhs(node, reports);
                let lhs = match lhs {
                    Some(l) => l,
                    None => ArgLhs::Mlhs { loc: node.loc().clone(), items: Vec::new() },
                };
                (AnnotationStatus::Untyped, ArgNode::Required { loc: arg_loc, ty: None, lhs })
            },
            _ => (AnnotationStatus::Untyped, self.plain_arg(arg_loc, node, None)),
        }
    }

    /// The arguments `l` of `node`, a prototype or an argument list, with
    /// the status of what comes before them, `anno0`, and of each argument
    /// in turn appended.
    fn resolve_args(&self, graph: &mut ObjectGraph, node: &Node, l: &Vec<Rc<Node>>, anno0: AnnotationStatus,
        reports: &mut Vec<Report>, Ghost(g0): Ghost<ObjectGraph>) -> (r: (AnnotationStatus, Vec<ArgNode>))
        requires
            ready(g0, *old(graph), self.ts()),
            (node matches Node::Args(_, x) && x == *l)
                || (node matches Node::TyPrototype(_, _, a, _) && node_at(*a) matches Node::Args(_, x) && x == *l),
            args_ok(g0, l@, l@.len() as int),
            doubled(old(graph)@.len() as nat, args_budget(l@, l@.len() as int)) < usize::MAX / 2,
        ensures
            grows_mc(*old(graph), *final(graph)),
            final(graph)@.len() <= doubled(old(graph)@.len() as nat, args_budget(l@, l@.len() as int)),
            r.0 == args_status(anno0, l@, l@.len() as int),
            r.1@.len() == l@.len(),
            forall|g: ObjectGraph| #[trigger] grows(*final(graph), g) ==> args_is(g0, g, self.ts(), l@, r.1@, l@.len() as int),
            reports_view(final(reports)@) == reports_view(old(reports)@) + args_reps(g0, self.ts(), l@, l@.len() as int),
            reports_ok(args_reps(g0, self.ts(), l@, l@.len() as int)),
        decreases *node, 4int,
    {
        let ghost r0 = reports_view(reports@);
        let ghost len0 = graph@.len() as nat;
        let ghost total = args_budget(l@, l@.len() as int);
        let mut anno = anno0;
        let mut xs: Vec<ArgNode> = Vec::new();
        let mut i: usize = 0;
        proof {
            lemma_ready(g0, *graph, self.ts());
            graph.lemma_grows_mc_refl();
            lemma_reports_ok_empty();
            assert(r0 =~= r0 + args_reps(g0, self.ts(), l@, 0));
        }
        while i < l.len()
            invariant
                i <= l@.len(),
                (node matches Node::Args(_, x) && x == *l)
                    || (node matches Node::TyPrototype(_, _, a, _) && node_at(*a) matches Node::Args(_, x) && x == *l),
                ready(g0, *graph, self.ts()),
                grows_mc(*old(graph), *graph),
                len0 == old(graph)@.len(),
                total == args_budget(l@, l@.len() as int),
                doubled(len0, total) < usize::MAX / 2,
                graph@.len() <= doubled(len0, args_budget(l@, i as int)),
                args_ok(g0, l@, l@.len() as int),
                xs@.len() == i,
                anno == args_status(anno0, l@, i as int),
                forall|g: ObjectGraph| #[trigger] grows(*graph, g) ==> args_is(g0, g, self.ts(), l@, xs@, i as int),
                reports_view(reports@) == r0 + args_reps(g0, self.ts(), l@, i as int),
                reports_ok(args_reps(g0, self.ts(), l@, i as int)),
            decreases l@.len() - i,
        {
            let ghost g1 = *graph;
            let ghost xs0 = xs@;
            proof {
                lemma_args_ok_member(g0, l@, l@.len() as int, i as int);
                lemma_args_budget_mono(l@, i + 1, l@.len() as int);
                lemma_budget_step(len0, graph@.len() as nat, args_budget(l@, i as int), arg_budget(node_at(l@[i as int])));
                lemma_budget_step(len0, len0, args_budget(l@, i + 1), (total - args_budget(l@, i + 1)) as nat);
                lemma_doubled_add(len0, args_budget(l@, i + 1), 0);
                if node is Args {
                    assert(decreases_to!(*node => node->Args_1));
                    assert(decreases_to!(node->Args_1 => node->Args_1@));
                    assert(decreases_to!(node->Args_1@ => node->Args_1@[i as int]));
                } else {
                    assert(decreases_to!(*node => node->TyPrototype_2));
                    assert(decreases_to!(node->TyPrototype_2 => node->TyPrototype_2->Args_1));
                    assert(decreases_to!(node->TyPrototype_2->Args_1 => node->TyPrototype_2->Args_1@));
                    assert(decreases_to!(node->TyPrototype_2->Args_1@ => node->TyPrototype_2->Args_1@[i as int]));
                }
            }
            let (a_status, a) = self.resolve_arg(graph, &l[i], reports, Ghost(g0));
            anno = anno.append(a_status);
            xs.push(a);
            proof {
                ObjectGraph::lemma_grows_mc_trans(*old(graph), g1, *graph);
                lemma_ready_grows(g0, g1, *graph, self.ts());
                assert forall|g: ObjectGraph| #[trigger] grows(*graph, g)
                    implies args_is(g0, g, self.ts(), l@, xs@, i + 1) by {
                    ObjectGraph::lemma_grows_trans(g1, *graph, g);
                    assert(args_is(g0, g, self.ts(), l@, xs0, i as int));
                    lemma_args_is_prefix(g0, g, self.ts(), l@, xs0, xs@, i as int, i as int);
                    assert(xs@[i as int] == a);
                }
                lemma_reports_ok_add(args_reps(g0, self.ts(), l@, i as int), arg_reps(g0, self.ts(), node_at(l@[i as int])));
                assert(reports_view(reports@) =~= r0 + args_reps(g0, self.ts(), l@, i + 1));
            }
            i = i + 1;
        }
        (anno, xs)
    }

    /// The arguments and return type of the prototype or argument list
    /// `node`, with the statuses of its arguments and of its return type
    /// appended to `anno0`.
    fn resolve_rest(&self, graph: &mut ObjectGraph, node: &Node, anno0: AnnotationStatus, reports: &mut Vec<Report>,
        Ghost(g0): Ghost<ObjectGraph>) -> (r: (AnnotationStatus, Vec<ArgNode>, Option<TypeNodeRef>))
        requires
            ready(g0, *old(graph), self.ts()),
            proto_ok(g0, *node),
            doubled(old(graph)@.len() as nat, rest_budget_of(*node)) < usize::MAX / 2,
        ensures
            grows_mc(*old(graph), *final(graph)),
            final(graph)@.len() <= doubled(old(graph)@.len() as nat, rest_budget_of(*node)),
            r.0 == status_append(args_status(anno0, proto_args(*node), proto_args(*node).len() as int),
                if proto_retn(*node) is Some { AnnotationStatus::Typed } else { AnnotationStatus::Untyped }),
            forall|g: ObjectGraph| #[trigger] grows(*final(graph), g) ==> rest_is(g0, g, self.ts(), *node, r.1@, r.2),
            reports_view(final(reports)@) == reports_view(old(reports)@) + rest_reps(g0, self.ts(), *node),
            reports_ok(rest_reps(g0, self.ts(), *node)),
        decreases *node, 5int,
    {
        let ghost r0 = reports_view(reports@);
        let ghost len0 = graph@.len() as nat;
        let ghost gs = *graph;
        proof {
            lemma_ready(g0, *graph, self.ts());
            graph.lemma_grows_mc_refl();
            lemma_reports_ok_empty();
            assert(r0 =~= r0 + Seq::<ReportView>::empty());
        }
        match node {
            Node::TyPrototype(_, _, a, r) => {
                let ab: Ghost<nat> = Ghost(match node_at(*a) {
                    Node::Args(_, l) => args_budget(l@, l@.len() as int),
                    _ => 0,
                });
                proof {
                    lemma_budget_step(len0, len0, ab@, (rest_budget_of(*node) - ab@) as nat);
                    lemma_doubled_add(len0, ab@, 0);
                }
                let (anno, args) = match &**a {
                    Node::Args(_, l) => self.resolve_args(graph, node, l, anno0, reports, Ghost(g0)),
                    _ => (anno0, Vec::new()),
                };
                let ghost g1 = *graph;
                let ghost r1 = reports_view(reports@);
                proof {
                    lemma_ready_grows(g0, gs, g1, self.ts());
                    lemma_budget_step(len0, g1@.len() as nat, ab@, (rest_budget_of(*node) - ab@) as nat);
                    g1.lemma_grows_mc_refl();
                }
                let (anno, retn) = match r {
                    Some(rx) => {
                        let t = match &**rx {
                            Node::TyReturnSig(_, t) => self.resolve_type(graph, t, reports, Ghost(g0)),
                            _ => self.resolve_type(graph, rx, reports, Ghost(g0)),
                        };
                        (anno.append(AnnotationStatus::Typed), Some(t))
                    },
                    None => (anno.append(AnnotationStatus::Untyped), None),
                };
                proof {
                    ObjectGraph::lemma_grows_mc_trans(gs, g1, *graph);
                    assert forall|g: ObjectGraph| #[trigger] grows(*graph, g)
                        implies rest_is(g0, g, self.ts(), *node, args@, retn) by {
                        ObjectGraph::lemma_grows_trans(g1, *graph, g);
                    }
                    let ra = match node_at(*a) {
                        Node::Args(_, l) => args_reps(g0, self.ts(), l@, l@.len() as int),
                        _ => Seq::<ReportView>::empty(),
                    };
                    let rr = match opt_at(r) {
                        Some(rx) => match node_at(rx) {
                            Node::TyReturnSig(_, t) => type_reps(g0, self.ts(), node_at(t)),
                            _ => type_reps(g0, self.ts(), node_at(rx)),
                        },
                        None => Seq::<ReportView>::empty(),
                    };
                    lemma_reports_ok_add(ra, rr);
                    assert(reports_view(reports@) =~= r0 + rest_reps(g0, self.ts(), *node));
                }
                (anno, args, retn)
            },
            Node::Args(_, l) => {
                let (anno, args) = self.resolve_args(graph, node, l, anno0, reports, Ghost(g0));
                (anno.append(AnnotationStatus::Untyped), args, None)
            },
            _ => (anno0, Vec::new(), None),
        }
    }

    /// The type variables that the prototype `node` declares, the scope that
    /// adds them to this one, and the constraints on them: those of each
    /// variable on its supertype, in the scope up to it, then the others,
    /// in the whole scope.
    fn resolve_prototype_genargs(&self, graph: &mut ObjectGraph, node: &Node, reports: &mut Vec<Report>,
        Ghost(g0): Ghost<ObjectGraph>) -> (r: (AnnotationStatus, Rc<TypeScope>, Vec<Id>, Vec<TypeConstraint>))
        requires
            ready(g0, *old(graph), self.ts()),
            proto_ok(g0, *node),
            doubled(old(graph)@.len() as nat, gen_budget_of(*node)) < usize::MAX / 2,
        ensures
            grows_mc(*old(graph), *final(graph)),
            final(graph)@.len() <= doubled(old(graph)@.len() as nat, gen_budget_of(*node)),
            r.0 == if has_genargs(*node) { AnnotationStatus::Typed } else { AnnotationStatus::Empty },
            *r.1 == scope_extended(self.ts(), gen_vars(gen_items(*node), gen_items(*node).len() as int)),
            r.2@ == gen_vars(gen_items(*node), gen_items(*node).len() as int),
            forall|g: ObjectGraph| #[trigger] grows(*final(graph), g) ==> ({
                let items = gen_items(*node);
                let k = items.len() as int;
                let nd = decl_count(items, k) as int;
                &&& r.3@.len() >= nd
                &&& decl_cons_is(g0, g, self.ts(), items, k, r.3@.take(nd))
                &&& sub_cons_is(g0, g, scope_extended(self.ts(), gen_vars(items, k)), items, k, r.3@.skip(nd))
            }),
            reports_view(final(reports)@) == reports_view(old(reports)@) + decl_reps(g0, self.ts(), gen_items(*node),
                gen_items(*node).len() as int) + sub_reps(g0, scope_extended(self.ts(), gen_vars(gen_items(*node),
                gen_items(*node).len() as int)), gen_items(*node), gen_items(*node).len() as int),
            reports_ok(decl_reps(g0, self.ts(), gen_items(*node), gen_items(*node).len() as int) + sub_reps(g0,
                scope_extended(self.ts(), gen_vars(gen_items(*node), gen_items(*node).len() as int)), gen_items(*node),
                gen_items(*node).len() as int)),
        decreases *node, 6int,
    {
        let ghost r0 = reports_view(reports@);
        let ghost len0 = graph@.len() as nat;
        proof {
            lemma_ready(g0, *graph, self.ts());
            graph.lemma_grows_mc_refl();
            lemma_reports_ok_empty();
            lemma_doubled_add(len0, gen_budget_of(*node), 0);
        }
        match node {
            Node::TyPrototype(_, Some(gx), _, _) => {
                match &**gx {
                    Node::TyGenargs(_, items) => {
                        return self.resolve_genargs_items(graph, node, items, reports, Ghost(g0));
                    },
                    _ => {},
                }
            },
            _ => {},
        }
        assert(gen_items(*node) =~= Seq::<Rc<Node>>::empty());
        assert(reports_view(reports@) =~= r0 + Seq::<ReportView>::empty() + Seq::<ReportView>::empty());
        (AnnotationStatus::Empty, Rc::clone(&self.scope), Vec::new(), Vec::new())
    }

    fn resolve_genargs_items(&self, graph: &mut ObjectGraph, node: &Node, items: &Vec<Rc<Node>>,
        reports: &mut Vec<Report>, Ghost(g0): Ghost<ObjectGraph>)
        -> (r: (AnnotationStatus, Rc<TypeScope>, Vec<Id>, Vec<TypeConstraint>))
        requires
            ready(g0, *old(graph), self.ts()),
            node matches Node::TyPrototype(_, Some(gx), _, _) && node_at(*gx) matches Node::TyGenargs(_, l) && l == *items,
            gen_ok(g0, items@, items@.len() as int),
            doubled(old(graph)@.len() as nat, decl_budget(items@, items@.len() as int)
                + sub_budget(items@, items@.len() as int)) < usize::MAX / 2,
        ensures
            grows_mc(*old(graph), *final(graph)),
            final(graph)@.len() <= doubled(old(graph)@.len() as nat, decl_budget(items@, items@.len() as int)
                + sub_budget(items@, items@.len() as int)),
            r.0 == AnnotationStatus::Typed,
            *r.1 == scope_extended(self.ts(), gen_vars(items@, items@.len() as int)),
            r.2@ == gen_vars(items@, items@.len() as int),
            forall|g: ObjectGraph| #[trigger] grows(*final(graph), g) ==> ({
                let k = items@.len() as int;
                let nd = decl_count(items@, k) as int;
                &&& r.3@.len() >= nd
                &&& decl_cons_is(g0, g, self.ts(), items@, k, r.3@.take(nd))
                &&& sub_cons_is(g0, g, scope_extended(self.ts(), gen_vars(items@, k)), items@, k, r.3@.skip(nd))
            }),
            reports_view(final(reports)@) == reports_view(old(reports)@) + decl_reps(g0, self.ts(), items@,
                items@.len() as int) + sub_reps(g0, scope_extended(self.ts(), gen_vars(items@, items@.len() as int)),
                items@, items@.len() as int),
            reports_ok(decl_reps(g0, self.ts(), items@, items@.len() as int) + sub_reps(g0, scope_extended(self.ts(),
                gen_vars(items@, items@.len() as int)), items@, items@.len() as int)),
        decreases *node, 5int,
    {
        let ghost r0 = reports_view(reports@);
        let ghost len0 = graph@.len() as nat;
        let ghost total = decl_budget(items@, items@.len() as int) + sub_budget(items@, items@.len() as int);
        let ghost n = items@.len() as int;
        let mut scope = Rc::clone(&self.scope);
        let mut type_vars: Vec<Id> = Vec::new();
        let mut decls: Vec<TypeConstraint> = Vec::new();
        let mut i: usize = 0;
        proof {
            lemma_ready(g0, *graph, self.ts());
            graph.lemma_grows_mc_refl();
            lemma_reports_ok_empty();
            assert(r0 =~= r0 + decl_reps(g0, self.ts(), items@, 0));
            lemma_budget_step(len0, len0, decl_budget(items@, n), sub_budget(items@, n));
            lemma_doubled_add(len0, 0, 0);
        }
        while i < items.len()
            invariant
                i <= items@.len(),
                n == items@.len(),
                node matches Node::TyPrototype(_, Some(gx), _, _) && node_at(*gx) matches Node::TyGenargs(_, l) && l == *items,
                ready(g0, *graph, self.ts()),
                grows_mc(*old(graph), *graph),
                len0 == old(graph)@.len(),
                doubled(len0, decl_budget(items@, n)) < usize::MAX / 2,
                graph@.len() <= doubled(len0, decl_budget(items@, i as int)),
                gen_ok(g0, items@, n),
                *scope == scope_extended(self.ts(), gen_vars(items@, i as int)),
                type_vars@ == gen_vars(items@, i as int),
                decls@.len() == decl_count(items@, i as int),
                forall|g: ObjectGraph| #[trigger] grows(*graph, g) ==> decl_cons_is(g0, g, self.ts(), items@, i as int, decls@),
                reports_view(reports@) == r0 + decl_reps(g0, self.ts(), items@, i as int),
                reports_ok(decl_reps(g0, self.ts(), items@, i as int)),
            decreases items@.len() - i,
        {
            let ghost g1 = *graph;
            let ghost decls0 = decls@;
            proof {
                lemma_gen_ok_member(g0, items@, n, i as int);
                lemma_decl_budget_mono(items@, i + 1, n);
                lemma_doubled_add(len0, decl_budget(items@, i + 1), 0);
                lemma_budget_step(len0, len0, decl_budget(items@, i + 1), (decl_budget(items@, n) - decl_budget(items@, i + 1)) as nat);
                assert(decreases_to!(*node => node->TyPrototype_1));
                assert(decreases_to!(node->TyPrototype_1 => node->TyPrototype_1->0));
                assert(decreases_to!(node->TyPrototype_1->0 => node->TyPrototype_1->0->TyGenargs_1));
                assert(decreases_to!(node->TyPrototype_1->0->TyGenargs_1 => node->TyPrototype_1->0->TyGenargs_1@));
                assert(decreases_to!(node->TyPrototype_1->0->TyGenargs_1@ => node->TyPrototype_1->0->TyGenargs_1@[i as int]));
            }
            match &*items[i] {
                Node::TyGendeclarg(l, name, st) => {
                    scope = TypeScope::extend(scope, name.clone());
                    type_vars.push(Id(l.clone(), name.clone()));
                    proof {
                        assert(gen_vars(items@, i + 1) =~= gen_vars(items@, i as int) + seq![Id(*l, *name)]);
                        assert(gen_vars(items@, i + 1).drop_last() =~= gen_vars(items@, i as int));
                        lemma_extended_constant(self.ts(), gen_vars(items@, i + 1));
                    }
                    match st {
                        Some(st) => {
                            let inner = ResolveType { scope: Rc::clone(&scope) };
                            proof {
                                lemma_budget_step(len0, graph@.len() as nat, decl_budget(items@, i as int), type_budget(node_at(*st)));
                            }
                            let sup = inner.resolve_type(graph, st, reports, Ghost(g0));
                            decls.push(TypeConstraint::Compatible {
                                loc: l.clone(),
                                sub: Rc::new(TypeNode::TypeParameter { loc: l.clone(), name: name.clone() }),
                                super_: sup,
                            });
                            proof {
                                ObjectGraph::lemma_grows_mc_trans(*old(graph), g1, *graph);
                                lemma_ready_grows(g0, g1, *graph, self.ts());
                                assert forall|g: ObjectGraph| #[trigger] grows(*graph, g)
                                    implies decl_cons_is(g0, g, self.ts(), items@, i + 1, decls@) by {
                                    ObjectGraph::lemma_grows_trans(g1, *graph, g);
                                    assert(decls@.drop_last() =~= decls0);
                                }
                                lemma_reports_ok_add(decl_reps(g0, self.ts(), items@, i as int),
                                    type_reps(g0, scope_extended(self.ts(), gen_vars(items@, i + 1)), node_at(*st)));
                                assert(reports_view(reports@) =~= r0 + decl_reps(g0, self.ts(), items@, i + 1));
                            }
                        },
                        None => {
                            proof {
                                assert(reports_view(reports@) =~= r0 + decl_reps(g0, self.ts(), items@, i + 1));
                            }
                        },
                    }
                },
                _ => {
                    proof {
                        assert(gen_vars(items@, i + 1) =~= gen_vars(items@, i as int));
                        assert(reports_view(reports@) =~= r0 + decl_reps(g0, self.ts(), items@, i + 1));
                    }
                },
            }
            i = i + 1;
        }
        let ghost gd = *graph;
        let ghost rd = reports_view(reports@);
        let ghost ts2 = scope_extended(self.ts(), gen_vars(items@, n));
        let outer = ResolveType { scope: Rc::clone(&scope) };
        let mut subs: Vec<TypeConstraint> = Vec::new();
        let mut j: usize = 0;
        proof {
            lemma_extended_constant(self.ts(), gen_vars(items@, n));
            graph.lemma_grows_mc_refl();
            assert(rd =~= rd + sub_reps(g0, ts2, items@, 0));
            lemma_budget_step(len0, graph@.len() as nat, decl_budget(items@, n), sub_budget(items@, n));
        }
        while j < items.len()
            invariant
                j <= items@.len(),
                n == items@.len(),
                node matches Node::TyPrototype(_, Some(gx), _, _) && node_at(*gx) matches Node::TyGenargs(_, l) && l == *items,
                outer.ts() == ts2,
                ready(g0, *graph, ts2),
                grows_mc(gd, *graph),
                doubled(gd@.len() as nat, sub_budget(items@, n)) < usize::MAX / 2,
                graph@.len() <= doubled(gd@.len() as nat, sub_budget(items@, j as int)),
                gen_ok(g0, items@, n),
                forall|g: ObjectGraph| #[trigger] grows(*graph, g) ==> sub_cons_is(g0, g, ts2, items@, j as int, subs@),
                reports_view(reports@) == rd + sub_reps(g0, ts2, items@, j as int),
                reports_ok(sub_reps(g0, ts2, items@, j as int)),
            decreases items@.len() - j,
        {
            let ghost g1 = *graph;
            let ghost subs0 = subs@;
            let ghost lenj = gd@.len() as nat;
            proof {
                lemma_gen_ok_member(g0, items@, n, j as int);
                lemma_sub_budget_mono(items@, j + 1, n);
                lemma_budget_step(lenj, lenj, sub_budget(items@, j + 1), (sub_budget(items@, n) - sub_budget(items@, j + 1)) as nat);
                lemma_doubled_add(lenj, sub_budget(items@, j + 1), 0);
                assert(decreases_to!(*node => node->TyPrototype_1));
                assert(decreases_to!(node->TyPrototype_1 => node->TyPrototype_1->0));
                assert(decreases_to!(node->TyPrototype_1->0 => node->TyPrototype_1->0->TyGenargs_1));
                assert(decreases_to!(node->TyPrototype_1->0->TyGenargs_1 => node->TyPrototype_1->0->TyGenargs_1@));
                assert(decreases_to!(node->TyPrototype_1->0->TyGenargs_1@ => node->TyPrototype_1->0->TyGenargs_1@[j as int]));
            }
            match &*items[j] {
                Node::TyConSubtype(l, a, b) => {
                    proof {
                        lemma_budget_step(lenj, graph@.len() as nat, sub_budget(items@, j as int), type_budget(node_at(*a)) + type_budget(node_at(*b)));
                        lemma_budget_step(lenj, graph@.len() as nat, sub_budget(items@, j as int), type_budget(node_at(*a)));
                        lemma_budget_step(graph@.len() as nat, graph@.len() as nat, type_budget(node_at(*a)), type_budget(node_at(*b)));
                        lemma_doubled_add(graph@.len() as nat, type_budget(node_at(*a)), 0);
                    }
                    let sub = outer.resolve_type(graph, a, reports, Ghost(g0));
                    let ghost g2 = *graph;
                    proof {
                        lemma_ready_grows(g0, g1, g2, ts2);
                        lemma_budget_step(g1@.len() as nat, g2@.len() as nat, type_budget(node_at(*a)), type_budget(node_at(*b)));
                    }
                    let sup = outer.resolve_type(graph, b, reports, Ghost(g0));
                    subs.push(TypeConstraint::Compatible { loc: l.clone(), sub, super_: sup });
                    proof {
                        ObjectGraph::lemma_grows_mc_trans(g1, g2, *graph);
                        ObjectGraph::lemma_grows_mc_trans(gd, g1, *graph);
                        lemma_ready_grows(g0, g1, *graph, ts2);
                        lemma_budget_step(lenj, g1@.len() as nat, sub_budget(items@, j as int), type_budget(node_at(*a)) + type_budget(node_at(*b)));
                        lemma_doubled_add(g1@.len() as nat, type_budget(node_at(*a)), type_budget(node_at(*b)));
                        lemma_doubled_mono(g2@.len() as nat, doubled(g1@.len() as nat, type_budget(node_at(*a))), type_budget(node_at(*b)));
                        assert forall|g: ObjectGraph| #[trigger] grows(*graph, g)
                            implies sub_cons_is(g0, g, ts2, items@, j + 1, subs@) by {
                            ObjectGraph::lemma_grows_trans(g1, *graph, g);
                            ObjectGraph::lemma_grows_trans(g2, *graph, g);
                            assert(subs@.drop_last() =~= subs0);
                        }
                        lemma_reports_ok_add(type_reps(g0, ts2, node_at(*a)), type_reps(g0, ts2, node_at(*b)));
                        lemma_reports_ok_add(sub_reps(g0, ts2, items@, j as int),
                            type_reps(g0, ts2, node_at(*a)) + type_reps(g0, ts2, node_at(*b)));
                        assert(reports_view(reports@) =~= rd + sub_reps(g0, ts2, items@, j + 1));
                    }
                },
                _ => {
                    proof {
                        assert(reports_view(reports@) =~= rd + sub_reps(g0, ts2, items@, j + 1));
                    }
                },
            }
            j = j + 1;
        }
        let ghost decl_v = decls@;
        let ghost sub_v = subs@;
        decls.append(&mut subs);
        proof {
            ObjectGraph::lemma_grows_mc_trans(*old(graph), gd, *graph);
            lemma_budget_step(len0, gd@.len() as nat, decl_budget(items@, n), sub_budget(items@, n));
            assert(decls@.take(decl_v.len() as int) =~= decl_v);
            assert(decls@.skip(decl_v.len() as int) =~= sub_v);
            assert forall|g: ObjectGraph| #[trigger] grows(*graph, g) implies ({
                let nd = decl_count(items@, n) as int;
                &&& decls@.len() >= nd
                &&& decl_cons_is(g0, g, self.ts(), items@, n, decls@.take(nd))
                &&& sub_cons_is(g0, g, ts2, items@, n, decls@.skip(nd))
            }) by {
                ObjectGraph::lemma_grows_trans(gd, *graph, g);
            }
            lemma_reports_ok_add(decl_reps(g0, self.ts(), items@, n), sub_reps(g0, ts2, items@, n));
            assert(reports_view(reports@) =~= r0 + decl_reps(g0, self.ts(), items@, n) + sub_reps(g0, ts2, items@, n));
        }
        (AnnotationStatus::Typed, scope, type_vars, decls)
    }

    /// What the prototype `node` resolves to, with how much of it is
    /// annotated.
    fn resolve_prototype(&self, graph: &mut ObjectGraph, node: &Node, reports: &mut Vec<Report>,
        Ghost(g0): Ghost<ObjectGraph>) -> (r: (AnnotationStatus, Prototype))
        requires
            ready(g0, *old(graph), self.ts()),
            proto_ok(g0, *node),
            doubled(old(graph)@.len() as nat, proto_budget(*node)) < usize::MAX / 2,
        ensures
            grows_mc(*old(graph), *final(graph)),
            final(graph)@.len() <= doubled(old(graph)@.len() as nat, proto_budget(*node)),
            r.0 == proto_status(*node),
            forall|g: ObjectGraph| #[trigger] grows(*final(graph), g) ==> proto_is(g0, g, self.ts(), *node, r.1),
            reports_view(final(reports)@) == reports_view(old(reports)@) + proto_reps(g0, self.ts(), *node),
            reports_ok(proto_reps(g0, self.ts(), *node)),
        decreases *node, 7int,
    {
        let ghost r0 = reports_view(reports@);
        let ghost len0 = graph@.len() as nat;
        let ghost gs = *graph;
        proof {
            lemma_ready(g0, *graph, self.ts());
            assert(proto_budget(*node) == gen_budget_of(*node) + rest_budget_of(*node));
            lemma_budget_step(len0, len0, gen_budget_of(*node), rest_budget_of(*node));
            lemma_doubled_add(len0, gen_budget_of(*node), 0);
        }
        let (anno, scope, type_vars, type_constraints) = self.resolve_prototype_genargs(graph, node, reports, Ghost(g0));
        let ghost g1 = *graph;
        let resolve = ResolveType { scope };
        proof {
            lemma_ready_grows(g0, gs, g1, self.ts());
            lemma_extended_constant(self.ts(), gen_vars(gen_items(*node), gen_items(*node).len() as int));
            lemma_budget_step(len0, g1@.len() as nat, gen_budget_of(*node), rest_budget_of(*node));
        }
        let (anno, args, retn) = resolve.resolve_rest(graph, node, anno, reports, Ghost(g0));
        let p = Prototype { loc: node.loc().clone(), type_vars, type_constraints, args, retn };
        proof {
            ObjectGraph::lemma_grows_mc_trans(gs, g1, *graph);
            assert forall|g: ObjectGraph| #[trigger] grows(*graph, g) implies proto_is(g0, g, self.ts(), *node, p) by {
                ObjectGraph::lemma_grows_trans(g1, *graph, g);
            }
            let gr = decl_reps(g0, self.ts(), gen_items(*node), gen_items(*node).len() as int) + sub_reps(g0,
                scope_extended(self.ts(), gen_vars(gen_items(*node), gen_items(*node).len() as int)), gen_items(*node),
                gen_items(*node).len() as int);
            lemma_reports_ok_add(gr, rest_reps(g0, resolve.ts(), *node));
            assert(reports_view(reports@) =~= r0 + proto_reps(g0, self.ts(), *node));
        }
        (anno, p)
    }

}


impl TypeNode {
    /// Resolves the type annotation `node` in `scope`: the result is what
    /// `type_is` says, read against the graph before and after, which grows
    /// only by the metaclasses it makes; what is wrong in the annotation is
    /// added to `reports`, in order.
    pub fn resolve(node: &Node, graph: &mut ObjectGraph, scope: Rc<TypeScope>, reports: &mut Vec<Report>)
        -> (r: TypeNodeRef)
        requires
            old(graph).wf(),
            scope_in(*old(graph), constant_scope_of(*scope)),
            type_ok(*old(graph), *node),
            doubled(old(graph)@.len() as nat, type_budget(*node)) < usize::MAX / 2,
        ensures
            grows_mc(*old(graph), *final(graph)),
            type_is(*old(graph), *final(graph), *scope, *node, *r),
            forall|g: ObjectGraph| #[trigger] grows(*final(graph), g) ==> type_is(*old(graph), g, *scope, *node, *r),
            type_loc(*r) == resolved_loc(*old(graph), *scope, *node),
            reports_view(final(reports)@) == reports_view(old(reports)@) + type_reps(*old(graph), *scope, *node),
            reports_ok(type_reps(*old(graph), *scope, *node)),
    {
        let ghost g0 = *graph;
        proof {
            graph.lemma_grows_mc_refl();
        }
        let resolve = ResolveType { scope };
        let r = resolve.resolve_type(graph, node, reports, Ghost(g0));
        proof {
            graph.lemma_grows_mc_refl();
        }
        r
    }
}

impl Prototype {
    /// The prototype of a method defined at `proto_loc` with the signature
    /// or argument list `node`, resolved in `scope`, with how much of it is
    /// annotated: without one, it is untyped and has nothing.
    pub fn resolve(proto_loc: &Loc, node: Option<&Node>, graph: &mut ObjectGraph, scope: Rc<TypeScope>,
        reports: &mut Vec<Report>) -> (r: (AnnotationStatus, Prototype))
        requires
            old(graph).wf(),
            scope_in(*old(graph), constant_scope_of(*scope)),
            node matches Some(n) ==> proto_ok(*old(graph), *n)
                && doubled(old(graph)@.len() as nat, proto_budget(*n)) < usize::MAX / 2,
        ensures
            grows_mc(*old(graph), *final(graph)),
            match node {
                Some(n) => {
                    &&& r.0 == proto_status(*n)
                    &&& proto_is(*old(graph), *final(graph), *scope, *n, r.1)
                    &&& forall|g: ObjectGraph| #[trigger] grows(*final(graph), g) ==> proto_is(*old(graph), g, *scope, *n, r.1)
                    &&& reports_view(final(reports)@) == reports_view(old(reports)@) + proto_reps(*old(graph), *scope, *n)
                    &&& reports_ok(proto_reps(*old(graph), *scope, *n))
                },
                None => {
                    &&& r.0 == AnnotationStatus::Untyped
                    &&& r.1.loc == *proto_loc
                    &&& r.1.type_vars@.len() == 0
                    &&& r.1.type_constraints@.len() == 0
                    &&& r.1.args@.len() == 0
                    &&& r.1.retn is None
                    &&& *final(graph) == *old(graph)
                    &&& final(reports)@ == old(reports)@
                },
            },
    {
        let ghost g0 = *graph;
        proof {
            graph.lemma_grows_mc_refl();
        }
        match node {
            Some(n) => {
                let resolve = ResolveType { scope };
                let r = resolve.resolve_prototype(graph, n, reports, Ghost(g0));
                proof {
                    graph.lemma_grows_mc_refl();
                }
                r
            },
            None => Prototype::untyped(proto_loc),
        }
    }
}
} // verus!
