//! The top-level pass over a file: it walks the tree outside method
//! bodies, opens the classes and modules the file declares, defines its
//! constants, queues its method and instance variable definitions, and
//! asks for the files it requires to be loaded.
//!
//! What the walk does is stated as a relation between the state before and
//! the state after: each step is what the function it calls promises. An
//! outcome of `None` stands for a walk that gets stuck where the checker
//! gives up (a node kind it does not know, a class name that is not a
//! constant, a type parameter list it cannot read, a generic module
//! included without parameters) or where the graph would outgrow the
//! machine; the walk requires that no such outcome is possible.

use std::rc::Rc;
use vstd::prelude::*;
use crate::ast::{Id, Loc, Node, SourceFile};
use crate::define::{Definitions, IvarDef, MethodDef, MethodVisibility};
use crate::environment::scope_in;
use crate::errors::ReportView;
use crate::object::{delegate_of, same_but_class, scope_modules, include_done, metaclass_done, metaclass_made, type_params, IncludeError, ObjectGraph, Scope};
use crate::abstract_type::TypeNodeRef;
use crate::resolve::report1;
use crate::sexp::depth;
use crate::text::{push_str, str_eq};
use crate::top_level::{
    class_decl, decl_class, decl_constant, decl_module, module_decl, notice1, resolve_static, asgn_value_ok, class_done, constant_done, emitted, module_done, notices_view, params_readable, static_ref,
    source_type_for_file, typed_header, AttrType, Notice, Severity, SourceType,
};

verus! {

/// Something the pass asks the program around it to do.
pub enum Action {
    /// Load the file that `require` names: found on the load path, or
    /// next to the file of `loc` where `relative`.
    Require { path: String, relative: bool, loc: Loc },
}

/// What the pass has made: the graph, the method and instance variable
/// definitions queued, the notices, and the actions asked for.
pub type TopState = (ObjectGraph, Seq<MethodDef>, Seq<IvarDef>, Seq<(Severity, ReportView)>, Seq<Action>);

/// The visibility that `def` gives methods, and whether `module_function`
/// is in force.
pub type Vis = (MethodVisibility, bool);

/// A marker on a state reached part way through a walk, by which a proof
/// names it.
pub open spec fn reached(s: TopState, v: Vis) -> bool {
    true
}

/// A marker on the outcome of naming a symbol, by which a proof names it.
pub open spec fn picked(s: TopState, v: Vis, x: Option<Id>) -> bool {
    true
}

/// `s` with the notices `ns` added where notices are emitted.
pub open spec fn noted(s: TopState, emit: bool, ns: Seq<(Severity, ReportView)>) -> TopState {
    (s.0, s.1, s.2, s.3 + emitted(emit, ns), s.4)
}

/// `s` with one notice with one place added.
pub open spec fn note1(s: TopState, emit: bool, sev: Severity, msg: Seq<char>, label: Seq<char>, loc: Loc) -> TopState {
    noted(s, emit, seq![(sev, report1(msg, label, loc))])
}

/// `s` with the method definition `m` queued.
pub open spec fn queued(s: TopState, m: MethodDef) -> TopState {
    (s.0, s.1.push(m), s.2, s.3, s.4)
}

/// `s` with the graph `g`.
pub open spec fn regraphed(s: TopState, g: ObjectGraph) -> TopState {
    (g, s.1, s.2, s.3, s.4)
}

/// The scope of the body of `module` inside `scope`.
pub open spec fn spawned(scope: Rc<Scope>, module: usize) -> Rc<Scope> {
    Rc::new(Scope { parent: Some(scope), module })
}

/// The depth of the node `r` points at.
pub open spec fn depth_of(r: &Rc<Node>) -> nat {
    depth(**r)
}

/// The name and type parameters of the `class` statement name `r` points
/// at, where they can be read.
pub open spec fn head_of(r: &Rc<Node>) -> (Node, Seq<Rc<Node>>) {
    class_head(**r)->0
}

/// The node, if there is one, as a sequence.
pub open spec fn opt_seq(o: Option<Rc<Node>>) -> Seq<Rc<Node>> {
    match o {
        Some(n) => seq![n],
        None => Seq::empty(),
    }
}

/// The name and type parameters of a `class` statement's name.
pub open spec fn class_head(n: Node) -> Option<(Node, Seq<Rc<Node>>)> {
    match n {
        Node::TyGendecl(_, name, params) => Some((*name, params@)),
        Node::Const(..) => Some((n, Seq::empty())),
        _ => None,
    }
}

/// The children the pass walks, in order, for a node it only walks
/// through; none for a node it treats on its own or does not know.
pub open spec fn plain_kids(n: Node) -> Option<Seq<Rc<Node>>> {
    match n {
        Node::Begin(_, s) => Some(s@),
        Node::Kwbegin(_, s) => Some(s@),
        Node::Send(_, Some(recv), _, args) => Some(seq![recv] + args@),
        Node::CSend(_, recv, _, args) => Some(opt_seq(recv) + args@),
        Node::Undef(..) => Some(Seq::empty()),
        Node::Block(_, send, args, body) => Some(seq![send, args] + opt_seq(body)),
        Node::Const(..) => Some(Seq::empty()),
        Node::ConstLhs(..) => Some(Seq::empty()),
        Node::Args(_, args) => Some(args@),
        Node::TyPrototype(_, genargs, args, retn) => Some(opt_seq(genargs) + seq![args] + opt_seq(retn)),
        Node::TyTypedArg(_, ty, arg) => Some(seq![ty, arg]),
        Node::Procarg0(_, arg) => Some(seq![arg]),
        Node::Arg(..) => Some(Seq::empty()),
        Node::Restarg(..) => Some(Seq::empty()),
        Node::Kwrestarg(..) => Some(Seq::empty()),
        Node::Blockarg(..) => Some(Seq::empty()),
        Node::Kwarg(..) => Some(Seq::empty()),
        Node::Optarg(_, _, e) => Some(seq![e]),
        Node::Kwoptarg(_, _, e) => Some(seq![e]),
        Node::If(_, c, t, e) => Some(seq![c] + opt_seq(t) + opt_seq(e)),
        Node::While(_, c, b) => Some(seq![c] + opt_seq(b)),
        Node::Until(_, c, b) => Some(seq![c] + opt_seq(b)),
        Node::WhilePost(_, b, c) => Some(seq![c, b]),
        Node::UntilPost(_, b, c) => Some(seq![c, b]),
        Node::For(_, l, e, b) => Some(seq![l, e] + opt_seq(b)),
        Node::Backref(..) => Some(Seq::empty()),
        Node::Cvar(..) => Some(Seq::empty()),
        Node::Defined(..) => Some(Seq::empty()),
        Node::False(..) => Some(Seq::empty()),
        Node::FileLiteral(..) => Some(Seq::empty()),
        Node::Float(..) => Some(Seq::empty()),
        Node::Gvar(..) => Some(Seq::empty()),
        Node::Integer(..) => Some(Seq::empty()),
        Node::Ivar(..) => Some(Seq::empty()),
        Node::Lambda(..) => Some(Seq::empty()),
        Node::LineLiteral(..) => Some(Seq::empty()),
        Node::Lvar(..) => Some(Seq::empty()),
        Node::Nil(..) => Some(Seq::empty()),
        Node::NthRef(..) => Some(Seq::empty()),
        Node::Regexp(..) => Some(Seq::empty()),
        Node::Redo(..) => Some(Seq::empty()),
        Node::Retry(..) => Some(Seq::empty()),
        Node::Self_(..) => Some(Seq::empty()),
        Node::String(..) => Some(Seq::empty()),
        Node::Symbol(..) => Some(Seq::empty()),
        Node::True(..) => Some(Seq::empty()),
        Node::ZSuper(..) => Some(Seq::empty()),
        Node::Splat(_, e) => Some(opt_seq(e)),
        Node::Kwsplat(_, e) => Some(seq![e]),
        Node::Rescue(_, b, rs, e) => Some(opt_seq(b) + rs@ + opt_seq(e)),
        Node::Resbody(_, c, l, b) => Some(opt_seq(c) + opt_seq(l) + opt_seq(b)),
        Node::Ensure(_, b, e) => Some(opt_seq(b) + seq![e]),
        Node::Array(_, s) => Some(s@),
        Node::Break(_, s) => Some(s@),
        Node::DString(_, s) => Some(s@),
        Node::DSymbol(_, s) => Some(s@),
        Node::Hash(_, s) => Some(s@),
        Node::Mlhs(_, s) => Some(s@),
        Node::Next(_, s) => Some(s@),
        Node::Return(_, s) => Some(s@),
        Node::Super(_, s) => Some(s@),
        Node::XString(_, s) => Some(s@),
        Node::Yield(_, s) => Some(s@),
        Node::Or(_, a, b) => Some(seq![a, b]),
        Node::And(_, a, b) => Some(seq![a, b]),
        Node::LvarLhs(..) => Some(Seq::empty()),
        Node::IvarLhs(..) => Some(Seq::empty()),
        Node::CvarLhs(..) => Some(Seq::empty()),
        Node::GvarLhs(..) => Some(Seq::empty()),
        Node::LvarAsgn(_, _, e) => Some(seq![e]),
        Node::IvarAsgn(_, _, e) => Some(seq![e]),
        Node::CvarAsgn(_, _, e) => Some(seq![e]),
        Node::GvarAsgn(_, _, e) => Some(seq![e]),
        Node::Pair(_, a, b) => Some(seq![a, b]),
        Node::IRange(_, a, b) => Some(seq![a, b]),
        Node::ERange(_, a, b) => Some(seq![a, b]),
        Node::BlockPass(_, e) => Some(seq![e]),
        Node::OrAsgn(_, a, b) => Some(seq![a, b]),
        Node::AndAsgn(_, a, b) => Some(seq![a, b]),
        Node::OpAsgn(_, a, _, b) => Some(seq![a, b]),
        Node::Masgn(_, a, b) => Some(seq![a, b]),
        Node::MatchAsgn(_, a, b) => Some(seq![a, b]),
        Node::Case(_, c, cs, e) => Some(opt_seq(c) + cs@ + opt_seq(e)),
        Node::When(_, cs, e) => Some(cs@ + opt_seq(e)),
        Node::TyCast(_, e, t) => Some(seq![e, t]),
        Node::TyCpath(_, c) => Some(seq![c]),
        Node::TyGeninst(_, c, args) => Some(seq![c] + args@),
        Node::TyArray(_, t) => Some(seq![t]),
        Node::TyNillable(_, t) => Some(seq![t]),
        Node::TyTuple(_, ts) => Some(ts@),
        Node::TyHash(_, k, v) => Some(seq![k, v]),
        Node::TyNil(..) => Some(Seq::empty()),
        Node::TySelf(..) => Some(Seq::empty()),
        Node::TyClass(..) => Some(Seq::empty()),
        Node::TyInstance(..) => Some(Seq::empty()),
        Node::TyAny(..) => Some(Seq::empty()),
        Node::TyGenargs(_, gs) => Some(gs@),
        Node::TyGendeclarg(_, _, c) => Some(opt_seq(c)),
        Node::TyConUnify(_, a, b) => Some(seq![a, b]),
        Node::TyConSubtype(_, a, b) => Some(seq![a, b]),
        Node::TyOr(_, a, b) => Some(seq![a, b]),
        Node::TyProc(_, p) => Some(seq![p]),
        _ => None,
    }
}

/// Walking `r` outside or inside a method body (`in_def`) in `scope`, from
/// the state `s` with the visibility `v`, may end as `out`: the state and
/// visibility after, or `None` where it gets stuck.
pub open spec fn walk(emit: bool, s: TopState, v: Vis, scope: Rc<Scope>, in_def: bool, r: Rc<Node>, out: Option<(TopState, Vis)>) -> bool
    decreases depth(*r), 9int, 0int,
{
    let d = depth(*r);
    if !s.0.wf() || !scope_in(s.0, *scope) {
        out is None
    } else {
        match *r {
            Node::Class(_, declname, sup, body) => match class_head(*declname) {
                None => out is None,
                Some((name, params)) => if !(s.0@.len() + 1 < usize::MAX) || !params_readable(s.0, *scope, name, params, sup) {
                    out is None
                } else {
                    exists|g: ObjectGraph, ns: Seq<(Severity, ReportView)>, c: Option<usize>|
                        #[trigger] class_done(s.0, g, s.3, ns, *scope, name, params, sup, emit, c)
                        && opened(emit, (g, s.1, s.2, ns, s.4), v, scope, in_def, c, body, d, out)
                },
            },
            Node::Module(_, name, body) => if !(s.0@.len() + 1 < usize::MAX) {
                out is None
            } else {
                exists|g: ObjectGraph, ns: Seq<(Severity, ReportView)>, c: Option<usize>|
                    #[trigger] module_done(s.0, g, s.3, ns, *scope, *name, emit, c)
                    && opened(emit, (g, s.1, s.2, ns, s.4), v, scope, in_def, c, body, d, out)
            },
            Node::SClass(_, expr, body) => if in_def {
                walk_list(emit, s, v, scope, in_def, seq![expr] + opt_seq(body), d, out)
            } else {
                match static_ref(s.0, *scope, *expr) {
                    Ok(o) => if !(metaclass_made(s.0@, o) || 2 * s.0@.len() + 2 < usize::MAX) {
                        out is None
                    } else {
                        exists|g: ObjectGraph, m: usize| #[trigger] metaclass_done(s.0, g, o, m)
                            && enter(emit, regraphed(s, g), v, spawned(scope, m), in_def, body, d, out)
                    },
                    Err((l, msg)) => out == Some((note1(s, emit, Severity::Warning,
                        "Could not statically resolve singleton expression"@, msg, l), v)),
                }
            },
            Node::Def(_, id, proto, body) => if in_def {
                def_tail(emit, s, v, scope, in_def, proto, body, d, out)
            } else {
                (out is None && walk_opt(emit, s, v, scope, in_def, proto, d, None))
                    || exists|s1: TopState, v1: Vis| #[trigger] reached(s1, v1)
                        && walk_opt(emit, s, v, scope, in_def, proto, d, Some((s1, v1)))
                        && def_decl(emit, s1, v1, scope, r, id, body, d, out)
            },
            Node::Defs(_, singleton, id, proto, body) => if in_def {
                (out is None && walk_list(emit, s, v, scope, in_def, seq![singleton], d, None))
                    || exists|s1: TopState, v1: Vis| #[trigger] reached(s1, v1)
                        && walk_list(emit, s, v, scope, in_def, seq![singleton], d, Some((s1, v1)))
                        && def_tail(emit, s1, v1, scope, in_def, proto, body, d, out)
            } else {
                match static_ref(s.0, *scope, *singleton) {
                    Ok(o) => if !(metaclass_made(s.0@, o) || 2 * s.0@.len() + 2 < usize::MAX) {
                        out is None
                    } else {
                        exists|g: ObjectGraph, m: usize| #[trigger] metaclass_done(s.0, g, o, m)
                            && def_tail(emit, queued(regraphed(s, g), MethodDef::Def {
                                module: m, visi: MethodVisibility::Public, name: id, node: r, scope }),
                                v, scope, in_def, proto, body, d, out)
                    },
                    Err((l, msg)) => def_tail(emit, note1(s, emit, Severity::Warning, msg, "here"@, l),
                        v, scope, in_def, proto, body, d, out),
                }
            },
            Node::Send(_, None, id, args) => if in_def {
                walk_list(emit, s, v, scope, in_def, args@, d, out)
            } else {
                self_send(emit, s, v, scope, id, args@, d, out)
            },
            Node::ConstAsgn(_, base, id, expr) => if in_def {
                walk_list(emit, s, v, scope, in_def, opt_seq(base) + seq![expr], d, out)
            } else if !asgn_value_ok(s.0, *expr) {
                out is None
            } else {
                exists|g: ObjectGraph, ns: Seq<(Severity, ReportView)>|
                    #[trigger] constant_done(s.0, g, s.3, ns, scope, base, id, *expr, emit)
                    && out == Some(((g, s.1, s.2, ns, s.4), v))
            },
            Node::Alias(_, to, from) => if in_def {
                out == Some((s, v))
            } else {
                aliased(emit, s, v, scope, scope.module, from, to, d, out)
            },
            Node::TyIvardecl(l, ivar, tn) => if in_def {
                out == Some((note1(s, emit, Severity::Error, "Invalid instance variable type declaration"@, "here"@, l), v))
            } else {
                out == Some(((s.0, s.1, s.2.push(IvarDef { module: scope.module, name: ivar, type_node: tn, scope }), s.3, s.4), v))
            },
            _ => match plain_kids(*r) {
                Some(ks) => walk_list(emit, s, v, scope, in_def, ks, d, out),
                None => out is None,
            },
        }
    }
}

/// Walking the nodes `ks` in turn, each shallower than `d`.
pub open spec fn walk_list(emit: bool, s: TopState, v: Vis, scope: Rc<Scope>, in_def: bool, ks: Seq<Rc<Node>>, d: nat,
    out: Option<(TopState, Vis)>) -> bool
    decreases d, 1int, ks.len(),
{
    if ks.len() == 0 {
        out == Some((s, v))
    } else if !(depth(*ks[0]) < d) {
        out is None
    } else {
        (out is None && walk(emit, s, v, scope, in_def, ks[0], None))
            || exists|s1: TopState, v1: Vis| #[trigger] reached(s1, v1)
                && walk(emit, s, v, scope, in_def, ks[0], Some((s1, v1)))
                && walk_list(emit, s1, v1, scope, in_def, ks.skip(1), d, out)
    }
}

/// Walking the node, if there is one, shallower than `d`.
pub open spec fn walk_opt(emit: bool, s: TopState, v: Vis, scope: Rc<Scope>, in_def: bool, o: Option<Rc<Node>>, d: nat,
    out: Option<(TopState, Vis)>) -> bool
    decreases d, 1int, 0int,
{
    match o {
        None => out == Some((s, v)),
        Some(n) => if depth(*n) < d { walk(emit, s, v, scope, in_def, n, out) } else { out is None },
    }
}

/// Walking a body afresh in `scope`: with methods public again and no
/// `module_function`; the visibility around it is kept.
pub open spec fn enter(emit: bool, s: TopState, v: Vis, scope: Rc<Scope>, in_def: bool, body: Option<Rc<Node>>, d: nat,
    out: Option<(TopState, Vis)>) -> bool
    decreases d, 2int, 0int,
{
    match body {
        None => out == Some((s, v)),
        Some(b) => if !(depth(*b) < d) {
            out is None
        } else {
            match out {
                None => walk(emit, s, (MethodVisibility::Public, false), scope, in_def, b, None),
                Some(o) => o.1 == v && exists|s3: TopState, v3: Vis| #[trigger] reached(s3, v3) && s3 == o.0
                    && walk(emit, s, (MethodVisibility::Public, false), scope, in_def, b, Some((s3, v3))),
            }
        },
    }
}

/// The body of a class or module that was opened as `c`, if it was.
pub open spec fn opened(emit: bool, s: TopState, v: Vis, scope: Rc<Scope>, in_def: bool, c: Option<usize>,
    body: Option<Rc<Node>>, d: nat, out: Option<(TopState, Vis)>) -> bool
    decreases d, 3int, 0int,
{
    match c {
        None => out == Some((s, v)),
        Some(m) => enter(emit, s, v, spawned(scope, m), in_def, body, d, out),
    }
}

/// A method defined outside a method body: queued on the module of the
/// scope with the visibility in force, and also on its metaclass under
/// `module_function`; then its body, as a method body.
pub open spec fn def_decl(emit: bool, s: TopState, v: Vis, scope: Rc<Scope>, r: Rc<Node>, id: Id,
    body: Option<Rc<Node>>, d: nat, out: Option<(TopState, Vis)>) -> bool
    decreases d, 3int, 0int,
{
    let s2 = queued(s, MethodDef::Def { module: scope.module, visi: v.0, name: id, node: r, scope });
    if !s.0.wf() || !scope_in(s.0, *scope) {
        out is None
    } else if v.1 {
        if !(metaclass_made(s2.0@, scope.module) || 2 * s2.0@.len() + 2 < usize::MAX) {
            out is None
        } else {
            exists|g: ObjectGraph, m: usize| #[trigger] metaclass_done(s2.0, g, scope.module, m)
                && enter(emit, queued(regraphed(s2, g), MethodDef::Def {
                    module: m, visi: MethodVisibility::Public, name: id, node: r, scope }), v, scope, true, body, d, out)
        }
    } else {
        enter(emit, s2, v, scope, true, body, d, out)
    }
}

/// The prototype of a method, then its body as a method body.
pub open spec fn def_tail(emit: bool, s: TopState, v: Vis, scope: Rc<Scope>, in_def: bool, proto: Option<Rc<Node>>,
    body: Option<Rc<Node>>, d: nat, out: Option<(TopState, Vis)>) -> bool
    decreases d, 3int, 0int,
{
    (out is None && walk_opt(emit, s, v, scope, in_def, proto, d, None))
        || exists|s1: TopState, v1: Vis| #[trigger] reached(s1, v1)
            && walk_opt(emit, s, v, scope, in_def, proto, d, Some((s1, v1)))
            && enter(emit, s1, v1, scope, true, body, d, out)
}

/// A call on `self` outside a method body: the calls that declare
/// something, by name; any other call does nothing.
pub open spec fn self_send(emit: bool, s: TopState, v: Vis, scope: Rc<Scope>, id: Id, args: Seq<Rc<Node>>, d: nat,
    out: Option<(TopState, Vis)>) -> bool
    decreases d, 8int, 0int,
{
    let name = id.1@;
    if name == "include"@ {
        inclusion(emit, s, v, scope, id, scope.module, args, d, out)
    } else if name == "extend"@ {
        if !(metaclass_made(s.0@, scope.module) || 2 * s.0@.len() + 2 < usize::MAX) {
            out is None
        } else {
            exists|g: ObjectGraph, m: usize| #[trigger] metaclass_done(s.0, g, scope.module, m)
                && inclusion(emit, regraphed(s, g), v, scope, id, m, args, d, out)
        }
    } else if name == "require"@ || name == "require_dependency"@ {
        out == Some((required(emit, s, id, args, false), v))
    } else if name == "require_relative"@ {
        out == Some((required(emit, s, id, args, true), v))
    } else if name == "alias_method"@ {
        if args.len() != 2 {
            out == Some((note1(s, emit, Severity::Error, "Wrong number of arguments to "@ + name, "here"@, id.0), v))
        } else {
            aliased(emit, s, v, scope, scope.module, args[1], args[0], d, out)
        }
    } else if name == "attr_reader"@ {
        attrs(emit, s, v, scope, AttrType::Reader, args, d, out)
    } else if name == "attr_writer"@ {
        attrs(emit, s, v, scope, AttrType::Writer, args, d, out)
    } else if name == "attr_accessor"@ {
        attrs(emit, s, v, scope, AttrType::Accessor, args, d, out)
    } else if name == "module_function"@ {
        if args.len() == 0 {
            out == Some((s, (MethodVisibility::Private, true)))
        } else {
            module_functions(emit, s, v, scope, args, d, out)
        }
    } else if name == "public"@ || name == "private"@ || name == "protected"@ {
        let visi = if name == "public"@ {
            MethodVisibility::Public
        } else if name == "private"@ {
            MethodVisibility::Private
        } else {
            MethodVisibility::Protected
        };
        if args.len() == 0 {
            out == Some((s, (visi, v.1)))
        } else {
            visibilities(emit, s, v, scope, visi, args, d, out)
        }
    } else {
        out == Some((s, v))
    }
}

/// `include` or `extend` of the modules `args` into `target`; at least one
/// is needed.
pub open spec fn inclusion(emit: bool, s: TopState, v: Vis, scope: Rc<Scope>, id: Id, target: usize, args: Seq<Rc<Node>>,
    d: nat, out: Option<(TopState, Vis)>) -> bool
    decreases d, 7int, 0int,
{
    if args.len() == 0 {
        out == Some((note1(s, emit, Severity::Error, "Wrong number of arguments to "@ + id.1@, "here"@, id.0), v))
    } else {
        includes(emit, s, v, scope, id, target, args, d, out)
    }
}

/// Each module of `args` in turn included into `target`: a static one is
/// included, a cyclic inclusion is an error, and one that is not static is
/// passed over with a warning.
pub open spec fn includes(emit: bool, s: TopState, v: Vis, scope: Rc<Scope>, id: Id, target: usize, args: Seq<Rc<Node>>,
    d: nat, out: Option<(TopState, Vis)>) -> bool
    decreases d, 6int, args.len(),
{
    if !s.0.wf() || !scope_in(s.0, *scope) {
        out is None
    } else if args.len() == 0 {
        out == Some((s, v))
    } else {
        let a = args[0];
        match static_ref(s.0, *scope, *a) {
            Ok(o) => if !(target < s.0@.len() && o < s.0@.len() && 2 * s.0@.len() + 2 < usize::MAX
                && (target == delegate_of(s.0@, o) || (!(s.0@[o as int] is IClass) && type_params(s.0@[o as int]).len() == 0))) {
                out is None
            } else {
                exists|g: ObjectGraph, tps: Vec<TypeNodeRef>, res: Result<(), IncludeError>|
                    #[trigger] include_done(s.0, g, target, o, tps, (*a).spec_loc(), res) && tps@.len() == 0
                    && includes(emit, if res is Err {
                        note1(regraphed(s, g), emit, Severity::Error, "Cyclic include"@, "here"@, (*a).spec_loc())
                    } else {
                        regraphed(s, g)
                    }, v, scope, id, target, args.skip(1), d, out)
            },
            Err((l, msg)) => includes(emit, note1(s, emit, Severity::Warning,
                "Could not statically resolve module reference in "@ + id.1@, msg, l), v, scope, id, target, args.skip(1), d, out),
        }
    }
}

/// `require` with the arguments `args`: one string, whose loading is asked
/// for; anything else is reported.
pub open spec fn required(emit: bool, s: TopState, id: Id, args: Seq<Rc<Node>>, relative: bool) -> TopState {
    if args.len() == 0 {
        note1(s, emit, Severity::Error, "Missing argument to "@ + id.1@, "here"@, id.0)
    } else if args.len() > 1 {
        note1(s, emit, Severity::Error, "Too many arguments to "@ + id.1@, "from here"@, (*args[1]).spec_loc())
    } else {
        match *args[0] {
            Node::String(l, p) => (s.0, s.1, s.2, s.3, s.4.push(Action::Require { path: p, relative, loc: l })),
            _ => note1(s, emit, Severity::Warning, "Could not resolve dynamic path in require"@, "here"@, (*args[0]).spec_loc()),
        }
    }
}

/// What a node names as a symbol: a symbol literal, or the method a `def`
/// defines (the `def` is walked); anything else is reported and names
/// nothing.
pub open spec fn symbol(emit: bool, s: TopState, v: Vis, scope: Rc<Scope>, r: Rc<Node>, msg: Seq<char>, d: nat,
    out: Option<(TopState, Vis, Option<Id>)>) -> bool
    decreases d, 5int, 0int,
{
    if !(depth(*r) < d) {
        out is None
    } else {
        match *r {
            Node::Symbol(l, name) => out == Some((s, v, Some(Id(l, name)))),
            Node::Def(_, id, _, _) => match out {
                None => walk(emit, s, v, scope, false, r, None),
                Some((s2, v2, x)) => x == Some(id) && walk(emit, s, v, scope, false, r, Some((s2, v2))),
            },
            Node::Defs(_, _, id, _, _) => match out {
                None => walk(emit, s, v, scope, false, r, None),
                Some((s2, v2, x)) => x == Some(id) && walk(emit, s, v, scope, false, r, Some((s2, v2))),
            },
            _ => out == Some((note1(s, emit, Severity::Warning, "Dynamic symbol "@ + msg, "here"@, (*r).spec_loc()), v, None::<Id>)),
        }
    }
}


/// The words that say where a dynamic symbol stands in an alias.
pub open spec fn in_alias() -> Seq<char> {
    "in alias"@
}

/// The words that say where a dynamic symbol stands in an attribute
/// declaration.
pub open spec fn in_attribute_name() -> Seq<char> {
    "in attribute name"@
}

/// The words that say where a dynamic symbol stands in a list of method
/// names.
pub open spec fn in_method_name() -> Seq<char> {
    "in method name"@
}

/// An alias from the name `from` names to the name `to` names, queued on
/// `module` where both are known.
pub open spec fn aliased(emit: bool, s: TopState, v: Vis, scope: Rc<Scope>, module: usize, from: Rc<Node>, to: Rc<Node>,
    d: nat, out: Option<(TopState, Vis)>) -> bool
    decreases d, 6int, 0int,
{
    (out is None && symbol(emit, s, v, scope, from, in_alias(), d, None))
        || exists|s1: TopState, v1: Vis, x1: Option<Id>| #[trigger] picked(s1, v1, x1)
            && symbol(emit, s, v, scope, from, in_alias(), d, Some((s1, v1, x1)))
            && alias_to(emit, (s1, v1, x1), scope, module, to, d, out)
}

/// The second half of an alias: what `to` names, then the alias queued
/// where both names are known.
pub open spec fn alias_to(emit: bool, m1: (TopState, Vis, Option<Id>), scope: Rc<Scope>, module: usize, to: Rc<Node>,
    d: nat, out: Option<(TopState, Vis)>) -> bool
    decreases d, 5int, 1int,
{
    (out is None && symbol(emit, m1.0, m1.1, scope, to, in_alias(), d, None))
        || exists|s2: TopState, v2: Vis, x2: Option<Id>| #[trigger] picked(s2, v2, x2)
            && symbol(emit, m1.0, m1.1, scope, to, in_alias(), d, Some((s2, v2, x2)))
            && out == Some((match (m1.2, x2) {
                (Some(f), Some(t)) => queued(s2, MethodDef::Alias { module, to: t, from: f, emit_error: emit }),
                _ => s2,
            }, v2))
}

/// The accessors `attr_*` declares for each name of `args`, with the
/// visibility in force.
pub open spec fn attrs(emit: bool, s: TopState, v: Vis, scope: Rc<Scope>, t: AttrType, args: Seq<Rc<Node>>, d: nat,
    out: Option<(TopState, Vis)>) -> bool
    decreases d, 6int, args.len(),
{
    if args.len() == 0 {
        out == Some((s, v))
    } else {
        (out is None && symbol(emit, s, v, scope, args[0], in_attribute_name(), d, None))
            || exists|s1: TopState, v1: Vis, x1: Option<Id>| #[trigger] picked(s1, v1, x1)
                && symbol(emit, s, v, scope, args[0], in_attribute_name(), d, Some((s1, v1, x1)))
                && attrs(emit, match x1 {
                    Some(n) => {
                        let r1 = if t is Reader || t is Accessor {
                            queued(s1, MethodDef::AttrReader { module: scope.module, visi: v1.0, name: n })
                        } else {
                            s1
                        };
                        if t is Writer || t is Accessor {
                            queued(r1, MethodDef::AttrWriter { module: scope.module, visi: v1.0, name: n })
                        } else {
                            r1
                        }
                    },
                    None => s1,
                }, v1, scope, t, args.skip(1), d, out)
    }
}

/// `module_function` with names: each name known is queued.
pub open spec fn module_functions(emit: bool, s: TopState, v: Vis, scope: Rc<Scope>, args: Seq<Rc<Node>>, d: nat,
    out: Option<(TopState, Vis)>) -> bool
    decreases d, 6int, args.len(),
{
    if args.len() == 0 {
        out == Some((s, v))
    } else {
        (out is None && symbol(emit, s, v, scope, args[0], in_method_name(), d, None))
            || exists|s1: TopState, v1: Vis, x1: Option<Id>| #[trigger] picked(s1, v1, x1)
                && symbol(emit, s, v, scope, args[0], in_method_name(), d, Some((s1, v1, x1)))
                && module_functions(emit, match x1 {
                    Some(n) => queued(s1, MethodDef::ModuleFunc { module: scope.module, name: n, emit_error: emit }),
                    None => s1,
                }, v1, scope, args.skip(1), d, out)
    }
}

/// `public`, `private` or `protected` with names: each name known is
/// queued with the visibility.
pub open spec fn visibilities(emit: bool, s: TopState, v: Vis, scope: Rc<Scope>, visi: MethodVisibility, args: Seq<Rc<Node>>,
    d: nat, out: Option<(TopState, Vis)>) -> bool
    decreases d, 6int, args.len(),
{
    if args.len() == 0 {
        out == Some((s, v))
    } else {
        (out is None && symbol(emit, s, v, scope, args[0], in_method_name(), d, None))
            || exists|s1: TopState, v1: Vis, x1: Option<Id>| #[trigger] picked(s1, v1, x1)
                && symbol(emit, s, v, scope, args[0], in_method_name(), d, Some((s1, v1, x1)))
                && visibilities(emit, match x1 {
                    Some(n) => queued(s1, MethodDef::SetVisi { module: scope.module, visi, name: n, emit_error: emit }),
                    None => s1,
                }, v1, scope, visi, args.skip(1), d, out)
    }
}

/// The node `r` points at.
pub open spec fn node_of(r: Rc<Node>) -> Node {
    *r
}

/// The scope `r` points at.
pub open spec fn scope_of(r: Rc<Scope>) -> Scope {
    *r
}

/// `b` keeps, as its beginning, each queue of `a`: the method definitions,
/// the instance variable declarations, the notices and the actions asked
/// for.
pub open spec fn grew(a: TopState, b: TopState) -> bool {
    &&& a.1.len() <= b.1.len() && b.1.subrange(0, a.1.len() as int) == a.1
    &&& a.2.len() <= b.2.len() && b.2.subrange(0, a.2.len() as int) == a.2
    &&& a.3.len() <= b.3.len() && b.3.subrange(0, a.3.len() as int) == a.3
    &&& a.4.len() <= b.4.len() && b.4.subrange(0, a.4.len() as int) == a.4
}

proof fn lemma_noted_grew(a: TopState, g: ObjectGraph, x: Seq<(Severity, ReportView)>)
    ensures
        grew(a, (g, a.1, a.2, a.3 + x, a.4)),
{
    lemma_grew_refl(a);
    assert((a.3 + x).subrange(0, a.3.len() as int) =~= a.3);
}

proof fn lemma_grew_refl(a: TopState)
    ensures
        grew(a, a),
{
    assert(a.1.subrange(0, a.1.len() as int) =~= a.1);
    assert(a.2.subrange(0, a.2.len() as int) =~= a.2);
    assert(a.3.subrange(0, a.3.len() as int) =~= a.3);
    assert(a.4.subrange(0, a.4.len() as int) =~= a.4);
}

proof fn lemma_grew_trans(a: TopState, b: TopState, c: TopState)
    requires
        grew(a, b),
        grew(b, c),
    ensures
        grew(a, c),
{
    assert(c.1.subrange(0, a.1.len() as int) =~= c.1.subrange(0, b.1.len() as int).subrange(0, a.1.len() as int));
    assert(c.2.subrange(0, a.2.len() as int) =~= c.2.subrange(0, b.2.len() as int).subrange(0, a.2.len() as int));
    assert(c.3.subrange(0, a.3.len() as int) =~= c.3.subrange(0, b.3.len() as int).subrange(0, a.3.len() as int));
    assert(c.4.subrange(0, a.4.len() as int) =~= c.4.subrange(0, b.4.len() as int).subrange(0, a.4.len() as int));
}

proof fn lemma_queued_grew(a: TopState, m: MethodDef)
    ensures
        grew(a, queued(a, m)),
{
    lemma_grew_refl(a);
    assert(a.1.push(m).subrange(0, a.1.len() as int) =~= a.1);
}

/// Walking a node never drops what came before it: the method definitions
/// and instance variable declarations queued, the notices given and the
/// actions asked for before the walk stay, in order, at the start of those
/// after it; and a well-formed object graph stays well-formed.
pub proof fn lemma_walk_grows(emit: bool, s: TopState, v: Vis, scope: Rc<Scope>, in_def: bool, r: Rc<Node>, s2: TopState, v2: Vis)
    requires
        walk(emit, s, v, scope, in_def, r, Some((s2, v2))),
    ensures
        grew(s, s2),
        s.0.wf() ==> s2.0.wf(),
    decreases depth(*r), 9int, 0int,
{
    lemma_grew_refl(s);
    let d = depth(node_of(r));
    match node_of(r) {
        Node::Class(_, declname, sup, body) => {
            let (name, params) = class_head(node_of(declname))->0;
            let (g, ns, c) = choose|g: ObjectGraph, ns: Seq<(Severity, ReportView)>, c: Option<usize>|
                #[trigger] class_done(s.0, g, s.3, ns, *scope, name, params, sup, emit, c)
                && opened(emit, (g, s.1, s.2, ns, s.4), v, scope, in_def, c, body, d, Some((s2, v2)));
            lemma_opened_grows(emit, (g, s.1, s.2, ns, s.4), v, scope, in_def, c, body, d, s2, v2);
            lemma_noted_grew(s, g, emitted(emit, class_decl(s.0, scope_of(scope), name, params, sup).1));
            lemma_grew_trans(s, (g, s.1, s.2, ns, s.4), s2);
        },
        Node::Module(_, name, body) => {
            let (g, ns, c) = choose|g: ObjectGraph, ns: Seq<(Severity, ReportView)>, c: Option<usize>|
                #[trigger] module_done(s.0, g, s.3, ns, *scope, *name, emit, c)
                && opened(emit, (g, s.1, s.2, ns, s.4), v, scope, in_def, c, body, d, Some((s2, v2)));
            lemma_opened_grows(emit, (g, s.1, s.2, ns, s.4), v, scope, in_def, c, body, d, s2, v2);
            lemma_noted_grew(s, g, emitted(emit, module_decl(s.0, scope_of(scope), node_of(name)).1));
            lemma_grew_trans(s, (g, s.1, s.2, ns, s.4), s2);
        },
        Node::SClass(_, expr, body) => if in_def {
            lemma_list_grows(emit, s, v, scope, in_def, seq![expr] + opt_seq(body), d, s2, v2);
        } else {
            match static_ref(s.0, scope_of(scope), node_of(expr)) {
                Ok(o) => {
                    let (g, m) = choose|g: ObjectGraph, m: usize| #[trigger] metaclass_done(s.0, g, o, m)
                        && enter(emit, regraphed(s, g), v, spawned(scope, m), in_def, body, d, Some((s2, v2)));
                    lemma_enter_grows(emit, regraphed(s, g), v, spawned(scope, m), in_def, body, d, s2, v2);
                },
                Err((l, msg)) => {
                    lemma_noted_grew(s, s.0, emitted(emit, seq![(Severity::Warning,
                        report1("Could not statically resolve singleton expression"@, msg, l))]));
                },
            }
        },
        Node::Def(_, id, proto, body) => if in_def {
            lemma_def_tail_grows(emit, s, v, scope, in_def, proto, body, d, s2, v2);
        } else {
            let (s1, v1) = choose|s1: TopState, v1: Vis| #[trigger] reached(s1, v1)
                && walk_opt(emit, s, v, scope, in_def, proto, d, Some((s1, v1)))
                && def_decl(emit, s1, v1, scope, r, id, body, d, Some((s2, v2)));
            lemma_opt_grows(emit, s, v, scope, in_def, proto, d, s1, v1);
            lemma_def_decl_grows(emit, s1, v1, scope, r, id, body, d, s2, v2);
            lemma_grew_trans(s, s1, s2);
        },
        Node::Defs(_, singleton, id, proto, body) => if in_def {
            let (s1, v1) = choose|s1: TopState, v1: Vis| #[trigger] reached(s1, v1)
                && walk_list(emit, s, v, scope, in_def, seq![singleton], d, Some((s1, v1)))
                && def_tail(emit, s1, v1, scope, in_def, proto, body, d, Some((s2, v2)));
            lemma_list_grows(emit, s, v, scope, in_def, seq![singleton], d, s1, v1);
            lemma_def_tail_grows(emit, s1, v1, scope, in_def, proto, body, d, s2, v2);
            lemma_grew_trans(s, s1, s2);
        } else {
            match static_ref(s.0, scope_of(scope), node_of(singleton)) {
                Ok(o) => {
                    let (g, m) = choose|g: ObjectGraph, m: usize| #[trigger] metaclass_done(s.0, g, o, m)
                        && def_tail(emit, queued(regraphed(s, g), MethodDef::Def {
                            module: m, visi: MethodVisibility::Public, name: id, node: r, scope }),
                            v, scope, in_def, proto, body, d, Some((s2, v2)));
                    let s1 = queued(regraphed(s, g), MethodDef::Def { module: m, visi: MethodVisibility::Public, name: id, node: r, scope });
                    lemma_queued_grew(regraphed(s, g), MethodDef::Def { module: m, visi: MethodVisibility::Public, name: id, node: r, scope });
                    lemma_def_tail_grows(emit, s1, v, scope, in_def, proto, body, d, s2, v2);
                    lemma_grew_trans(s, s1, s2);
                },
                Err((l, msg)) => {
                    lemma_def_tail_grows(emit, note1(s, emit, Severity::Warning, msg, "here"@, l), v, scope, in_def, proto, body, d, s2, v2);
                    lemma_noted_grew(s, s.0, emitted(emit, seq![(Severity::Warning, report1(msg, "here"@, l))]));
                    lemma_grew_trans(s, note1(s, emit, Severity::Warning, msg, "here"@, l), s2);
                },
            }
        },
        Node::Send(_, None, id, args) => if in_def {
            lemma_list_grows(emit, s, v, scope, in_def, args@, d, s2, v2);
        } else {
            lemma_self_send_grows(emit, s, v, scope, id, args@, d, s2, v2);
        },
        Node::ConstAsgn(_, base, id, expr) => if in_def {
            lemma_list_grows(emit, s, v, scope, in_def, opt_seq(base) + seq![expr], d, s2, v2);
        } else {
            let (g, ns) = choose|g: ObjectGraph, ns: Seq<(Severity, ReportView)>|
                #[trigger] constant_done(s.0, g, s.3, ns, scope, base, id, node_of(expr), emit)
                && Some((s2, v2)) == Some(((g, s.1, s.2, ns, s.4), v));
            assert(ns.subrange(0, s.3.len() as int) =~= s.3);
        },
        Node::Alias(_, to, from) => if !in_def {
            lemma_aliased_grows(emit, s, v, scope, scope.module, from, to, d, s2, v2);
        },
        Node::TyIvardecl(l, ivar, tn) => if !in_def {
            assert(s2.2.subrange(0, s.2.len() as int) =~= s.2);
        } else {
            lemma_noted_grew(s, s.0, emitted(emit, seq![(Severity::Error,
                report1("Invalid instance variable type declaration"@, "here"@, l))]));
        },
        _ => {
            lemma_list_grows(emit, s, v, scope, in_def, plain_kids(node_of(r))->0, d, s2, v2);
        },
    }
}

proof fn lemma_list_grows(emit: bool, s: TopState, v: Vis, scope: Rc<Scope>, in_def: bool, ks: Seq<Rc<Node>>, d: nat, s2: TopState, v2: Vis)
    requires
        walk_list(emit, s, v, scope, in_def, ks, d, Some((s2, v2))),
    ensures
        grew(s, s2),
        s.0.wf() ==> s2.0.wf(),
    decreases d, 1int, ks.len(),
{
    lemma_grew_refl(s);
    if ks.len() > 0 {
        let (s1, v1) = choose|s1: TopState, v1: Vis| #[trigger] reached(s1, v1)
            && walk(emit, s, v, scope, in_def, ks[0], Some((s1, v1)))
            && walk_list(emit, s1, v1, scope, in_def, ks.skip(1), d, Some((s2, v2)));
        lemma_walk_grows(emit, s, v, scope, in_def, ks[0], s1, v1);
        lemma_list_grows(emit, s1, v1, scope, in_def, ks.skip(1), d, s2, v2);
        lemma_grew_trans(s, s1, s2);
    }
}

proof fn lemma_opt_grows(emit: bool, s: TopState, v: Vis, scope: Rc<Scope>, in_def: bool, o: Option<Rc<Node>>, d: nat, s2: TopState, v2: Vis)
    requires
        walk_opt(emit, s, v, scope, in_def, o, d, Some((s2, v2))),
    ensures
        grew(s, s2),
        s.0.wf() ==> s2.0.wf(),
    decreases d, 1int, 0int,
{
    lemma_grew_refl(s);
    if let Some(n) = o {
        lemma_walk_grows(emit, s, v, scope, in_def, n, s2, v2);
    }
}

proof fn lemma_enter_grows(emit: bool, s: TopState, v: Vis, scope: Rc<Scope>, in_def: bool, body: Option<Rc<Node>>, d: nat, s2: TopState, v2: Vis)
    requires
        enter(emit, s, v, scope, in_def, body, d, Some((s2, v2))),
    ensures
        grew(s, s2),
        s.0.wf() ==> s2.0.wf(),
    decreases d, 2int, 0int,
{
    lemma_grew_refl(s);
    if let Some(b) = body {
        let (s3, v3) = choose|s3: TopState, v3: Vis| #[trigger] reached(s3, v3) && s3 == s2
            && walk(emit, s, (MethodVisibility::Public, false), scope, in_def, b, Some((s3, v3)));
        lemma_walk_grows(emit, s, (MethodVisibility::Public, false), scope, in_def, b, s3, v3);
    }
}

proof fn lemma_opened_grows(emit: bool, s: TopState, v: Vis, scope: Rc<Scope>, in_def: bool, c: Option<usize>,
    body: Option<Rc<Node>>, d: nat, s2: TopState, v2: Vis)
    requires
        opened(emit, s, v, scope, in_def, c, body, d, Some((s2, v2))),
    ensures
        grew(s, s2),
        s.0.wf() ==> s2.0.wf(),
    decreases d, 3int, 0int,
{
    lemma_grew_refl(s);
    if let Some(m) = c {
        lemma_enter_grows(emit, s, v, spawned(scope, m), in_def, body, d, s2, v2);
    }
}

proof fn lemma_def_decl_grows(emit: bool, s: TopState, v: Vis, scope: Rc<Scope>, r: Rc<Node>, id: Id,
    body: Option<Rc<Node>>, d: nat, s2: TopState, v2: Vis)
    requires
        def_decl(emit, s, v, scope, r, id, body, d, Some((s2, v2))),
    ensures
        grew(s, s2),
        s.0.wf() ==> s2.0.wf(),
    decreases d, 3int, 0int,
{
    let m0 = MethodDef::Def { module: scope.module, visi: v.0, name: id, node: r, scope };
    let q = queued(s, m0);
    lemma_queued_grew(s, m0);
    if v.1 {
        let (g, m) = choose|g: ObjectGraph, m: usize| #[trigger] metaclass_done(q.0, g, scope.module, m)
            && enter(emit, queued(regraphed(q, g), MethodDef::Def {
                module: m, visi: MethodVisibility::Public, name: id, node: r, scope }), v, scope, true, body, d, Some((s2, v2)));
        let m1 = MethodDef::Def { module: m, visi: MethodVisibility::Public, name: id, node: r, scope };
        lemma_queued_grew(regraphed(q, g), m1);
        lemma_enter_grows(emit, queued(regraphed(q, g), m1), v, scope, true, body, d, s2, v2);
        lemma_grew_trans(q, queued(regraphed(q, g), m1), s2);
    } else {
        lemma_enter_grows(emit, q, v, scope, true, body, d, s2, v2);
    }
    lemma_grew_trans(s, q, s2);
}

proof fn lemma_def_tail_grows(emit: bool, s: TopState, v: Vis, scope: Rc<Scope>, in_def: bool, proto: Option<Rc<Node>>,
    body: Option<Rc<Node>>, d: nat, s2: TopState, v2: Vis)
    requires
        def_tail(emit, s, v, scope, in_def, proto, body, d, Some((s2, v2))),
    ensures
        grew(s, s2),
        s.0.wf() ==> s2.0.wf(),
    decreases d, 3int, 0int,
{
    let (s1, v1) = choose|s1: TopState, v1: Vis| #[trigger] reached(s1, v1)
        && walk_opt(emit, s, v, scope, in_def, proto, d, Some((s1, v1)))
        && enter(emit, s1, v1, scope, true, body, d, Some((s2, v2)));
    lemma_opt_grows(emit, s, v, scope, in_def, proto, d, s1, v1);
    lemma_enter_grows(emit, s1, v1, scope, true, body, d, s2, v2);
    lemma_grew_trans(s, s1, s2);
}

proof fn lemma_self_send_grows(emit: bool, s: TopState, v: Vis, scope: Rc<Scope>, id: Id, args: Seq<Rc<Node>>, d: nat,
    s2: TopState, v2: Vis)
    requires
        self_send(emit, s, v, scope, id, args, d, Some((s2, v2))),
    ensures
        grew(s, s2),
        s.0.wf() ==> s2.0.wf(),
    decreases d, 8int, 0int,
{
    lemma_grew_refl(s);
    let name = id.1@;
    if name == "include"@ {
        lemma_inclusion_grows(emit, s, v, scope, id, scope.module, args, d, s2, v2);
    } else if name == "extend"@ {
        let (g, m) = choose|g: ObjectGraph, m: usize| #[trigger] metaclass_done(s.0, g, scope.module, m)
            && inclusion(emit, regraphed(s, g), v, scope, id, m, args, d, Some((s2, v2)));
        lemma_inclusion_grows(emit, regraphed(s, g), v, scope, id, m, args, d, s2, v2);
    } else if name == "require"@ || name == "require_dependency"@ || name == "require_relative"@ {
        if args.len() == 0 {
            lemma_noted_grew(s, s.0, emitted(emit, seq![(Severity::Error, report1("Missing argument to "@ + id.1@, "here"@, id.0))]));
        } else if args.len() > 1 {
            lemma_noted_grew(s, s.0, emitted(emit, seq![(Severity::Error,
                report1("Too many arguments to "@ + id.1@, "from here"@, node_of(args[1]).spec_loc()))]));
        } else if let Node::String(l, p) = node_of(args[0]) {
            assert(s2.4.subrange(0, s.4.len() as int) =~= s.4);
        } else {
            lemma_noted_grew(s, s.0, emitted(emit, seq![(Severity::Warning,
                report1("Could not resolve dynamic path in require"@, "here"@, node_of(args[0]).spec_loc()))]));
        }
    } else if name == "alias_method"@ {
        if args.len() == 2 {
            lemma_aliased_grows(emit, s, v, scope, scope.module, args[1], args[0], d, s2, v2);
        } else {
            lemma_noted_grew(s, s.0, emitted(emit, seq![(Severity::Error, report1("Wrong number of arguments to "@ + name, "here"@, id.0))]));
        }
    } else if name == "attr_reader"@ {
        lemma_attrs_grows(emit, s, v, scope, AttrType::Reader, args, d, s2, v2);
    } else if name == "attr_writer"@ {
        lemma_attrs_grows(emit, s, v, scope, AttrType::Writer, args, d, s2, v2);
    } else if name == "attr_accessor"@ {
        lemma_attrs_grows(emit, s, v, scope, AttrType::Accessor, args, d, s2, v2);
    } else if name == "module_function"@ {
        if args.len() > 0 {
            lemma_module_functions_grows(emit, s, v, scope, args, d, s2, v2);
        }
    } else if name == "public"@ || name == "private"@ || name == "protected"@ {
        let visi = if name == "public"@ {
            MethodVisibility::Public
        } else if name == "private"@ {
            MethodVisibility::Private
        } else {
            MethodVisibility::Protected
        };
        if args.len() > 0 {
            lemma_visibilities_grows(emit, s, v, scope, visi, args, d, s2, v2);
        }
    }
}

proof fn lemma_inclusion_grows(emit: bool, s: TopState, v: Vis, scope: Rc<Scope>, id: Id, target: usize, args: Seq<Rc<Node>>,
    d: nat, s2: TopState, v2: Vis)
    requires
        inclusion(emit, s, v, scope, id, target, args, d, Some((s2, v2))),
    ensures
        grew(s, s2),
        s.0.wf() ==> s2.0.wf(),
    decreases d, 7int, 0int,
{
    lemma_grew_refl(s);
    if args.len() > 0 {
        lemma_includes_grows(emit, s, v, scope, id, target, args, d, s2, v2);
    } else {
        lemma_noted_grew(s, s.0, emitted(emit, seq![(Severity::Error, report1("Wrong number of arguments to "@ + id.1@, "here"@, id.0))]));
    }
}

proof fn lemma_includes_grows(emit: bool, s: TopState, v: Vis, scope: Rc<Scope>, id: Id, target: usize, args: Seq<Rc<Node>>,
    d: nat, s2: TopState, v2: Vis)
    requires
        includes(emit, s, v, scope, id, target, args, d, Some((s2, v2))),
    ensures
        grew(s, s2),
        s.0.wf() ==> s2.0.wf(),
    decreases d, 6int, args.len(),
{
    lemma_grew_refl(s);
    if args.len() > 0 {
        let a = args[0];
        match static_ref(s.0, scope_of(scope), node_of(a)) {
            Ok(o) => {
                let (g, tps, res) = choose|g: ObjectGraph, tps: Vec<TypeNodeRef>, res: Result<(), IncludeError>|
                    #[trigger] include_done(s.0, g, target, o, tps, (*a).spec_loc(), res) && tps@.len() == 0
                    && includes(emit, if res is Err {
                        note1(regraphed(s, g), emit, Severity::Error, "Cyclic include"@, "here"@, (*a).spec_loc())
                    } else {
                        regraphed(s, g)
                    }, v, scope, id, target, args.skip(1), d, Some((s2, v2)));
                let s1 = if res is Err {
                    note1(regraphed(s, g), emit, Severity::Error, "Cyclic include"@, "here"@, (*a).spec_loc())
                } else {
                    regraphed(s, g)
                };
                lemma_includes_grows(emit, s1, v, scope, id, target, args.skip(1), d, s2, v2);
                lemma_grew_refl(regraphed(s, g));
                lemma_noted_grew(s, g, emitted(emit, seq![(Severity::Error, report1("Cyclic include"@, "here"@, node_of(a).spec_loc()))]));
                lemma_grew_trans(s, s1, s2);
            },
            Err((l, msg)) => {
                let s1 = note1(s, emit, Severity::Warning, "Could not statically resolve module reference in "@ + id.1@, msg, l);
                lemma_includes_grows(emit, s1, v, scope, id, target, args.skip(1), d, s2, v2);
                lemma_noted_grew(s, s.0, emitted(emit, seq![(Severity::Warning,
                    report1("Could not statically resolve module reference in "@ + id.1@, msg, l))]));
                lemma_grew_trans(s, s1, s2);
            },
        }
    }
}

proof fn lemma_symbol_grows(emit: bool, s: TopState, v: Vis, scope: Rc<Scope>, r: Rc<Node>, msg: Seq<char>, d: nat,
    s2: TopState, v2: Vis, x: Option<Id>)
    requires
        symbol(emit, s, v, scope, r, msg, d, Some((s2, v2, x))),
    ensures
        grew(s, s2),
        s.0.wf() ==> s2.0.wf(),
    decreases d, 5int, 0int,
{
    lemma_grew_refl(s);
    match node_of(r) {
        Node::Def(..) => {
            lemma_walk_grows(emit, s, v, scope, false, r, s2, v2);
        },
        Node::Defs(..) => {
            lemma_walk_grows(emit, s, v, scope, false, r, s2, v2);
        },
        Node::Symbol(..) => {},
        _ => {
            lemma_noted_grew(s, s.0, emitted(emit, seq![(Severity::Warning, report1("Dynamic symbol "@ + msg, "here"@, node_of(r).spec_loc()))]));
        },
    }
}

proof fn lemma_aliased_grows(emit: bool, s: TopState, v: Vis, scope: Rc<Scope>, module: usize, from: Rc<Node>, to: Rc<Node>,
    d: nat, s2: TopState, v2: Vis)
    requires
        aliased(emit, s, v, scope, module, from, to, d, Some((s2, v2))),
    ensures
        grew(s, s2),
        s.0.wf() ==> s2.0.wf(),
    decreases d, 6int, 0int,
{
    let (s1, v1, x1) = choose|s1: TopState, v1: Vis, x1: Option<Id>| #[trigger] picked(s1, v1, x1)
        && symbol(emit, s, v, scope, from, in_alias(), d, Some((s1, v1, x1)))
        && alias_to(emit, (s1, v1, x1), scope, module, to, d, Some((s2, v2)));
    lemma_symbol_grows(emit, s, v, scope, from, in_alias(), d, s1, v1, x1);
    lemma_alias_to_grows(emit, (s1, v1, x1), scope, module, to, d, s2, v2);
    lemma_grew_trans(s, s1, s2);
}

proof fn lemma_alias_to_grows(emit: bool, m1: (TopState, Vis, Option<Id>), scope: Rc<Scope>, module: usize, to: Rc<Node>,
    d: nat, s2: TopState, v2: Vis)
    requires
        alias_to(emit, m1, scope, module, to, d, Some((s2, v2))),
    ensures
        grew(m1.0, s2),
        (m1.0).0.wf() ==> s2.0.wf(),
    decreases d, 5int, 1int,
{
    let (s3, v3, x3) = choose|s3: TopState, v3: Vis, x3: Option<Id>| #[trigger] picked(s3, v3, x3)
        && symbol(emit, m1.0, m1.1, scope, to, in_alias(), d, Some((s3, v3, x3)))
        && Some((s2, v2)) == Some((match (m1.2, x3) {
            (Some(f), Some(t)) => queued(s3, MethodDef::Alias { module, to: t, from: f, emit_error: emit }),
            _ => s3,
        }, v3));
    lemma_symbol_grows(emit, m1.0, m1.1, scope, to, in_alias(), d, s3, v3, x3);
    lemma_grew_refl(s3);
    match (m1.2, x3) {
        (Some(f), Some(t)) => {
            lemma_queued_grew(s3, MethodDef::Alias { module, to: t, from: f, emit_error: emit });
        },
        _ => {},
    }
    lemma_grew_trans(m1.0, s3, s2);
}

proof fn lemma_attrs_grows(emit: bool, s: TopState, v: Vis, scope: Rc<Scope>, t: AttrType, args: Seq<Rc<Node>>, d: nat,
    s2: TopState, v2: Vis)
    requires
        attrs(emit, s, v, scope, t, args, d, Some((s2, v2))),
    ensures
        grew(s, s2),
        s.0.wf() ==> s2.0.wf(),
    decreases d, 6int, args.len(),
{
    lemma_grew_refl(s);
    if args.len() > 0 {
        let (s1, v1, x1) = choose|s1: TopState, v1: Vis, x1: Option<Id>| #[trigger] picked(s1, v1, x1)
            && symbol(emit, s, v, scope, args[0], in_attribute_name(), d, Some((s1, v1, x1)))
            && attrs(emit, match x1 {
                Some(n) => {
                    let r1 = if t is Reader || t is Accessor {
                        queued(s1, MethodDef::AttrReader { module: scope.module, visi: v1.0, name: n })
                    } else {
                        s1
                    };
                    if t is Writer || t is Accessor {
                        queued(r1, MethodDef::AttrWriter { module: scope.module, visi: v1.0, name: n })
                    } else {
                        r1
                    }
                },
                None => s1,
            }, v1, scope, t, args.skip(1), d, Some((s2, v2)));
        lemma_symbol_grows(emit, s, v, scope, args[0], in_attribute_name(), d, s1, v1, x1);
        lemma_grew_refl(s1);
        let s3 = match x1 {
            Some(n) => {
                let r1 = if t is Reader || t is Accessor {
                    lemma_queued_grew(s1, MethodDef::AttrReader { module: scope.module, visi: v1.0, name: n });
                    queued(s1, MethodDef::AttrReader { module: scope.module, visi: v1.0, name: n })
                } else {
                    s1
                };
                if t is Writer || t is Accessor {
                    lemma_queued_grew(r1, MethodDef::AttrWriter { module: scope.module, visi: v1.0, name: n });
                    lemma_grew_trans(s1, r1, queued(r1, MethodDef::AttrWriter { module: scope.module, visi: v1.0, name: n }));
                    queued(r1, MethodDef::AttrWriter { module: scope.module, visi: v1.0, name: n })
                } else {
                    r1
                }
            },
            None => s1,
        };
        lemma_attrs_grows(emit, s3, v1, scope, t, args.skip(1), d, s2, v2);
        lemma_grew_trans(s, s1, s3);
        lemma_grew_trans(s, s3, s2);
    }
}

proof fn lemma_module_functions_grows(emit: bool, s: TopState, v: Vis, scope: Rc<Scope>, args: Seq<Rc<Node>>, d: nat,
    s2: TopState, v2: Vis)
    requires
        module_functions(emit, s, v, scope, args, d, Some((s2, v2))),
    ensures
        grew(s, s2),
        s.0.wf() ==> s2.0.wf(),
    decreases d, 6int, args.len(),
{
    lemma_grew_refl(s);
    if args.len() > 0 {
        let (s1, v1, x1) = choose|s1: TopState, v1: Vis, x1: Option<Id>| #[trigger] picked(s1, v1, x1)
            && symbol(emit, s, v, scope, args[0], in_method_name(), d, Some((s1, v1, x1)))
            && module_functions(emit, match x1 {
                Some(n) => queued(s1, MethodDef::ModuleFunc { module: scope.module, name: n, emit_error: emit }),
                None => s1,
            }, v1, scope, args.skip(1), d, Some((s2, v2)));
        lemma_symbol_grows(emit, s, v, scope, args[0], in_method_name(), d, s1, v1, x1);
        lemma_grew_refl(s1);
        let s3 = match x1 {
            Some(n) => {
                lemma_queued_grew(s1, MethodDef::ModuleFunc { module: scope.module, name: n, emit_error: emit });
                queued(s1, MethodDef::ModuleFunc { module: scope.module, name: n, emit_error: emit })
            },
            None => s1,
        };
        lemma_module_functions_grows(emit, s3, v1, scope, args.skip(1), d, s2, v2);
        lemma_grew_trans(s, s1, s3);
        lemma_grew_trans(s, s3, s2);
    }
}

proof fn lemma_visibilities_grows(emit: bool, s: TopState, v: Vis, scope: Rc<Scope>, visi: MethodVisibility, args: Seq<Rc<Node>>,
    d: nat, s2: TopState, v2: Vis)
    requires
        visibilities(emit, s, v, scope, visi, args, d, Some((s2, v2))),
    ensures
        grew(s, s2),
        s.0.wf() ==> s2.0.wf(),
    decreases d, 6int, args.len(),
{
    lemma_grew_refl(s);
    if args.len() > 0 {
        let (s1, v1, x1) = choose|s1: TopState, v1: Vis, x1: Option<Id>| #[trigger] picked(s1, v1, x1)
            && symbol(emit, s, v, scope, args[0], in_method_name(), d, Some((s1, v1, x1)))
            && visibilities(emit, match x1 {
                Some(n) => queued(s1, MethodDef::SetVisi { module: scope.module, visi, name: n, emit_error: emit }),
                None => s1,
            }, v1, scope, visi, args.skip(1), d, Some((s2, v2)));
        lemma_symbol_grows(emit, s, v, scope, args[0], in_method_name(), d, s1, v1, x1);
        lemma_grew_refl(s1);
        let s3 = match x1 {
            Some(n) => {
                lemma_queued_grew(s1, MethodDef::SetVisi { module: scope.module, visi, name: n, emit_error: emit });
                queued(s1, MethodDef::SetVisi { module: scope.module, visi, name: n, emit_error: emit })
            },
            None => s1,
        };
        lemma_visibilities_grows(emit, s3, v1, scope, visi, args.skip(1), d, s2, v2);
        lemma_grew_trans(s, s1, s3);
        lemma_grew_trans(s, s3, s2);
    }
}

/// A body whose walk ends in `s2` enters to `s2`, the visibility around
/// it kept.
proof fn lemma_entered(emit: bool, s: TopState, v: Vis, scope: Rc<Scope>, in_def: bool, b: Rc<Node>, d: nat, s2: TopState, v3: Vis)
    requires
        depth(*b) < d,
        walk(emit, s, (MethodVisibility::Public, false), scope, in_def, b, Some((s2, v3))),
    ensures
        enter(emit, s, v, scope, in_def, Some(b), d, Some((s2, v))),
{
    assert(reached(s2, v3));
}

/// A scope inside the graph stays inside it when a metaclass is made.
proof fn lemma_scope_kept(g0: ObjectGraph, g1: ObjectGraph, o: usize, r: usize, s: Scope)
    requires
        metaclass_done(g0, g1, o, r),
        scope_in(g0, s),
    ensures
        scope_in(g1, s),
{
    assert forall|k: int| 0 <= k < scope_modules(s).len() implies {
        &&& #[trigger] scope_modules(s)[k] < g1@.len()
        &&& !(g1@[scope_modules(s)[k] as int] is IClass)
    } by {
        let i = scope_modules(s)[k] as int;
        assert(same_but_class(g1@[i], g0@[i]));
    }
}

/// The top-level pass as it goes: what it has made so far, and whether its
/// notices are emitted.
pub struct TopLevel {
    pub graph: ObjectGraph,
    pub defs: Definitions,
    pub notes: Vec<Notice>,
    pub actions: Vec<Action>,
    pub emit: bool,
}

/// `prefix` followed by `name`.
fn prefixed(prefix: &str, name: &str) -> (r: String)
    ensures
        r@ == prefix@ + name@,
{
    let mut m = prefix.to_owned();
    push_str(&mut m, name);
    m
}

/// The nodes, if there is one, after `v`.
fn push_opt(v: &mut Vec<Rc<Node>>, o: &Option<Rc<Node>>)
    ensures
        final(v)@ == old(v)@ + opt_seq(*o),
{
    match o {
        Some(n) => {
            v.push(Rc::clone(n));
        },
        None => {},
    }
    assert(v@ =~= old(v)@ + opt_seq(*o));
}

/// The nodes `ns` after `v`.
fn push_all(v: &mut Vec<Rc<Node>>, ns: &Vec<Rc<Node>>)
    ensures
        final(v)@ == old(v)@ + ns@,
{
    let ghost start = v@;
    let mut i: usize = 0;
    while i < ns.len()
        invariant
            i <= ns@.len(),
            v@ == start + ns@.take(i as int),
        decreases ns.len() - i,
    {
        v.push(Rc::clone(&ns[i]));
        assert(ns@.take(i + 1) =~= ns@.take(i as int).push(ns@[i as int]));
        i = i + 1;
    }
    assert(ns@.take(i as int) =~= ns@);
}

/// The node alone.
fn one(n: &Rc<Node>) -> (v: Vec<Rc<Node>>)
    ensures
        v@ == seq![*n],
{
    let mut v: Vec<Rc<Node>> = Vec::new();
    v.push(Rc::clone(n));
    v
}

/// Two nodes in order.
fn two(a: &Rc<Node>, b: &Rc<Node>) -> (v: Vec<Rc<Node>>)
    ensures
        v@ == seq![*a, *b],
{
    let mut v = one(a);
    v.push(Rc::clone(b));
    v
}

/// The node, if there is one.
fn opt(o: &Option<Rc<Node>>) -> (v: Vec<Rc<Node>>)
    ensures
        v@ == opt_seq(*o),
{
    let mut v: Vec<Rc<Node>> = Vec::new();
    push_opt(&mut v, o);
    assert(v@ =~= opt_seq(*o));
    v
}

/// The children the pass walks through, in order, for a node it only
/// walks through.
fn plain_kids_of(n: &Node) -> (r: Option<Vec<Rc<Node>>>)
    ensures
        match r {
            Some(v) => plain_kids(*n) == Some(v@),
            None => plain_kids(*n) is None,
        },
{
    let e: Vec<Rc<Node>> = Vec::new();
    let r = match n {
        Node::Begin(_, s) => { let mut v = Vec::new(); push_all(&mut v, s); Some(v) },
        Node::Kwbegin(_, s) => { let mut v = Vec::new(); push_all(&mut v, s); Some(v) },
        Node::Send(_, Some(recv), _, args) => { let mut v = one(recv); push_all(&mut v, args); Some(v) },
        Node::CSend(_, recv, _, args) => { let mut v = opt(recv); push_all(&mut v, args); Some(v) },
        Node::Undef(..) => Some(e),
        Node::Block(_, send, args, body) => { let mut v = two(send, args); push_opt(&mut v, body); Some(v) },
        Node::Const(..) => Some(e),
        Node::ConstLhs(..) => Some(e),
        Node::Args(_, args) => { let mut v = Vec::new(); push_all(&mut v, args); Some(v) },
        Node::TyPrototype(_, genargs, args, retn) => { let mut v = opt(genargs); v.push(Rc::clone(args)); push_opt(&mut v, retn); Some(v) },
        Node::TyTypedArg(_, ty, arg) => Some(two(ty, arg)),
        Node::Procarg0(_, arg) => Some(one(arg)),
        Node::Arg(..) => Some(e),
        Node::Restarg(..) => Some(e),
        Node::Kwrestarg(..) => Some(e),
        Node::Blockarg(..) => Some(e),
        Node::Kwarg(..) => Some(e),
        Node::Optarg(_, _, x) => Some(one(x)),
        Node::Kwoptarg(_, _, x) => Some(one(x)),
        Node::If(_, c, t, x) => { let mut v = one(c); push_opt(&mut v, t); push_opt(&mut v, x); Some(v) },
        Node::While(_, c, b) => { let mut v = one(c); push_opt(&mut v, b); Some(v) },
        Node::Until(_, c, b) => { let mut v = one(c); push_opt(&mut v, b); Some(v) },
        Node::WhilePost(_, b, c) => Some(two(c, b)),
        Node::UntilPost(_, b, c) => Some(two(c, b)),
        Node::For(_, l, x, b) => { let mut v = two(l, x); push_opt(&mut v, b); Some(v) },
        Node::Backref(..) => Some(e),
        Node::Cvar(..) => Some(e),
        Node::Defined(..) => Some(e),
        Node::False(..) => Some(e),
        Node::FileLiteral(..) => Some(e),
        Node::Float(..) => Some(e),
        Node::Gvar(..) => Some(e),
        Node::Integer(..) => Some(e),
        Node::Ivar(..) => Some(e),
        Node::Lambda(..) => Some(e),
        Node::LineLiteral(..) => Some(e),
        Node::Lvar(..) => Some(e),
        Node::Nil(..) => Some(e),
        Node::NthRef(..) => Some(e),
        Node::Regexp(..) => Some(e),
        Node::Redo(..) => Some(e),
        Node::Retry(..) => Some(e),
        Node::Self_(..) => Some(e),
        Node::String(..) => Some(e),
        Node::Symbol(..) => Some(e),
        Node::True(..) => Some(e),
        Node::ZSuper(..) => Some(e),
        Node::Splat(_, x) => Some(opt(x)),
        Node::Kwsplat(_, x) => Some(one(x)),
        Node::Rescue(_, b, rs, x) => { let mut v = opt(b); push_all(&mut v, rs); push_opt(&mut v, x); Some(v) },
        Node::Resbody(_, c, l, b) => { let mut v = opt(c); push_opt(&mut v, l); push_opt(&mut v, b); Some(v) },
        Node::Ensure(_, b, x) => { let mut v = opt(b); v.push(Rc::clone(x)); Some(v) },
        Node::Array(_, s) => { let mut v = Vec::new(); push_all(&mut v, s); Some(v) },
        Node::Break(_, s) => { let mut v = Vec::new(); push_all(&mut v, s); Some(v) },
        Node::DString(_, s) => { let mut v = Vec::new(); push_all(&mut v, s); Some(v) },
        Node::DSymbol(_, s) => { let mut v = Vec::new(); push_all(&mut v, s); Some(v) },
        Node::Hash(_, s) => { let mut v = Vec::new(); push_all(&mut v, s); Some(v) },
        Node::Mlhs(_, s) => { let mut v = Vec::new(); push_all(&mut v, s); Some(v) },
        Node::Next(_, s) => { let mut v = Vec::new(); push_all(&mut v, s); Some(v) },
        Node::Return(_, s) => { let mut v = Vec::new(); push_all(&mut v, s); Some(v) },
        Node::Super(_, s) => { let mut v = Vec::new(); push_all(&mut v, s); Some(v) },
        Node::XString(_, s) => { let mut v = Vec::new(); push_all(&mut v, s); Some(v) },
        Node::Yield(_, s) => { let mut v = Vec::new(); push_all(&mut v, s); Some(v) },
        Node::Or(_, a, b) => Some(two(a, b)),
        Node::And(_, a, b) => Some(two(a, b)),
        Node::LvarLhs(..) => Some(e),
        Node::IvarLhs(..) => Some(e),
        Node::CvarLhs(..) => Some(e),
        Node::GvarLhs(..) => Some(e),
        Node::LvarAsgn(_, _, x) => Some(one(x)),
        Node::IvarAsgn(_, _, x) => Some(one(x)),
        Node::CvarAsgn(_, _, x) => Some(one(x)),
        Node::GvarAsgn(_, _, x) => Some(one(x)),
        Node::Pair(_, a, b) => Some(two(a, b)),
        Node::IRange(_, a, b) => Some(two(a, b)),
        Node::ERange(_, a, b) => Some(two(a, b)),
        Node::BlockPass(_, x) => Some(one(x)),
        Node::OrAsgn(_, a, b) => Some(two(a, b)),
        Node::AndAsgn(_, a, b) => Some(two(a, b)),
        Node::OpAsgn(_, a, _, b) => Some(two(a, b)),
        Node::Masgn(_, a, b) => Some(two(a, b)),
        Node::MatchAsgn(_, a, b) => Some(two(a, b)),
        Node::Case(_, c, cs, x) => { let mut v = opt(c); push_all(&mut v, cs); push_opt(&mut v, x); Some(v) },
        Node::When(_, cs, x) => { let mut v = Vec::new(); push_all(&mut v, cs); push_opt(&mut v, x); Some(v) },
        Node::TyCast(_, x, t) => Some(two(x, t)),
        Node::TyCpath(_, c) => Some(one(c)),
        Node::TyGeninst(_, c, args) => { let mut v = one(c); push_all(&mut v, args); Some(v) },
        Node::TyArray(_, t) => Some(one(t)),
        Node::TyNillable(_, t) => Some(one(t)),
        Node::TyTuple(_, ts) => { let mut v = Vec::new(); push_all(&mut v, ts); Some(v) },
        Node::TyHash(_, k, x) => Some(two(k, x)),
        Node::TyNil(..) => Some(e),
        Node::TySelf(..) => Some(e),
        Node::TyClass(..) => Some(e),
        Node::TyInstance(..) => Some(e),
        Node::TyAny(..) => Some(e),
        Node::TyGenargs(_, gs) => { let mut v = Vec::new(); push_all(&mut v, gs); Some(v) },
        Node::TyGendeclarg(_, _, c) => Some(opt(c)),
        Node::TyConUnify(_, a, b) => Some(two(a, b)),
        Node::TyConSubtype(_, a, b) => Some(two(a, b)),
        Node::TyOr(_, a, b) => Some(two(a, b)),
        Node::TyProc(_, p) => Some(one(p)),
        _ => None,
    };
    r
}

impl TopLevel {
    /// What the pass has made so far.
    pub open spec fn state(&self) -> TopState {
        (self.graph, self.defs.methods(), self.defs.ivars(), notices_view(self.notes@), self.actions@)
    }

    /// The parts of the pass that walking leaves alone.
    pub open spec fn kept(&self, before: TopLevel) -> bool {
        self.emit == before.emit && self.defs.const_refs() == before.defs.const_refs()
    }

    /// Walks `r` in `scope`, inside a method body where `in_def`, with the
    /// visibility `vis` in force.
    pub fn eval_node(&mut self, scope: &Rc<Scope>, in_def: bool, vis: &mut Vis, r: &Rc<Node>)
        requires
            !walk(old(self).emit, old(self).state(), *old(vis), *scope, in_def, *r, None),
        ensures
            final(self).kept(*old(self)),
            walk(old(self).emit, old(self).state(), *old(vis), *scope, in_def, *r, Some((final(self).state(), *final(vis)))),
        decreases depth(**r), 9int, 0int,
    {
        let ghost d = depth_of(r);
        let ghost s0 = self.state();
        let ghost v0 = *vis;
        let emit = self.emit;
        proof {
            assert(crate::object::scope_modules(**scope)[0] == scope.module);
        }
        match &**r {
            Node::Class(cl, declname, sup, body) => {
                assert(**r == Node::Class(*cl, *declname, *sup, *body));
                let empty: Vec<Rc<Node>> = Vec::new();
                let c = match &**declname {
                    Node::TyGendecl(_, nm, ps) => decl_class(&mut self.graph, scope, &**nm, ps.as_slice(), sup, emit, &mut self.notes),
                    Node::Const(..) => decl_class(&mut self.graph, scope, &**declname, empty.as_slice(), sup, emit, &mut self.notes),
                    _ => {
                        return;
                    },
                };
                let ghost s1 = self.state();
                let ghost head = head_of(declname);
                assert(class_done(s0.0, s1.0, s0.3, s1.3, **scope, head.0, head.1, *sup, emit, c));
                match c {
                    Some(m) => {
                        let sp = Rc::new(Scope { parent: Some(Rc::clone(scope)), module: m });
                        assert(sp == spawned(*scope, m));
                        self.enter_body(&sp, in_def, vis, body, Ghost(d));
                    },
                    None => {},
                }
                assert(opened(emit, s1, v0, *scope, in_def, c, *body, d, Some((self.state(), *vis))));
            },
            Node::Module(ml, name, body) => {
                assert(**r == Node::Module(*ml, *name, *body));
                let c = decl_module(&mut self.graph, scope, &**name, emit, &mut self.notes);
                let ghost s1 = self.state();
                assert(module_done(s0.0, s1.0, s0.3, s1.3, **scope, **name, emit, c));
                match c {
                    Some(m) => {
                        let sp = Rc::new(Scope { parent: Some(Rc::clone(scope)), module: m });
                        assert(sp == spawned(*scope, m));
                        self.enter_body(&sp, in_def, vis, body, Ghost(d));
                    },
                    None => {},
                }
                assert(opened(emit, s1, v0, *scope, in_def, c, *body, d, Some((self.state(), *vis))));
            },
            Node::SClass(sl, expr, body) => {
                assert(**r == Node::SClass(*sl, *expr, *body));
                if in_def {
                    let mut ks = one(expr);
                    push_opt(&mut ks, body);
                    assert(ks@.skip(0) =~= ks@);
                    self.eval_list(scope, in_def, vis, &ks, 0, Ghost(d));
                } else {
                    match resolve_static(&self.graph, scope, &**expr) {
                        Ok(o) => {
                            let m = self.graph.metaclass(o);
                            let ghost s1 = self.state();
                            assert(metaclass_done(s0.0, s1.0, o, m));
                            let sp = Rc::new(Scope { parent: Some(Rc::clone(scope)), module: m });
                            assert(sp == spawned(*scope, m));
                            assert(self.state() == regraphed(s0, s1.0));
                            self.enter_body(&sp, in_def, vis, body, Ghost(d));
                        },
                        Err((l, msg)) => {
                            notice1(&mut self.notes, emit, Severity::Warning, "Could not statically resolve singleton expression", msg, &l);
                        },
                    }
                }
            },
            Node::Def(dl, id, proto, body) => {
                assert(**r == Node::Def(*dl, *id, *proto, *body));
                if in_def {
                    self.def_tail(scope, in_def, vis, proto, body, Ghost(d));
                } else {
                    self.eval_opt(scope, in_def, vis, proto, Ghost(d));
                    let ghost m = (self.state(), *vis);
                    assert(reached(m.0, m.1));
                    self.defs.add_method(MethodDef::Def {
                        module: scope.module, visi: vis.0, name: id.clone(), node: Rc::clone(r), scope: Rc::clone(scope) });
                    let ghost s2 = self.state();
                    if vis.1 {
                        let meta = self.graph.metaclass(scope.module);
                        let ghost s3 = self.state();
                        assert(metaclass_done(s2.0, s3.0, scope.module, meta));
                        self.defs.add_method(MethodDef::Def {
                            module: meta, visi: MethodVisibility::Public, name: id.clone(), node: Rc::clone(r), scope: Rc::clone(scope) });
                    }
                    self.enter_body(scope, true, vis, body, Ghost(d));
                    assert(def_decl(emit, m.0, m.1, *scope, *r, *id, *body, d, Some((self.state(), *vis))));
                }
            },
            Node::Defs(dl, singleton, id, proto, body) => {
                assert(**r == Node::Defs(*dl, *singleton, *id, *proto, *body));
                if in_def {
                    let ks = one(singleton);
                    assert(ks@.skip(0) =~= ks@);
                    self.eval_list(scope, in_def, vis, &ks, 0, Ghost(d));
                    assert(reached(self.state(), *vis));
                    self.def_tail(scope, in_def, vis, proto, body, Ghost(d));
                } else {
                    match resolve_static(&self.graph, scope, &**singleton) {
                        Ok(o) => {
                            let m = self.graph.metaclass(o);
                            let ghost s1 = self.state();
                            assert(metaclass_done(s0.0, s1.0, o, m));
                            self.defs.add_method(MethodDef::Def {
                                module: m, visi: MethodVisibility::Public, name: id.clone(), node: Rc::clone(r), scope: Rc::clone(scope) });
                        },
                        Err((l, msg)) => {
                            notice1(&mut self.notes, emit, Severity::Warning, msg, "here", &l);
                        },
                    }
                    self.def_tail(scope, in_def, vis, proto, body, Ghost(d));
                }
            },
            Node::Send(sl, None, id, args) => {
                assert(**r == Node::Send(*sl, None, *id, *args));
                if in_def {
                    assert(args@.skip(0) =~= args@);
                    self.eval_list(scope, in_def, vis, args, 0, Ghost(d));
                } else {
                    self.self_send(scope, vis, id, args, Ghost(d));
                }
            },
            Node::ConstAsgn(cl, base, id, expr) => {
                assert(**r == Node::ConstAsgn(*cl, *base, *id, *expr));
                if in_def {
                    let mut ks = opt(base);
                    ks.push(Rc::clone(expr));
                    assert(ks@ =~= opt_seq(*base) + seq![*expr]);
                    assert(ks@.skip(0) =~= ks@);
                    self.eval_list(scope, in_def, vis, &ks, 0, Ghost(d));
                } else {
                    decl_constant(&mut self.graph, scope, base, id, &**expr, emit, &mut self.notes);
                    assert(constant_done(s0.0, self.state().0, s0.3, self.state().3, *scope, *base, *id, **expr, emit));
                }
            },
            Node::Alias(al, to, from) => {
                assert(**r == Node::Alias(*al, *to, *from));
                if !in_def {
                    self.alias(scope, vis, scope.module, from, to, Ghost(d));
                }
            },
            Node::TyIvardecl(l, ivar, tn) => {
                assert(**r == Node::TyIvardecl(*l, *ivar, *tn));
                if in_def {
                    notice1(&mut self.notes, emit, Severity::Error, "Invalid instance variable type declaration", "here", l);
                } else {
                    self.defs.add_ivar(IvarDef { module: scope.module, name: ivar.clone(), type_node: Rc::clone(tn), scope: Rc::clone(scope) });
                }
            },
            _ => {
                match plain_kids_of(&**r) {
                    Some(ks) => {
                        assert(ks@.skip(0) =~= ks@);
                        self.eval_list(scope, in_def, vis, &ks, 0, Ghost(d));
                    },
                    None => {},
                }
            },
        }
    }

    /// Walks `ks` from the one at `i` on, in turn.
    fn eval_list(&mut self, scope: &Rc<Scope>, in_def: bool, vis: &mut Vis, ks: &Vec<Rc<Node>>, i: usize, Ghost(d): Ghost<nat>)
        requires
            i <= ks@.len(),
            !walk_list(old(self).emit, old(self).state(), *old(vis), *scope, in_def, ks@.skip(i as int), d, None),
        ensures
            final(self).kept(*old(self)),
            walk_list(old(self).emit, old(self).state(), *old(vis), *scope, in_def, ks@.skip(i as int), d,
                Some((final(self).state(), *final(vis)))),
        decreases d, 1int, ks@.len() - i,
    {
        if i == ks.len() {
            assert(ks@.skip(i as int) =~= Seq::<Rc<Node>>::empty());
            return;
        }
        let ghost rest = ks@.skip(i as int);
        assert(rest[0] == ks@[i as int]);
        assert(rest.skip(1) =~= ks@.skip(i + 1));
        self.eval_node(scope, in_def, vis, &ks[i]);
        let ghost m = (self.state(), *vis);
        assert(reached(m.0, m.1));
        self.eval_list(scope, in_def, vis, ks, i + 1, Ghost(d));
        assert(walk(self.emit, old(self).state(), *old(vis), *scope, in_def, rest[0], Some(m)));
    }

    /// Walks the node, if there is one.
    fn eval_opt(&mut self, scope: &Rc<Scope>, in_def: bool, vis: &mut Vis, o: &Option<Rc<Node>>, Ghost(d): Ghost<nat>)
        requires
            !walk_opt(old(self).emit, old(self).state(), *old(vis), *scope, in_def, *o, d, None),
        ensures
            final(self).kept(*old(self)),
            walk_opt(old(self).emit, old(self).state(), *old(vis), *scope, in_def, *o, d, Some((final(self).state(), *final(vis)))),
        decreases d, 1int, 0int,
    {
        match o {
            Some(n) => self.eval_node(scope, in_def, vis, n),
            None => {},
        }
    }

    /// Walks a body afresh, keeping the visibility around it.
    fn enter_body(&mut self, scope: &Rc<Scope>, in_def: bool, vis: &mut Vis, body: &Option<Rc<Node>>, Ghost(d): Ghost<nat>)
        requires
            !enter(old(self).emit, old(self).state(), *old(vis), *scope, in_def, *body, d, None),
        ensures
            final(self).kept(*old(self)),
            enter(old(self).emit, old(self).state(), *old(vis), *scope, in_def, *body, d, Some((final(self).state(), *final(vis)))),
        decreases d, 2int, 0int,
    {
        match body {
            Some(b) => {
                let mut inner: Vis = (MethodVisibility::Public, false);
                self.eval_node(scope, in_def, &mut inner, b);
                proof {
                    lemma_entered(self.emit, old(self).state(), *old(vis), *scope, in_def, *b, d, self.state(), inner);
                }
            },
            None => {},
        }
    }

    /// The prototype of a method, then its body as a method body.
    fn def_tail(&mut self, scope: &Rc<Scope>, in_def: bool, vis: &mut Vis, proto: &Option<Rc<Node>>, body: &Option<Rc<Node>>,
        Ghost(d): Ghost<nat>)
        requires
            !def_tail(old(self).emit, old(self).state(), *old(vis), *scope, in_def, *proto, *body, d, None),
        ensures
            final(self).kept(*old(self)),
            def_tail(old(self).emit, old(self).state(), *old(vis), *scope, in_def, *proto, *body, d, Some((final(self).state(), *final(vis)))),
        decreases d, 3int, 0int,
    {
        self.eval_opt(scope, in_def, vis, proto, Ghost(d));
        let ghost m = (self.state(), *vis);
        assert(reached(m.0, m.1));
        self.enter_body(scope, true, vis, body, Ghost(d));
        assert(walk_opt(self.emit, old(self).state(), *old(vis), *scope, in_def, *proto, d, Some(m)));
    }
}

impl TopLevel {
    /// A call on `self` outside a method body.
    fn self_send(&mut self, scope: &Rc<Scope>, vis: &mut Vis, id: &Id, args: &Vec<Rc<Node>>, Ghost(d): Ghost<nat>)
        requires
            old(self).state().0.wf(),
            scope_in(old(self).state().0, **scope),
            !self_send(old(self).emit, old(self).state(), *old(vis), *scope, *id, args@, d, None),
        ensures
            final(self).kept(*old(self)),
            self_send(old(self).emit, old(self).state(), *old(vis), *scope, *id, args@, d, Some((final(self).state(), *final(vis)))),
        decreases d, 8int, 0int,
    {
        let emit = self.emit;
        let name = id.1.as_str();
        proof {
            assert(crate::object::scope_modules(**scope)[0] == scope.module);
        }
        if str_eq(name, "include") {
            self.inclusion(scope, vis, id, scope.module, args, Ghost(d));
        } else if str_eq(name, "extend") {
            let ghost s0 = self.state();
            let m = self.graph.metaclass(scope.module);
            assert(metaclass_done(s0.0, self.state().0, scope.module, m));
            proof {
                let ghost sc: Scope = **scope;
                lemma_scope_kept(s0.0, self.state().0, scope.module, m, sc);
            }
            self.inclusion(scope, vis, id, m, args, Ghost(d));
        } else if str_eq(name, "require") || str_eq(name, "require_dependency") {
            self.require(id, args, false);
        } else if str_eq(name, "require_relative") {
            self.require(id, args, true);
        } else if str_eq(name, "alias_method") {
            if args.len() != 2 {
                let msg = prefixed("Wrong number of arguments to ", name);
                notice1(&mut self.notes, emit, Severity::Error, msg.as_str(), "here", &id.0);
            } else {
                self.alias(scope, vis, scope.module, &args[1], &args[0], Ghost(d));
            }
        } else if str_eq(name, "attr_reader") {
            assert(args@.skip(0) =~= args@);
            self.attrs(scope, vis, AttrType::Reader, args, 0, Ghost(d));
        } else if str_eq(name, "attr_writer") {
            assert(args@.skip(0) =~= args@);
            self.attrs(scope, vis, AttrType::Writer, args, 0, Ghost(d));
        } else if str_eq(name, "attr_accessor") {
            assert(args@.skip(0) =~= args@);
            self.attrs(scope, vis, AttrType::Accessor, args, 0, Ghost(d));
        } else if str_eq(name, "module_function") {
            if args.len() == 0 {
                *vis = (MethodVisibility::Private, true);
            } else {
                assert(args@.skip(0) =~= args@);
                self.module_functions(scope, vis, args, 0, Ghost(d));
            }
        } else if str_eq(name, "public") || str_eq(name, "private") || str_eq(name, "protected") {
            let visi = if str_eq(name, "public") {
                MethodVisibility::Public
            } else if str_eq(name, "private") {
                MethodVisibility::Private
            } else {
                MethodVisibility::Protected
            };
            if args.len() == 0 {
                *vis = (visi, vis.1);
            } else {
                assert(args@.skip(0) =~= args@);
                self.visibilities(scope, vis, visi, args, 0, Ghost(d));
            }
        }
    }

    /// `include` or `extend` of the modules `args` into `target`.
    fn inclusion(&mut self, scope: &Rc<Scope>, vis: &mut Vis, id: &Id, target: usize, args: &Vec<Rc<Node>>, Ghost(d): Ghost<nat>)
        requires
            !inclusion(old(self).emit, old(self).state(), *old(vis), *scope, *id, target, args@, d, None),
            old(self).state().0.wf(),
            scope_in(old(self).state().0, **scope),
        ensures
            final(self).kept(*old(self)),
            inclusion(old(self).emit, old(self).state(), *old(vis), *scope, *id, target, args@, d, Some((final(self).state(), *final(vis)))),
        decreases d, 7int, 0int,
    {
        if args.len() == 0 {
            let msg = prefixed("Wrong number of arguments to ", id.1.as_str());
            notice1(&mut self.notes, self.emit, Severity::Error, msg.as_str(), "here", &id.0);
        } else {
            assert(args@.skip(0) =~= args@);
            self.includes(scope, vis, id, target, args, 0, Ghost(d));
        }
    }

    /// Each module of `args` from `i` on included into `target`.
    fn includes(&mut self, scope: &Rc<Scope>, vis: &mut Vis, id: &Id, target: usize, args: &Vec<Rc<Node>>, i: usize,
        Ghost(d): Ghost<nat>)
        requires
            i <= args@.len(),
            !includes(old(self).emit, old(self).state(), *old(vis), *scope, *id, target, args@.skip(i as int), d, None),
        ensures
            final(self).kept(*old(self)),
            includes(old(self).emit, old(self).state(), *old(vis), *scope, *id, target, args@.skip(i as int), d,
                Some((final(self).state(), *final(vis)))),
        decreases d, 6int, args@.len() - i,
    {
        let ghost s0 = self.state();
        if i == args.len() {
            assert(args@.skip(i as int) =~= Seq::<Rc<Node>>::empty());
            return;
        }
        let emit = self.emit;
        let ghost rest = args@.skip(i as int);
        assert(rest[0] == args@[i as int]);
        assert(rest.skip(1) =~= args@.skip(i + 1));
        let a = &args[i];
        match resolve_static(&self.graph, scope, &**a) {
            Ok(o) => {
                let tps: Vec<TypeNodeRef> = Vec::new();
                let ghost tv = tps;
                let res = self.graph.include_module(target, o, tps, a.loc().clone());
                let ghost g1 = self.graph;
                assert(include_done(s0.0, g1, target, o, tv, (**a).spec_loc(), res));
                if res.is_err() {
                    notice1(&mut self.notes, emit, Severity::Error, "Cyclic include", "here", a.loc());
                }
            },
            Err((l, msg)) => {
                let m = prefixed("Could not statically resolve module reference in ", id.1.as_str());
                notice1(&mut self.notes, emit, Severity::Warning, m.as_str(), msg, &l);
            },
        }
        self.includes(scope, vis, id, target, args, i + 1, Ghost(d));
    }

    /// `require` with the arguments `args`.
    fn require(&mut self, id: &Id, args: &Vec<Rc<Node>>, relative: bool)
        ensures
            final(self).kept(*old(self)),
            final(self).state() == required(old(self).emit, old(self).state(), *id, args@, relative),
    {
        let emit = self.emit;
        if args.len() == 0 {
            let msg = prefixed("Missing argument to ", id.1.as_str());
            notice1(&mut self.notes, emit, Severity::Error, msg.as_str(), "here", &id.0);
        } else if args.len() > 1 {
            let msg = prefixed("Too many arguments to ", id.1.as_str());
            notice1(&mut self.notes, emit, Severity::Error, msg.as_str(), "from here", args[1].loc());
        } else {
            match &*args[0] {
                Node::String(l, p) => {
                    self.actions.push(Action::Require { path: p.clone(), relative, loc: l.clone() });
                },
                _ => {
                    notice1(&mut self.notes, emit, Severity::Warning, "Could not resolve dynamic path in require", "here", args[0].loc());
                },
            }
        }
    }

    /// What `r` names as a symbol.
    fn symbol_name(&mut self, scope: &Rc<Scope>, vis: &mut Vis, r: &Rc<Node>, msg: &str, Ghost(d): Ghost<nat>) -> (x: Option<Id>)
        requires
            !symbol(old(self).emit, old(self).state(), *old(vis), *scope, *r, msg@, d, None),
        ensures
            final(self).kept(*old(self)),
            symbol(old(self).emit, old(self).state(), *old(vis), *scope, *r, msg@, d, Some((final(self).state(), *final(vis), x))),
        decreases d, 5int, 0int,
    {
        match &**r {
            Node::Symbol(l, name) => Some(Id(l.clone(), name.clone())),
            Node::Def(dl, id, p, b) => {
                assert(**r == Node::Def(*dl, *id, *p, *b));
                self.eval_node(scope, false, vis, r);
                Some(id.clone())
            },
            Node::Defs(dl, sg, id, p, b) => {
                assert(**r == Node::Defs(*dl, *sg, *id, *p, *b));
                self.eval_node(scope, false, vis, r);
                Some(id.clone())
            },
            _ => {
                let m = prefixed("Dynamic symbol ", msg);
                notice1(&mut self.notes, self.emit, Severity::Warning, m.as_str(), "here", r.loc());
                None
            },
        }
    }

    /// An alias from what `from` names to what `to` names, on `module`.
    fn alias(&mut self, scope: &Rc<Scope>, vis: &mut Vis, module: usize, from: &Rc<Node>, to: &Rc<Node>, Ghost(d): Ghost<nat>)
        requires
            !aliased(old(self).emit, old(self).state(), *old(vis), *scope, module, *from, *to, d, None),
        ensures
            final(self).kept(*old(self)),
            aliased(old(self).emit, old(self).state(), *old(vis), *scope, module, *from, *to, d, Some((final(self).state(), *final(vis)))),
        decreases d, 6int, 0int,
    {
        let ghost s0 = self.state();
        let ghost v0 = *vis;
        let f = self.symbol_name(scope, vis, from, "in alias", Ghost(d));
        let ghost m1 = (self.state(), *vis, f);
        assert(picked(m1.0, m1.1, m1.2));
        assert(!alias_to(self.emit, m1, *scope, module, *to, d, None));
        let t = self.symbol_name(scope, vis, to, "in alias", Ghost(d));
        let ghost m2 = (self.state(), *vis, t);
        assert(picked(m2.0, m2.1, m2.2));
        match (f, t) {
            (Some(f), Some(t)) => {
                self.defs.add_method(MethodDef::Alias { module, to: t, from: f, emit_error: self.emit });
            },
            _ => {},
        }
        assert(alias_to(self.emit, m1, *scope, module, *to, d, Some((self.state(), *vis))));
    }

    /// The accessors declared for the names of `args` from `i` on.
    fn attrs(&mut self, scope: &Rc<Scope>, vis: &mut Vis, t: AttrType, args: &Vec<Rc<Node>>, i: usize, Ghost(d): Ghost<nat>)
        requires
            i <= args@.len(),
            !attrs(old(self).emit, old(self).state(), *old(vis), *scope, t, args@.skip(i as int), d, None),
        ensures
            final(self).kept(*old(self)),
            attrs(old(self).emit, old(self).state(), *old(vis), *scope, t, args@.skip(i as int), d, Some((final(self).state(), *final(vis)))),
        decreases d, 6int, args@.len() - i,
    {
        if i == args.len() {
            assert(args@.skip(i as int) =~= Seq::<Rc<Node>>::empty());
            return;
        }
        let ghost rest = args@.skip(i as int);
        assert(rest[0] == args@[i as int]);
        assert(rest.skip(1) =~= args@.skip(i + 1));
        let x = self.symbol_name(scope, vis, &args[i], "in attribute name", Ghost(d));
        let ghost m = (self.state(), *vis, x);
        assert(picked(m.0, m.1, m.2));
        match x {
            Some(n) => {
                if t.reader() {
                    self.defs.add_method(MethodDef::AttrReader { module: scope.module, visi: vis.0, name: n.clone() });
                }
                if t.writer() {
                    self.defs.add_method(MethodDef::AttrWriter { module: scope.module, visi: vis.0, name: n });
                }
            },
            None => {},
        }
        self.attrs(scope, vis, t, args, i + 1, Ghost(d));
        assert(symbol(self.emit, old(self).state(), *old(vis), *scope, rest[0], in_attribute_name(), d, Some((m.0, m.1, m.2))));
    }

    /// The names of `args` from `i` on queued as module functions.
    fn module_functions(&mut self, scope: &Rc<Scope>, vis: &mut Vis, args: &Vec<Rc<Node>>, i: usize, Ghost(d): Ghost<nat>)
        requires
            i <= args@.len(),
            !module_functions(old(self).emit, old(self).state(), *old(vis), *scope, args@.skip(i as int), d, None),
        ensures
            final(self).kept(*old(self)),
            module_functions(old(self).emit, old(self).state(), *old(vis), *scope, args@.skip(i as int), d,
                Some((final(self).state(), *final(vis)))),
        decreases d, 6int, args@.len() - i,
    {
        if i == args.len() {
            assert(args@.skip(i as int) =~= Seq::<Rc<Node>>::empty());
            return;
        }
        let ghost rest = args@.skip(i as int);
        assert(rest[0] == args@[i as int]);
        assert(rest.skip(1) =~= args@.skip(i + 1));
        let x = self.symbol_name(scope, vis, &args[i], "in method name", Ghost(d));
        let ghost m = (self.state(), *vis, x);
        assert(picked(m.0, m.1, m.2));
        match x {
            Some(n) => {
                self.defs.add_method(MethodDef::ModuleFunc { module: scope.module, name: n, emit_error: self.emit });
            },
            None => {},
        }
        self.module_functions(scope, vis, args, i + 1, Ghost(d));
        assert(symbol(self.emit, old(self).state(), *old(vis), *scope, rest[0], in_method_name(), d, Some((m.0, m.1, m.2))));
    }

    /// The names of `args` from `i` on queued with the visibility `visi`.
    fn visibilities(&mut self, scope: &Rc<Scope>, vis: &mut Vis, visi: MethodVisibility, args: &Vec<Rc<Node>>, i: usize,
        Ghost(d): Ghost<nat>)
        requires
            i <= args@.len(),
            !visibilities(old(self).emit, old(self).state(), *old(vis), *scope, visi, args@.skip(i as int), d, None),
        ensures
            final(self).kept(*old(self)),
            visibilities(old(self).emit, old(self).state(), *old(vis), *scope, visi, args@.skip(i as int), d,
                Some((final(self).state(), *final(vis)))),
        decreases d, 6int, args@.len() - i,
    {
        if i == args.len() {
            assert(args@.skip(i as int) =~= Seq::<Rc<Node>>::empty());
            return;
        }
        let ghost rest = args@.skip(i as int);
        assert(rest[0] == args@[i as int]);
        assert(rest.skip(1) =~= args@.skip(i + 1));
        let x = self.symbol_name(scope, vis, &args[i], "in method name", Ghost(d));
        let ghost m = (self.state(), *vis, x);
        assert(picked(m.0, m.1, m.2));
        match x {
            Some(n) => {
                self.defs.add_method(MethodDef::SetVisi { module: scope.module, visi, name: n, emit_error: self.emit });
            },
            None => {},
        }
        self.visibilities(scope, vis, visi, args, i + 1, Ghost(d));
        assert(symbol(self.emit, old(self).state(), *old(vis), *scope, rest[0], in_method_name(), d, Some((m.0, m.1, m.2))));
    }
}

/// Whether the pass emits its notices for a file: only for a file that
/// says it is typed, and only where errors in it are not ignored.
pub open spec fn emits(file: &SourceFile, ignored: bool) -> bool {
    typed_header(file.source@, 0) && !ignored
}

/// The root scope of a file: the body of `Object`.
pub open spec fn root_scope(g: ObjectGraph) -> Rc<Scope> {
    Rc::new(Scope { parent: None, module: g.object_index() })
}

/// Runs the top-level pass over the tree of a file, from its root scope
/// and outside any method body; its notices are emitted where the file is
/// typed and errors in it are not ignored.
pub fn evaluate(t: &mut TopLevel, node: &Rc<Node>, ignored: bool)
    requires
        !walk(emits(&*node.spec_loc().file, ignored), old(t).state(), (MethodVisibility::Public, false),
            root_scope(old(t).graph), false, *node, None),
    ensures
        final(t).emit == emits(&*node.spec_loc().file, ignored),
        final(t).defs.const_refs() == old(t).defs.const_refs(),
        exists|v: Vis| walk(emits(&*node.spec_loc().file, ignored), old(t).state(), (MethodVisibility::Public, false),
            root_scope(old(t).graph), false, *node, Some((final(t).state(), v))),
{
    let file = Rc::clone(&node.loc().file);
    let typed = match source_type_for_file(&*file) {
        SourceType::TypedRuby => true,
        SourceType::Ruby => false,
    };
    t.emit = typed && !ignored;
    let scope = Rc::new(Scope { parent: None, module: t.graph.object_class() });
    let mut vis: Vis = (MethodVisibility::Public, false);
    t.eval_node(&scope, false, &mut vis, node);
}

} // verus!
