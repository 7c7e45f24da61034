//! Stripping type annotations out of Ruby source: the byte ranges that
//! hold annotations, widened over the whitespace around them, and the text
//! that remains when they are cut out.

use std::rc::Rc;
use vstd::prelude::*;
use crate::ast::{children, is_type_node, opt_nodes, Ast, Diagnostic, Level, Loc, Node, SourceFile};
use vstd::string::StringSliceAdditionalSpecFns;
use crate::text::push_bytes;

verus! {

broadcast use vstd::string::group_string_axioms;

/// A range of byte offsets, from the first byte to one past the last.
#[derive(Debug)]
pub struct ByteRange(pub usize, pub usize);

/// Why a file could not be stripped.
#[derive(Debug)]
pub enum StripError {
    /// The parser reported errors.
    Syntax(Vec<Diagnostic>),
}

/// Concatenates two lists of ranges when both exist.
pub open spec fn cat(a: Option<Seq<ByteRange>>, b: Option<Seq<ByteRange>>) -> Option<Seq<ByteRange>> {
    match (a, b) {
        (Some(x), Some(y)) => Some(x + y),
        _ => None,
    }
}

/// The parts of `enclosing` that lie outside `inner`, before and after it;
/// none when `inner` does not lie inside `enclosing`.
pub open spec fn around(enclosing: Loc, inner: Loc) -> Option<Seq<ByteRange>> {
    if enclosing.begin_pos <= inner.begin_pos && enclosing.end_pos >= inner.end_pos {
        Some(
            (if enclosing.begin_pos < inner.begin_pos { seq![ByteRange(enclosing.begin_pos, inner.begin_pos)] } else { seq![] })
            + (if inner.end_pos < enclosing.end_pos { seq![ByteRange(inner.end_pos, enclosing.end_pos)] } else { seq![] }),
        )
    } else {
        None
    }
}

/// The whole range of an optional node.
pub open spec fn removed_opt(n: Option<Rc<Node>>) -> Option<Seq<ByteRange>> {
    match n {
        Some(x) => Some(seq![ByteRange(x.spec_loc().begin_pos, x.spec_loc().end_pos)]),
        None => Some(seq![]),
    }
}

/// Whether an argument is a block argument without a name, possibly typed.
pub open spec fn is_anonymous_block(n: Rc<Node>) -> bool
    decreases n,
{
    match *n {
        Node::TyTypedArg(_, _, arg) => is_anonymous_block(arg),
        Node::Blockarg(_, id) => id is None,
        _ => false,
    }
}

/// The ranges of the annotations in `n`, in the order of a walk of the tree:
/// type names, type parameter declarations and instance variable
/// declarations go whole; typed arguments, casts, generic declarations and
/// instantiations keep their inner part; an anonymous block argument goes
/// with the comma before it. None when the walk meets a type node outside
/// those places, or an annotation that does not enclose what it keeps.
pub open spec fn stripped(n: Rc<Node>) -> Option<Seq<ByteRange>>
    decreases n,
{
    match *n {
        Node::Alias(_, f0, f1) => cat(stripped(f0), stripped(f1)),
        Node::And(_, f0, f1) => cat(stripped(f0), stripped(f1)),
        Node::AndAsgn(_, f0, f1) => cat(stripped(f0), stripped(f1)),
        Node::Arg(..) => Some(seq![]),
        Node::Args(loc, nodes) => if nodes@.len() > 0 && is_anonymous_block(nodes@.last()) {
            if nodes@.len() == 1 {
                Some(seq![ByteRange(loc.begin_pos, loc.end_pos)])
            } else {
                cat(Some(seq![ByteRange(nodes@[nodes@.len() - 2].spec_loc().end_pos, nodes@.last().spec_loc().end_pos)]),
                    stripped_list(nodes@.drop_last()))
            }
        } else {
            stripped_list(nodes@)
        },
        Node::Array(_, f0) => stripped_list(f0@),
        Node::Backref(..) => Some(seq![]),
        Node::Begin(_, f0) => stripped_list(f0@),
        Node::Block(_, f0, f1, f2) => cat(cat(stripped(f0), stripped(f1)), stripped_opt(f2)),
        Node::Blockarg(..) => Some(seq![]),
        Node::BlockPass(_, f0) => stripped(f0),
        Node::Break(_, f0) => stripped_list(f0@),
        Node::Case(_, f0, f1, f2) => cat(cat(stripped_opt(f0), stripped_list(f1@)), stripped_opt(f2)),
        Node::Cbase(..) => Some(seq![]),
        Node::Class(_, f0, f1, f2) => cat(cat(stripped(f0), stripped_opt(f1)), stripped_opt(f2)),
        Node::Complex(..) => Some(seq![]),
        Node::Const(_, f0, _) => stripped_opt(f0),
        Node::ConstAsgn(_, f0, _, f2) => cat(stripped_opt(f0), stripped(f2)),
        Node::ConstLhs(_, f0, _) => stripped_opt(f0),
        Node::CSend(_, f0, _, f2) => cat(stripped_opt(f0), stripped_list(f2@)),
        Node::Cvar(..) => Some(seq![]),
        Node::CvarAsgn(_, _, f1) => stripped(f1),
        Node::CvarLhs(..) => Some(seq![]),
        Node::Def(_, _, f1, f2) => cat(stripped_opt(f1), stripped_opt(f2)),
        Node::Defined(_, f0) => stripped(f0),
        Node::Defs(_, f0, _, f2, f3) => cat(cat(stripped(f0), stripped_opt(f2)), stripped_opt(f3)),
        Node::DString(_, f0) => stripped_list(f0@),
        Node::DSymbol(_, f0) => stripped_list(f0@),
        Node::EFlipflop(_, f0, f1) => cat(stripped(f0), stripped(f1)),
        Node::EncodingLiteral(..) => Some(seq![]),
        Node::Ensure(_, f0, f1) => cat(stripped_opt(f0), stripped(f1)),
        Node::ERange(_, f0, f1) => cat(stripped(f0), stripped(f1)),
        Node::False(..) => Some(seq![]),
        Node::FileLiteral(..) => Some(seq![]),
        Node::Float(..) => Some(seq![]),
        Node::For(_, f0, f1, f2) => cat(cat(stripped(f0), stripped(f1)), stripped_opt(f2)),
        Node::Gvar(..) => Some(seq![]),
        Node::GvarAsgn(_, _, f1) => stripped(f1),
        Node::GvarLhs(..) => Some(seq![]),
        Node::Hash(_, f0) => stripped_list(f0@),
        Node::Ident(..) => Some(seq![]),
        Node::If(_, f0, f1, f2) => cat(cat(stripped(f0), stripped_opt(f1)), stripped_opt(f2)),
        Node::IFlipflop(_, f0, f1) => cat(stripped(f0), stripped(f1)),
        Node::Integer(..) => Some(seq![]),
        Node::IRange(_, f0, f1) => cat(stripped(f0), stripped(f1)),
        Node::Ivar(..) => Some(seq![]),
        Node::IvarAsgn(_, _, f1) => stripped(f1),
        Node::IvarLhs(..) => Some(seq![]),
        Node::Kwarg(..) => Some(seq![]),
        Node::Kwbegin(_, f0) => stripped_list(f0@),
        Node::Kwoptarg(_, _, f1) => stripped(f1),
        Node::Kwrestarg(..) => Some(seq![]),
        Node::Kwsplat(_, f0) => stripped(f0),
        Node::Lambda(..) => Some(seq![]),
        Node::LineLiteral(..) => Some(seq![]),
        Node::Lvar(..) => Some(seq![]),
        Node::LvarAsgn(_, _, f1) => stripped(f1),
        Node::LvarLhs(..) => Some(seq![]),
        Node::Masgn(_, f0, f1) => cat(stripped(f0), stripped(f1)),
        Node::MatchAsgn(_, f0, f1) => cat(stripped(f0), stripped(f1)),
        Node::MatchCurLine(_, f0) => stripped(f0),
        Node::Mlhs(_, f0) => stripped_list(f0@),
        Node::Module(_, f0, f1) => cat(stripped(f0), stripped_opt(f1)),
        Node::Next(_, f0) => stripped_list(f0@),
        Node::Nil(..) => Some(seq![]),
        Node::NthRef(..) => Some(seq![]),
        Node::OpAsgn(_, f0, _, f2) => cat(stripped(f0), stripped(f2)),
        Node::Optarg(_, _, f1) => stripped(f1),
        Node::Or(_, f0, f1) => cat(stripped(f0), stripped(f1)),
        Node::OrAsgn(_, f0, f1) => cat(stripped(f0), stripped(f1)),
        Node::Pair(_, f0, f1) => cat(stripped(f0), stripped(f1)),
        Node::Postexe(_, f0) => stripped_opt(f0),
        Node::Preexe(_, f0) => stripped_opt(f0),
        Node::Procarg0(_, f0) => stripped(f0),
        Node::Rational(..) => Some(seq![]),
        Node::Redo(..) => Some(seq![]),
        Node::Regexp(_, f0, _) => stripped_list(f0@),
        Node::Regopt(..) => Some(seq![]),
        Node::Resbody(_, f0, f1, f2) => cat(cat(stripped_opt(f0), stripped_opt(f1)), stripped_opt(f2)),
        Node::Rescue(_, f0, f1, f2) => cat(cat(stripped_opt(f0), stripped_list(f1@)), stripped_opt(f2)),
        Node::Restarg(..) => Some(seq![]),
        Node::Retry(..) => Some(seq![]),
        Node::Return(_, f0) => stripped_list(f0@),
        Node::SClass(_, f0, f1) => cat(stripped(f0), stripped_opt(f1)),
        Node::Self_(..) => Some(seq![]),
        Node::Send(_, f0, _, f2) => cat(stripped_opt(f0), stripped_list(f2@)),
        Node::ShadowArg(..) => Some(seq![]),
        Node::Splat(_, f0) => stripped_opt(f0),
        Node::SplatLhs(_, f0) => stripped_opt(f0),
        Node::String(..) => Some(seq![]),
        Node::Super(_, f0) => stripped_list(f0@),
        Node::Symbol(..) => Some(seq![]),
        Node::True(..) => Some(seq![]),
        Node::TyAny(..) => None,
        Node::TyArray(..) => None,
        Node::TyCast(loc, inner, _) => around(loc, inner.spec_loc()),
        Node::TyClass(..) => None,
        Node::TyConSubtype(..) => None,
        Node::TyConUnify(..) => None,
        Node::TyConstInstance(loc, inner, _) => around(loc, inner.spec_loc()),
        Node::TyCpath(loc, ..) => Some(seq![ByteRange(loc.begin_pos, loc.end_pos)]),
        Node::TyGenargs(loc, ..) => Some(seq![ByteRange(loc.begin_pos, loc.end_pos)]),
        Node::TyGendecl(loc, inner, _) => around(loc, inner.spec_loc()),
        Node::TyGendeclarg(loc, ..) => Some(seq![ByteRange(loc.begin_pos, loc.end_pos)]),
        Node::TyGeninst(..) => None,
        Node::TyHash(..) => None,
        Node::TyInstance(..) => None,
        Node::TyIvardecl(loc, ..) => Some(seq![ByteRange(loc.begin_pos, loc.end_pos)]),
        Node::TyNil(..) => None,
        Node::TyNillable(..) => None,
        Node::TyOr(..) => None,
        Node::TyParen(..) => None,
        Node::TyProc(..) => None,
        Node::TyPrototype(_, genargs, args, ret) => cat(cat(removed_opt(genargs), stripped(args)), removed_opt(ret)),
        Node::TyReturnSig(..) => None,
        Node::TySelf(..) => None,
        Node::TyTuple(..) => None,
        Node::TyTypedArg(loc, _, inner) => around(loc, inner.spec_loc()),
        Node::Undef(_, f0) => stripped_list(f0@),
        Node::Until(_, f0, f1) => cat(stripped(f0), stripped_opt(f1)),
        Node::UntilPost(_, f0, f1) => cat(stripped(f0), stripped(f1)),
        Node::When(_, f0, f1) => cat(stripped_list(f0@), stripped_opt(f1)),
        Node::While(_, f0, f1) => cat(stripped(f0), stripped_opt(f1)),
        Node::WhilePost(_, f0, f1) => cat(stripped(f0), stripped(f1)),
        Node::XString(_, f0) => stripped_list(f0@),
        Node::Yield(_, f0) => stripped_list(f0@),
        Node::ZSuper(..) => Some(seq![]),
    }
}

/// The ranges of the annotations in an optional node.
pub open spec fn stripped_opt(n: Option<Rc<Node>>) -> Option<Seq<ByteRange>>
    decreases n,
{
    match n {
        Some(x) => stripped(x),
        None => Some(seq![]),
    }
}

/// The ranges of the annotations in the nodes `s`, one after the other.
pub open spec fn stripped_list(s: Seq<Rc<Node>>) -> Option<Seq<ByteRange>>
    decreases s,
{
    if s.len() == 0 {
        Some(seq![])
    } else {
        cat(stripped_list(s.drop_last()), stripped(s.last()))
    }
}

fn around_ranges(enclosing: &Loc, inner: &Loc) -> (r: Vec<ByteRange>)
    requires
        around(*enclosing, *inner) is Some,
    ensures
        r@ == around(*enclosing, *inner)->0,
{
    let mut v: Vec<ByteRange> = Vec::new();
    if enclosing.begin_pos < inner.begin_pos {
        v.push(ByteRange(enclosing.begin_pos, inner.begin_pos));
    }
    if inner.end_pos < enclosing.end_pos {
        v.push(ByteRange(inner.end_pos, enclosing.end_pos));
    }
    assert(v@ =~= around(*enclosing, *inner)->0);
    v
}

fn removed_ranges(node: &Option<Rc<Node>>) -> (r: Vec<ByteRange>)
    ensures
        r@ == removed_opt(*node)->0,
{
    let mut v: Vec<ByteRange> = Vec::new();
    match node {
        Some(n) => {
            let loc = n.loc();
            v.push(ByteRange(loc.begin_pos, loc.end_pos));
        },
        None => {},
    }
    assert(v@ =~= removed_opt(*node)->0);
    v
}

fn is_anonymous_block_exec(node: &Rc<Node>) -> (r: bool)
    ensures
        r == is_anonymous_block(*node),
    decreases *node,
{
    match &**node {
        Node::TyTypedArg(_, _, arg) => is_anonymous_block_exec(arg),
        Node::Blockarg(_, id) => id.is_none(),
        _ => false,
    }
}

fn collect_opt(node: &Option<Rc<Node>>) -> (r: Vec<ByteRange>)
    requires
        stripped_opt(*node) is Some,
    ensures
        r@ == stripped_opt(*node)->0,
    decreases *node, 1int,
{
    match node {
        Some(n) => collect(n),
        None => Vec::new(),
    }
}

fn collect_list(nodes: &Vec<Rc<Node>>, upto: usize) -> (r: Vec<ByteRange>)
    requires
        upto <= nodes@.len(),
        stripped_list(nodes@.take(upto as int)) is Some,
    ensures
        r@ == stripped_list(nodes@.take(upto as int))->0,
    decreases nodes@, 0int,
{
    let mut v: Vec<ByteRange> = Vec::new();
    let mut i: usize = 0;
    assert(nodes@.take(0) =~= Seq::<Rc<Node>>::empty());
    while i < upto
        invariant
            i <= upto <= nodes@.len(),
            stripped_list(nodes@.take(upto as int)) is Some,
            stripped_list(nodes@.take(i as int)) is Some,
            v@ == stripped_list(nodes@.take(i as int))->0,
        decreases upto - i,
    {
        proof {
            lemma_stripped_list_prefix(nodes@.take(upto as int), i as int + 1);
            assert(nodes@.take(upto as int).take(i + 1) =~= nodes@.take(i + 1));
            assert(nodes@.take(i + 1).drop_last() =~= nodes@.take(i as int));
            assert(decreases_to!(nodes@ => nodes@[i as int]));
        }
        let mut w = collect(&nodes[i]);
        v.append(&mut w);
        i = i + 1;
    }
    v
}

fn collect_vec(nodes: &Vec<Rc<Node>>) -> (r: Vec<ByteRange>)
    requires
        stripped_list(nodes@) is Some,
    ensures
        r@ == stripped_list(nodes@)->0,
    decreases *nodes, 1int,
{
    assert(nodes@.take(nodes@.len() as int) =~= nodes@);
    collect_list(nodes, nodes.len())
}

/// The group of node kinds that the annotation walk treats alike.
pub open spec fn strip_group(n: Node) -> u8 {
    match n {
        Node::Alias(..) => 0u8,
        Node::And(..) => 0u8,
        Node::AndAsgn(..) => 0u8,
        Node::Arg(..) => 1u8,
        Node::Args(..) => 2u8,
        Node::Array(..) => 3u8,
        Node::Backref(..) => 1u8,
        Node::Begin(..) => 3u8,
        Node::Block(..) => 4u8,
        Node::Blockarg(..) => 1u8,
        Node::BlockPass(..) => 5u8,
        Node::Break(..) => 3u8,
        Node::Case(..) => 6u8,
        Node::Cbase(..) => 1u8,
        Node::Class(..) => 7u8,
        Node::Complex(..) => 1u8,
        Node::Const(..) => 8u8,
        Node::ConstAsgn(..) => 9u8,
        Node::ConstLhs(..) => 8u8,
        Node::CSend(..) => 10u8,
        Node::Cvar(..) => 1u8,
        Node::CvarAsgn(..) => 5u8,
        Node::CvarLhs(..) => 1u8,
        Node::Def(..) => 11u8,
        Node::Defined(..) => 5u8,
        Node::Defs(..) => 7u8,
        Node::DString(..) => 3u8,
        Node::DSymbol(..) => 3u8,
        Node::EFlipflop(..) => 0u8,
        Node::EncodingLiteral(..) => 1u8,
        Node::Ensure(..) => 9u8,
        Node::ERange(..) => 0u8,
        Node::False(..) => 1u8,
        Node::FileLiteral(..) => 1u8,
        Node::Float(..) => 1u8,
        Node::For(..) => 4u8,
        Node::Gvar(..) => 1u8,
        Node::GvarAsgn(..) => 5u8,
        Node::GvarLhs(..) => 1u8,
        Node::Hash(..) => 3u8,
        Node::Ident(..) => 1u8,
        Node::If(..) => 7u8,
        Node::IFlipflop(..) => 0u8,
        Node::Integer(..) => 1u8,
        Node::IRange(..) => 0u8,
        Node::Ivar(..) => 1u8,
        Node::IvarAsgn(..) => 5u8,
        Node::IvarLhs(..) => 1u8,
        Node::Kwarg(..) => 1u8,
        Node::Kwbegin(..) => 3u8,
        Node::Kwoptarg(..) => 5u8,
        Node::Kwrestarg(..) => 1u8,
        Node::Kwsplat(..) => 5u8,
        Node::Lambda(..) => 1u8,
        Node::LineLiteral(..) => 1u8,
        Node::Lvar(..) => 1u8,
        Node::LvarAsgn(..) => 5u8,
        Node::LvarLhs(..) => 1u8,
        Node::Masgn(..) => 0u8,
        Node::MatchAsgn(..) => 0u8,
        Node::MatchCurLine(..) => 5u8,
        Node::Mlhs(..) => 3u8,
        Node::Module(..) => 12u8,
        Node::Next(..) => 3u8,
        Node::Nil(..) => 1u8,
        Node::NthRef(..) => 1u8,
        Node::OpAsgn(..) => 0u8,
        Node::Optarg(..) => 5u8,
        Node::Or(..) => 0u8,
        Node::OrAsgn(..) => 0u8,
        Node::Pair(..) => 0u8,
        Node::Postexe(..) => 8u8,
        Node::Preexe(..) => 8u8,
        Node::Procarg0(..) => 5u8,
        Node::Rational(..) => 1u8,
        Node::Redo(..) => 1u8,
        Node::Regexp(..) => 3u8,
        Node::Regopt(..) => 1u8,
        Node::Resbody(..) => 13u8,
        Node::Rescue(..) => 6u8,
        Node::Restarg(..) => 1u8,
        Node::Retry(..) => 1u8,
        Node::Return(..) => 3u8,
        Node::SClass(..) => 12u8,
        Node::Self_(..) => 1u8,
        Node::Send(..) => 10u8,
        Node::ShadowArg(..) => 1u8,
        Node::Splat(..) => 8u8,
        Node::SplatLhs(..) => 8u8,
        Node::String(..) => 1u8,
        Node::Super(..) => 3u8,
        Node::Symbol(..) => 1u8,
        Node::True(..) => 1u8,
        Node::TyAny(..) => 14u8,
        Node::TyArray(..) => 14u8,
        Node::TyCast(..) => 15u8,
        Node::TyClass(..) => 14u8,
        Node::TyConSubtype(..) => 14u8,
        Node::TyConUnify(..) => 14u8,
        Node::TyConstInstance(..) => 15u8,
        Node::TyCpath(..) => 16u8,
        Node::TyGenargs(..) => 16u8,
        Node::TyGendecl(..) => 15u8,
        Node::TyGendeclarg(..) => 16u8,
        Node::TyGeninst(..) => 14u8,
        Node::TyHash(..) => 14u8,
        Node::TyInstance(..) => 14u8,
        Node::TyIvardecl(..) => 16u8,
        Node::TyNil(..) => 14u8,
        Node::TyNillable(..) => 14u8,
        Node::TyOr(..) => 14u8,
        Node::TyParen(..) => 14u8,
        Node::TyProc(..) => 14u8,
        Node::TyPrototype(..) => 2u8,
        Node::TyReturnSig(..) => 14u8,
        Node::TySelf(..) => 14u8,
        Node::TyTuple(..) => 14u8,
        Node::TyTypedArg(..) => 15u8,
        Node::Undef(..) => 3u8,
        Node::Until(..) => 12u8,
        Node::UntilPost(..) => 0u8,
        Node::When(..) => 17u8,
        Node::While(..) => 12u8,
        Node::WhilePost(..) => 0u8,
        Node::XString(..) => 3u8,
        Node::Yield(..) => 3u8,
        Node::ZSuper(..) => 1u8,
    }
}

fn strip_group_of(n: &Node) -> (r: u8)
    ensures
        r == strip_group(*n),
{
    match n {
        Node::Alias(..) => 0u8,
        Node::And(..) => 0u8,
        Node::AndAsgn(..) => 0u8,
        Node::Arg(..) => 1u8,
        Node::Args(..) => 2u8,
        Node::Array(..) => 3u8,
        Node::Backref(..) => 1u8,
        Node::Begin(..) => 3u8,
        Node::Block(..) => 4u8,
        Node::Blockarg(..) => 1u8,
        Node::BlockPass(..) => 5u8,
        Node::Break(..) => 3u8,
        Node::Case(..) => 6u8,
        Node::Cbase(..) => 1u8,
        Node::Class(..) => 7u8,
        Node::Complex(..) => 1u8,
        Node::Const(..) => 8u8,
        Node::ConstAsgn(..) => 9u8,
        Node::ConstLhs(..) => 8u8,
        Node::CSend(..) => 10u8,
        Node::Cvar(..) => 1u8,
        Node::CvarAsgn(..) => 5u8,
        Node::CvarLhs(..) => 1u8,
        Node::Def(..) => 11u8,
        Node::Defined(..) => 5u8,
        Node::Defs(..) => 7u8,
        Node::DString(..) => 3u8,
        Node::DSymbol(..) => 3u8,
        Node::EFlipflop(..) => 0u8,
        Node::EncodingLiteral(..) => 1u8,
        Node::Ensure(..) => 9u8,
        Node::ERange(..) => 0u8,
        Node::False(..) => 1u8,
        Node::FileLiteral(..) => 1u8,
        Node::Float(..) => 1u8,
        Node::For(..) => 4u8,
        Node::Gvar(..) => 1u8,
        Node::GvarAsgn(..) => 5u8,
        Node::GvarLhs(..) => 1u8,
        Node::Hash(..) => 3u8,
        Node::Ident(..) => 1u8,
        Node::If(..) => 7u8,
        Node::IFlipflop(..) => 0u8,
        Node::Integer(..) => 1u8,
        Node::IRange(..) => 0u8,
        Node::Ivar(..) => 1u8,
        Node::IvarAsgn(..) => 5u8,
        Node::IvarLhs(..) => 1u8,
        Node::Kwarg(..) => 1u8,
        Node::Kwbegin(..) => 3u8,
        Node::Kwoptarg(..) => 5u8,
        Node::Kwrestarg(..) => 1u8,
        Node::Kwsplat(..) => 5u8,
        Node::Lambda(..) => 1u8,
        Node::LineLiteral(..) => 1u8,
        Node::Lvar(..) => 1u8,
        Node::LvarAsgn(..) => 5u8,
        Node::LvarLhs(..) => 1u8,
        Node::Masgn(..) => 0u8,
        Node::MatchAsgn(..) => 0u8,
        Node::MatchCurLine(..) => 5u8,
        Node::Mlhs(..) => 3u8,
        Node::Module(..) => 12u8,
        Node::Next(..) => 3u8,
        Node::Nil(..) => 1u8,
        Node::NthRef(..) => 1u8,
        Node::OpAsgn(..) => 0u8,
        Node::Optarg(..) => 5u8,
        Node::Or(..) => 0u8,
        Node::OrAsgn(..) => 0u8,
        Node::Pair(..) => 0u8,
        Node::Postexe(..) => 8u8,
        Node::Preexe(..) => 8u8,
        Node::Procarg0(..) => 5u8,
        Node::Rational(..) => 1u8,
        Node::Redo(..) => 1u8,
        Node::Regexp(..) => 3u8,
        Node::Regopt(..) => 1u8,
        Node::Resbody(..) => 13u8,
        Node::Rescue(..) => 6u8,
        Node::Restarg(..) => 1u8,
        Node::Retry(..) => 1u8,
        Node::Return(..) => 3u8,
        Node::SClass(..) => 12u8,
        Node::Self_(..) => 1u8,
        Node::Send(..) => 10u8,
        Node::ShadowArg(..) => 1u8,
        Node::Splat(..) => 8u8,
        Node::SplatLhs(..) => 8u8,
        Node::String(..) => 1u8,
        Node::Super(..) => 3u8,
        Node::Symbol(..) => 1u8,
        Node::True(..) => 1u8,
        Node::TyAny(..) => 14u8,
        Node::TyArray(..) => 14u8,
        Node::TyCast(..) => 15u8,
        Node::TyClass(..) => 14u8,
        Node::TyConSubtype(..) => 14u8,
        Node::TyConUnify(..) => 14u8,
        Node::TyConstInstance(..) => 15u8,
        Node::TyCpath(..) => 16u8,
        Node::TyGenargs(..) => 16u8,
        Node::TyGendecl(..) => 15u8,
        Node::TyGendeclarg(..) => 16u8,
        Node::TyGeninst(..) => 14u8,
        Node::TyHash(..) => 14u8,
        Node::TyInstance(..) => 14u8,
        Node::TyIvardecl(..) => 16u8,
        Node::TyNil(..) => 14u8,
        Node::TyNillable(..) => 14u8,
        Node::TyOr(..) => 14u8,
        Node::TyParen(..) => 14u8,
        Node::TyProc(..) => 14u8,
        Node::TyPrototype(..) => 2u8,
        Node::TyReturnSig(..) => 14u8,
        Node::TySelf(..) => 14u8,
        Node::TyTuple(..) => 14u8,
        Node::TyTypedArg(..) => 15u8,
        Node::Undef(..) => 3u8,
        Node::Until(..) => 12u8,
        Node::UntilPost(..) => 0u8,
        Node::When(..) => 17u8,
        Node::While(..) => 12u8,
        Node::WhilePost(..) => 0u8,
        Node::XString(..) => 3u8,
        Node::Yield(..) => 3u8,
        Node::ZSuper(..) => 1u8,
    }
}

fn collect_g0(node: &Rc<Node>) -> (r: Vec<ByteRange>)
    requires
        strip_group(**node) == 0u8,
        stripped(*node) is Some,
    ensures
        r@ == stripped(*node)->0,
    decreases *node, 1int,
{
    match &**node {
        Node::Alias(_, c0, c1) => {
            let mut v = collect(c0);
            let mut w = collect(c1);
            v.append(&mut w);
            v
        },
        Node::And(_, c0, c1) => {
            let mut v = collect(c0);
            let mut w = collect(c1);
            v.append(&mut w);
            v
        },
        Node::AndAsgn(_, c0, c1) => {
            let mut v = collect(c0);
            let mut w = collect(c1);
            v.append(&mut w);
            v
        },
        Node::EFlipflop(_, c0, c1) => {
            let mut v = collect(c0);
            let mut w = collect(c1);
            v.append(&mut w);
            v
        },
        Node::ERange(_, c0, c1) => {
            let mut v = collect(c0);
            let mut w = collect(c1);
            v.append(&mut w);
            v
        },
        Node::IFlipflop(_, c0, c1) => {
            let mut v = collect(c0);
            let mut w = collect(c1);
            v.append(&mut w);
            v
        },
        Node::IRange(_, c0, c1) => {
            let mut v = collect(c0);
            let mut w = collect(c1);
            v.append(&mut w);
            v
        },
        Node::Masgn(_, c0, c1) => {
            let mut v = collect(c0);
            let mut w = collect(c1);
            v.append(&mut w);
            v
        },
        Node::MatchAsgn(_, c0, c1) => {
            let mut v = collect(c0);
            let mut w = collect(c1);
            v.append(&mut w);
            v
        },
        Node::OpAsgn(_, c0, _, c1) => {
            let mut v = collect(c0);
            let mut w = collect(c1);
            v.append(&mut w);
            v
        },
        Node::Or(_, c0, c1) => {
            let mut v = collect(c0);
            let mut w = collect(c1);
            v.append(&mut w);
            v
        },
        Node::OrAsgn(_, c0, c1) => {
            let mut v = collect(c0);
            let mut w = collect(c1);
            v.append(&mut w);
            v
        },
        Node::Pair(_, c0, c1) => {
            let mut v = collect(c0);
            let mut w = collect(c1);
            v.append(&mut w);
            v
        },
        Node::UntilPost(_, c0, c1) => {
            let mut v = collect(c0);
            let mut w = collect(c1);
            v.append(&mut w);
            v
        },
        Node::WhilePost(_, c0, c1) => {
            let mut v = collect(c0);
            let mut w = collect(c1);
            v.append(&mut w);
            v
        },
        _ => {
            assert(false);
            Vec::new()
        },
    }
}

fn collect_g1(node: &Rc<Node>) -> (r: Vec<ByteRange>)
    requires
        strip_group(**node) == 1u8,
        stripped(*node) is Some,
    ensures
        r@ == stripped(*node)->0,
    decreases *node, 1int,
{
    match &**node {
        Node::Arg(..) => Vec::new(),
        Node::Backref(..) => Vec::new(),
        Node::Blockarg(..) => Vec::new(),
        Node::Cbase(..) => Vec::new(),
        Node::Complex(..) => Vec::new(),
        Node::Cvar(..) => Vec::new(),
        Node::CvarLhs(..) => Vec::new(),
        Node::EncodingLiteral(..) => Vec::new(),
        Node::False(..) => Vec::new(),
        Node::FileLiteral(..) => Vec::new(),
        Node::Float(..) => Vec::new(),
        Node::Gvar(..) => Vec::new(),
        Node::GvarLhs(..) => Vec::new(),
        Node::Ident(..) => Vec::new(),
        Node::Integer(..) => Vec::new(),
        Node::Ivar(..) => Vec::new(),
        Node::IvarLhs(..) => Vec::new(),
        Node::Kwarg(..) => Vec::new(),
        Node::Kwrestarg(..) => Vec::new(),
        Node::Lambda(..) => Vec::new(),
        Node::LineLiteral(..) => Vec::new(),
        Node::Lvar(..) => Vec::new(),
        Node::LvarLhs(..) => Vec::new(),
        Node::Nil(..) => Vec::new(),
        Node::NthRef(..) => Vec::new(),
        Node::Rational(..) => Vec::new(),
        Node::Redo(..) => Vec::new(),
        Node::Regopt(..) => Vec::new(),
        Node::Restarg(..) => Vec::new(),
        Node::Retry(..) => Vec::new(),
        Node::Self_(..) => Vec::new(),
        Node::ShadowArg(..) => Vec::new(),
        Node::String(..) => Vec::new(),
        Node::Symbol(..) => Vec::new(),
        Node::True(..) => Vec::new(),
        Node::ZSuper(..) => Vec::new(),
        _ => {
            assert(false);
            Vec::new()
        },
    }
}

fn collect_g2(node: &Rc<Node>) -> (r: Vec<ByteRange>)
    requires
        strip_group(**node) == 2u8,
        stripped(*node) is Some,
    ensures
        r@ == stripped(*node)->0,
    decreases *node, 1int,
{
    match &**node {
        Node::Args(loc, nodes) => {
            let n = nodes.len();
            if n > 0 && is_anonymous_block_exec(&nodes[n - 1]) {
                if n == 1 {
                    let mut v: Vec<ByteRange> = Vec::new();
                    v.push(ByteRange(loc.begin_pos, loc.end_pos));
                    v
                } else {
                    let before = nodes[n - 2].loc().end_pos;
                    let after = nodes[n - 1].loc().end_pos;
                    let mut v: Vec<ByteRange> = Vec::new();
                    v.push(ByteRange(before, after));
                    proof {
                        assert(nodes@.take((n - 1) as int) =~= nodes@.drop_last());
                    }
                    let mut w = collect_list(nodes, n - 1);
                    v.append(&mut w);
                    v
                }
            } else {
                proof {
                    assert(nodes@.take(n as int) =~= nodes@);
                }
                collect_list(nodes, n)
            }
        },
        Node::TyPrototype(_, genargs, args, ret) => {
            let mut v = removed_ranges(genargs);
            let mut w = collect(args);
            v.append(&mut w);
            let mut x = removed_ranges(ret);
            v.append(&mut x);
            v
        },
        _ => {
            assert(false);
            Vec::new()
        },
    }
}

fn collect_g3(node: &Rc<Node>) -> (r: Vec<ByteRange>)
    requires
        strip_group(**node) == 3u8,
        stripped(*node) is Some,
    ensures
        r@ == stripped(*node)->0,
    decreases *node, 1int,
{
    match &**node {
        Node::Array(_, c0) => {
            let mut v = collect_vec(c0);
            v
        },
        Node::Begin(_, c0) => {
            let mut v = collect_vec(c0);
            v
        },
        Node::Break(_, c0) => {
            let mut v = collect_vec(c0);
            v
        },
        Node::DString(_, c0) => {
            let mut v = collect_vec(c0);
            v
        },
        Node::DSymbol(_, c0) => {
            let mut v = collect_vec(c0);
            v
        },
        Node::Hash(_, c0) => {
            let mut v = collect_vec(c0);
            v
        },
        Node::Kwbegin(_, c0) => {
            let mut v = collect_vec(c0);
            v
        },
        Node::Mlhs(_, c0) => {
            let mut v = collect_vec(c0);
            v
        },
        Node::Next(_, c0) => {
            let mut v = collect_vec(c0);
            v
        },
        Node::Regexp(_, c0, _) => {
            let mut v = collect_vec(c0);
            v
        },
        Node::Return(_, c0) => {
            let mut v = collect_vec(c0);
            v
        },
        Node::Super(_, c0) => {
            let mut v = collect_vec(c0);
            v
        },
        Node::Undef(_, c0) => {
            let mut v = collect_vec(c0);
            v
        },
        Node::XString(_, c0) => {
            let mut v = collect_vec(c0);
            v
        },
        Node::Yield(_, c0) => {
            let mut v = collect_vec(c0);
            v
        },
        _ => {
            assert(false);
            Vec::new()
        },
    }
}

fn collect_g4(node: &Rc<Node>) -> (r: Vec<ByteRange>)
    requires
        strip_group(**node) == 4u8,
        stripped(*node) is Some,
    ensures
        r@ == stripped(*node)->0,
    decreases *node, 1int,
{
    match &**node {
        Node::Block(_, c0, c1, c2) => {
            let mut v = collect(c0);
            let mut w = collect(c1);
            v.append(&mut w);
            let mut w = collect_opt(c2);
            v.append(&mut w);
            v
        },
        Node::For(_, c0, c1, c2) => {
            let mut v = collect(c0);
            let mut w = collect(c1);
            v.append(&mut w);
            let mut w = collect_opt(c2);
            v.append(&mut w);
            v
        },
        _ => {
            assert(false);
            Vec::new()
        },
    }
}

fn collect_g5(node: &Rc<Node>) -> (r: Vec<ByteRange>)
    requires
        strip_group(**node) == 5u8,
        stripped(*node) is Some,
    ensures
        r@ == stripped(*node)->0,
    decreases *node, 1int,
{
    match &**node {
        Node::BlockPass(_, c0) => {
            let mut v = collect(c0);
            v
        },
        Node::CvarAsgn(_, _, c0) => {
            let mut v = collect(c0);
            v
        },
        Node::Defined(_, c0) => {
            let mut v = collect(c0);
            v
        },
        Node::GvarAsgn(_, _, c0) => {
            let mut v = collect(c0);
            v
        },
        Node::IvarAsgn(_, _, c0) => {
            let mut v = collect(c0);
            v
        },
        Node::Kwoptarg(_, _, c0) => {
            let mut v = collect(c0);
            v
        },
        Node::Kwsplat(_, c0) => {
            let mut v = collect(c0);
            v
        },
        Node::LvarAsgn(_, _, c0) => {
            let mut v = collect(c0);
            v
        },
        Node::MatchCurLine(_, c0) => {
            let mut v = collect(c0);
            v
        },
        Node::Optarg(_, _, c0) => {
            let mut v = collect(c0);
            v
        },
        Node::Procarg0(_, c0) => {
            let mut v = collect(c0);
            v
        },
        _ => {
            assert(false);
            Vec::new()
        },
    }
}

fn collect_g6(node: &Rc<Node>) -> (r: Vec<ByteRange>)
    requires
        strip_group(**node) == 6u8,
        stripped(*node) is Some,
    ensures
        r@ == stripped(*node)->0,
    decreases *node, 1int,
{
    match &**node {
        Node::Case(_, c0, c1, c2) => {
            let mut v = collect_opt(c0);
            let mut w = collect_vec(c1);
            v.append(&mut w);
            let mut w = collect_opt(c2);
            v.append(&mut w);
            v
        },
        Node::Rescue(_, c0, c1, c2) => {
            let mut v = collect_opt(c0);
            let mut w = collect_vec(c1);
            v.append(&mut w);
            let mut w = collect_opt(c2);
            v.append(&mut w);
            v
        },
        _ => {
            assert(false);
            Vec::new()
        },
    }
}

fn collect_g7(node: &Rc<Node>) -> (r: Vec<ByteRange>)
    requires
        strip_group(**node) == 7u8,
        stripped(*node) is Some,
    ensures
        r@ == stripped(*node)->0,
    decreases *node, 1int,
{
    match &**node {
        Node::Class(_, c0, c1, c2) => {
            let mut v = collect(c0);
            let mut w = collect_opt(c1);
            v.append(&mut w);
            let mut w = collect_opt(c2);
            v.append(&mut w);
            v
        },
        Node::Defs(_, c0, _, c1, c2) => {
            let mut v = collect(c0);
            let mut w = collect_opt(c1);
            v.append(&mut w);
            let mut w = collect_opt(c2);
            v.append(&mut w);
            v
        },
        Node::If(_, c0, c1, c2) => {
            let mut v = collect(c0);
            let mut w = collect_opt(c1);
            v.append(&mut w);
            let mut w = collect_opt(c2);
            v.append(&mut w);
            v
        },
        _ => {
            assert(false);
            Vec::new()
        },
    }
}

fn collect_g8(node: &Rc<Node>) -> (r: Vec<ByteRange>)
    requires
        strip_group(**node) == 8u8,
        stripped(*node) is Some,
    ensures
        r@ == stripped(*node)->0,
    decreases *node, 1int,
{
    match &**node {
        Node::Const(_, c0, _) => {
            let mut v = collect_opt(c0);
            v
        },
        Node::ConstLhs(_, c0, _) => {
            let mut v = collect_opt(c0);
            v
        },
        Node::Postexe(_, c0) => {
            let mut v = collect_opt(c0);
            v
        },
        Node::Preexe(_, c0) => {
            let mut v = collect_opt(c0);
            v
        },
        Node::Splat(_, c0) => {
            let mut v = collect_opt(c0);
            v
        },
        Node::SplatLhs(_, c0) => {
            let mut v = collect_opt(c0);
            v
        },
        _ => {
            assert(false);
            Vec::new()
        },
    }
}

fn collect_g9(node: &Rc<Node>) -> (r: Vec<ByteRange>)
    requires
        strip_group(**node) == 9u8,
        stripped(*node) is Some,
    ensures
        r@ == stripped(*node)->0,
    decreases *node, 1int,
{
    match &**node {
        Node::ConstAsgn(_, c0, _, c1) => {
            let mut v = collect_opt(c0);
            let mut w = collect(c1);
            v.append(&mut w);
            v
        },
        Node::Ensure(_, c0, c1) => {
            let mut v = collect_opt(c0);
            let mut w = collect(c1);
            v.append(&mut w);
            v
        },
        _ => {
            assert(false);
            Vec::new()
        },
    }
}

fn collect_g10(node: &Rc<Node>) -> (r: Vec<ByteRange>)
    requires
        strip_group(**node) == 10u8,
        stripped(*node) is Some,
    ensures
        r@ == stripped(*node)->0,
    decreases *node, 1int,
{
    match &**node {
        Node::CSend(_, c0, _, c1) => {
            let mut v = collect_opt(c0);
            let mut w = collect_vec(c1);
            v.append(&mut w);
            v
        },
        Node::Send(_, c0, _, c1) => {
            let mut v = collect_opt(c0);
            let mut w = collect_vec(c1);
            v.append(&mut w);
            v
        },
        _ => {
            assert(false);
            Vec::new()
        },
    }
}

fn collect_g11(node: &Rc<Node>) -> (r: Vec<ByteRange>)
    requires
        strip_group(**node) == 11u8,
        stripped(*node) is Some,
    ensures
        r@ == stripped(*node)->0,
    decreases *node, 1int,
{
    match &**node {
        Node::Def(_, _, c0, c1) => {
            let mut v = collect_opt(c0);
            let mut w = collect_opt(c1);
            v.append(&mut w);
            v
        },
        _ => {
            assert(false);
            Vec::new()
        },
    }
}

fn collect_g12(node: &Rc<Node>) -> (r: Vec<ByteRange>)
    requires
        strip_group(**node) == 12u8,
        stripped(*node) is Some,
    ensures
        r@ == stripped(*node)->0,
    decreases *node, 1int,
{
    match &**node {
        Node::Module(_, c0, c1) => {
            let mut v = collect(c0);
            let mut w = collect_opt(c1);
            v.append(&mut w);
            v
        },
        Node::SClass(_, c0, c1) => {
            let mut v = collect(c0);
            let mut w = collect_opt(c1);
            v.append(&mut w);
            v
        },
        Node::Until(_, c0, c1) => {
            let mut v = collect(c0);
            let mut w = collect_opt(c1);
            v.append(&mut w);
            v
        },
        Node::While(_, c0, c1) => {
            let mut v = collect(c0);
            let mut w = collect_opt(c1);
            v.append(&mut w);
            v
        },
        _ => {
            assert(false);
            Vec::new()
        },
    }
}

fn collect_g13(node: &Rc<Node>) -> (r: Vec<ByteRange>)
    requires
        strip_group(**node) == 13u8,
        stripped(*node) is Some,
    ensures
        r@ == stripped(*node)->0,
    decreases *node, 1int,
{
    match &**node {
        Node::Resbody(_, c0, c1, c2) => {
            let mut v = collect_opt(c0);
            let mut w = collect_opt(c1);
            v.append(&mut w);
            let mut w = collect_opt(c2);
            v.append(&mut w);
            v
        },
        _ => {
            assert(false);
            Vec::new()
        },
    }
}

fn collect_g15(node: &Rc<Node>) -> (r: Vec<ByteRange>)
    requires
        strip_group(**node) == 15u8,
        stripped(*node) is Some,
    ensures
        r@ == stripped(*node)->0,
    decreases *node, 1int,
{
    match &**node {
        Node::TyCast(loc, inner, _) => around_ranges(loc, inner.loc()),
        Node::TyConstInstance(loc, inner, _) => around_ranges(loc, inner.loc()),
        Node::TyGendecl(loc, inner, _) => around_ranges(loc, inner.loc()),
        Node::TyTypedArg(loc, _, inner) => around_ranges(loc, inner.loc()),
        _ => {
            assert(false);
            Vec::new()
        },
    }
}

fn collect_g16(node: &Rc<Node>) -> (r: Vec<ByteRange>)
    requires
        strip_group(**node) == 16u8,
        stripped(*node) is Some,
    ensures
        r@ == stripped(*node)->0,
    decreases *node, 1int,
{
    match &**node {
        Node::TyCpath(loc, ..) => {
            let mut v: Vec<ByteRange> = Vec::new();
            v.push(ByteRange(loc.begin_pos, loc.end_pos));
            v
        },
        Node::TyGenargs(loc, ..) => {
            let mut v: Vec<ByteRange> = Vec::new();
            v.push(ByteRange(loc.begin_pos, loc.end_pos));
            v
        },
        Node::TyGendeclarg(loc, ..) => {
            let mut v: Vec<ByteRange> = Vec::new();
            v.push(ByteRange(loc.begin_pos, loc.end_pos));
            v
        },
        Node::TyIvardecl(loc, ..) => {
            let mut v: Vec<ByteRange> = Vec::new();
            v.push(ByteRange(loc.begin_pos, loc.end_pos));
            v
        },
        _ => {
            assert(false);
            Vec::new()
        },
    }
}

fn collect_g17(node: &Rc<Node>) -> (r: Vec<ByteRange>)
    requires
        strip_group(**node) == 17u8,
        stripped(*node) is Some,
    ensures
        r@ == stripped(*node)->0,
    decreases *node, 1int,
{
    match &**node {
        Node::When(_, c0, c1) => {
            let mut v = collect_vec(c0);
            let mut w = collect_opt(c1);
            v.append(&mut w);
            v
        },
        _ => {
            assert(false);
            Vec::new()
        },
    }
}

/// The ranges of the annotations in `node`, as `stripped` gives them.
pub fn collect(node: &Rc<Node>) -> (r: Vec<ByteRange>)
    requires
        stripped(*node) is Some,
    ensures
        r@ == stripped(*node)->0,
    decreases *node, 2int,
{
    let g = strip_group_of(&**node);
    if g == 0u8 {
        collect_g0(node)
    } else if g == 1u8 {
        collect_g1(node)
    } else if g == 2u8 {
        collect_g2(node)
    } else if g == 3u8 {
        collect_g3(node)
    } else if g == 4u8 {
        collect_g4(node)
    } else if g == 5u8 {
        collect_g5(node)
    } else if g == 6u8 {
        collect_g6(node)
    } else if g == 7u8 {
        collect_g7(node)
    } else if g == 8u8 {
        collect_g8(node)
    } else if g == 9u8 {
        collect_g9(node)
    } else if g == 10u8 {
        collect_g10(node)
    } else if g == 11u8 {
        collect_g11(node)
    } else if g == 12u8 {
        collect_g12(node)
    } else if g == 13u8 {
        collect_g13(node)
    } else if g == 15u8 {
        collect_g15(node)
    } else if g == 16u8 {
        collect_g16(node)
    } else if g == 17u8 {
        collect_g17(node)
    } else {
        assert(false);
        Vec::new()
    }
}

/// Whether any of the diagnostics is an error.
pub open spec fn has_error(ds: Seq<Diagnostic>) -> bool {
    exists|i: int| 0 <= i < ds.len() && (#[trigger] ds[i]).level is Error
}

/// Collects the ranges of the annotations of a syntax tree.
pub struct Strip {
    pub remove: Vec<ByteRange>,
}

impl Strip {
    fn new() -> (r: Self)
        ensures
            r.remove@ == Seq::<ByteRange>::empty(),
    {
        Strip { remove: Vec::new() }
    }

    /// The ranges to remove from `file` to strip its annotations, given what
    /// the parser made of it: none for an empty file, and the syntax errors
    /// when the parser reported any.
    pub fn strip(file: &SourceFile, ast: Ast) -> (r: Result<Vec<ByteRange>, StripError>)
        requires
            !has_error(ast.diagnostics@) ==> match ast.node {
                Some(n) => stripped(n) is Some
                    && forall|i: int| 0 <= i < stripped(n)->0.len() ==> trimmable(file.bytes(), #[trigger] stripped(n)->0[i]),
                None => true,
            },
        ensures
            r is Err <==> has_error(ast.diagnostics@),
            r matches Err(StripError::Syntax(ds)) ==> ds@ == ast.diagnostics@,
            r matches Ok(v) ==> match ast.node {
                None => v@.len() == 0,
                Some(n) => v@.len() == stripped(n)->0.len()
                    && forall|i: int| 0 <= i < v@.len() ==> #[trigger] v@[i] == trimmed(file.bytes(), stripped(n)->0[i]),
            },
    {
        let ghost ds0 = ast.diagnostics@;
        let Ast { node, diagnostics } = ast;
        let mut i: usize = 0;
        while i < diagnostics.len()
            invariant
                diagnostics@ == ds0,
                ds0 == ast.diagnostics@,
                i <= diagnostics@.len(),
                forall|k: int| 0 <= k < i ==> !(diagnostics@[k].level is Error),
            decreases diagnostics@.len() - i,
        {
            match diagnostics[i].level {
                Level::Error => {
                    assert((diagnostics@[i as int]).level is Error);
                    return Err(StripError::Syntax(diagnostics));
                },
                _ => {},
            }
            i = i + 1;
        }
        let node = match node {
            Some(node) => node,
            None => return Ok(Vec::new()),
        };
        let mut strip = Strip::new();
        strip.strip_node(&node);
        assert(strip.remove@ =~= stripped(node)->0);
        Ok(strip_trailing_whitespace(file.source(), strip.remove))
    }

    /// Collects the ranges of the annotations in `node`.
    pub fn strip_node(&mut self, node: &Rc<Node>)
        requires
            stripped(*node) is Some,
        ensures
            final(self).remove@ == old(self).remove@ + stripped(*node)->0,
    {
        let mut v = collect(node);
        self.remove.append(&mut v);
    }
}

/// Every prefix of a list whose annotations can be collected can be
/// collected too.
proof fn lemma_stripped_list_prefix(s: Seq<Rc<Node>>, n: int)
    requires
        0 <= n <= s.len(),
        stripped_list(s) is Some,
    ensures
        stripped_list(s.take(n)) is Some,
    decreases s.len(),
{
    if n == s.len() {
        assert(s.take(n) =~= s);
    } else {
        assert(s.drop_last().take(n) =~= s.take(n));
        lemma_stripped_list_prefix(s.drop_last(), n);
    }
}

/// A space or a tab.
pub open spec fn is_line_ws(c: u8) -> bool {
    c == 32u8 || c == 9u8
}

/// A carriage return or a line feed.
pub open spec fn is_newline(c: u8) -> bool {
    c == 13u8 || c == 10u8
}

/// The first offset at or after `i` that is not a space or tab.
pub open spec fn skip_ws(b: Seq<u8>, i: int) -> int
    decreases b.len() - i,
{
    if i >= b.len() {
        b.len() as int
    } else if is_line_ws(b[i]) {
        skip_ws(b, i + 1)
    } else {
        i
    }
}

/// The start of the run of spaces and tabs that ends at offset `i`.
pub open spec fn back_ws(b: Seq<u8>, i: int) -> int
    decreases i,
{
    if i <= 0 {
        0
    } else if is_line_ws(b[i - 1]) {
        back_ws(b, i - 1)
    } else {
        i
    }
}

/// Whether only spaces and tabs lie between offset `end` and the end of its
/// line.
pub open spec fn at_line_end(b: Seq<u8>, end: int) -> bool {
    let e = skip_ws(b, end);
    e >= b.len() || is_newline(b[e])
}

/// A range that ends its line, widened over the spaces and tabs before it
/// and after it; other ranges stay as they are.
pub open spec fn trimmed(b: Seq<u8>, r: ByteRange) -> ByteRange {
    if at_line_end(b, r.1 as int) {
        ByteRange(back_ws(b, r.0 as int) as usize, skip_ws(b, r.1 as int) as usize)
    } else {
        r
    }
}

/// Whether the text can be cut at the offsets that trimming `r` reads.
pub open spec fn trimmable(b: Seq<u8>, r: ByteRange) -> bool {
    &&& r.1 <= b.len()
    &&& vstd::utf8::is_char_boundary(b, r.1 as int)
    &&& at_line_end(b, r.1 as int) ==> r.0 <= b.len() && vstd::utf8::is_char_boundary(b, r.0 as int)
}

fn trim_around_range(source: &str, range: ByteRange) -> (r: ByteRange)
    requires
        trimmable(source.spec_bytes(), range),
    ensures
        r == trimmed(source.spec_bytes(), range),
{
    let b = source.as_bytes();
    let ghost bs = source.spec_bytes();
    let ByteRange(start, end) = range;
    let mut e: usize = end;
    while e < b.len() && (b[e] == 32u8 || b[e] == 9u8)
        invariant
            b@ == bs,
            end <= e <= b@.len(),
            skip_ws(bs, e as int) == skip_ws(bs, end as int),
        decreases b@.len() - e,
    {
        e = e + 1;
    }
    if e < b.len() && !(b[e] == 13u8 || b[e] == 10u8) {
        return ByteRange(start, end);
    }
    let mut st: usize = start;
    while st > 0 && (b[st - 1] == 32u8 || b[st - 1] == 9u8)
        invariant
            b@ == bs,
            st <= start <= b@.len(),
            back_ws(bs, st as int) == back_ws(bs, start as int),
        decreases st,
    {
        st = st - 1;
    }
    ByteRange(st, e)
}

/// Widens every range over the whitespace around it when it ends its line.
pub fn strip_trailing_whitespace(source: &str, remove: Vec<ByteRange>) -> (r: Vec<ByteRange>)
    requires
        forall|i: int| 0 <= i < remove@.len() ==> trimmable(source.spec_bytes(), #[trigger] remove@[i]),
    ensures
        r@.len() == remove@.len(),
        forall|i: int| 0 <= i < remove@.len() ==> #[trigger] r@[i] == trimmed(source.spec_bytes(), remove@[i]),
{
    let ghost orig = remove@;
    let mut remove = remove;
    let mut out: Vec<ByteRange> = Vec::new();
    let mut i: usize = 0;
    let n = remove.len();
    while i < n
        invariant
            n == orig.len(),
            remove@.len() + i == n,
            forall|k: int| 0 <= k < remove@.len() ==> remove@[k] == orig[k + i],
            forall|k: int| 0 <= k < n ==> trimmable(source.spec_bytes(), #[trigger] orig[k]),
            out@.len() == i,
            forall|k: int| 0 <= k < i ==> #[trigger] out@[k] == trimmed(source.spec_bytes(), orig[k]),
        decreases n - i,
    {
        let range = remove.remove(0);
        assert(range == orig[i as int]);
        out.push(trim_around_range(source, range));
        i = i + 1;
    }
    out
}

/// `x` inserted into `s` after the last element whose start is not greater
/// than the start of `x`.
pub open spec fn insert_by_start(s: Seq<ByteRange>, x: ByteRange) -> Seq<ByteRange>
    decreases s.len(),
{
    if s.len() == 0 {
        seq![x]
    } else if s.last().0 <= x.0 {
        s.push(x)
    } else {
        insert_by_start(s.drop_last(), x).push(s.last())
    }
}

/// `s` sorted by start, ranges with equal starts keeping their order.
pub open spec fn sort_by_start(s: Seq<ByteRange>) -> Seq<ByteRange>
    decreases s.len(),
{
    if s.len() == 0 {
        seq![]
    } else {
        insert_by_start(sort_by_start(s.drop_last()), s.last())
    }
}

/// The bytes of `b` from offset `pos` on that none of the ranges `rs`
/// covers, the ranges taken in order: what lies between one range and the
/// next is kept.
pub open spec fn kept_bytes(b: Seq<u8>, rs: Seq<ByteRange>, pos: int) -> Seq<u8>
    decreases rs.len(),
{
    if rs.len() == 0 {
        if pos < b.len() { b.subrange(pos, b.len() as int) } else { seq![] }
    } else {
        let r = rs[0];
        (if pos < r.0 { b.subrange(pos, r.0 as int) } else { seq![] })
            + kept_bytes(b, rs.drop_first(), if r.1 > pos { r.1 as int } else { pos })
    }
}

proof fn lemma_insert_at(s: Seq<ByteRange>, x: ByteRange, j: int)
    requires
        0 <= j <= s.len(),
        j == 0 || s[j - 1].0 <= x.0,
        forall|k: int| j <= k < s.len() ==> #[trigger] s[k].0 > x.0,
    ensures
        insert_by_start(s, x) == s.take(j).push(x) + s.skip(j),
    decreases s.len(),
{
    if s.len() == 0 {
        assert(s.take(j).push(x) + s.skip(j) =~= seq![x]);
    } else if j == s.len() {
        assert(s.take(j).push(x) + s.skip(j) =~= s.push(x));
    } else {
        lemma_insert_at(s.drop_last(), x, j);
        assert(s.drop_last().take(j).push(x) + s.drop_last().skip(j) + seq![s.last()] =~= s.take(j).push(x) + s.skip(j));
    }
}

fn sort_ranges(v: Vec<ByteRange>) -> (r: Vec<ByteRange>)
    ensures
        r@ == sort_by_start(v@),
{
    let ghost orig = v@;
    let mut v = v;
    let mut rev: Vec<ByteRange> = Vec::new();
    // take the ranges from the back so that they come out in order
    while v.len() > 0
        invariant
            orig == v@ + rev@.reverse(),
        decreases v@.len(),
    {
        let x = v.pop().unwrap();
        rev.push(x);
        assert(orig =~= v@ + rev@.reverse());
    }
    let mut r: Vec<ByteRange> = Vec::new();
    let n = rev.len();
    let mut i: usize = 0;
    assert(orig =~= rev@.reverse());
    while i < n
        invariant
            n == rev@.len(),
            i <= n,
            orig == rev@.reverse(),
            r@ == sort_by_start(orig.take(i as int)),
        decreases n - i,
    {
        let x = ByteRange(rev[n - 1 - i].0, rev[n - 1 - i].1);
        assert(x == orig[i as int]);
        let mut j: usize = r.len();
        while j > 0 && r[j - 1].0 > x.0
            invariant
                j <= r@.len(),
                forall|k: int| j <= k < r@.len() ==> #[trigger] r@[k].0 > x.0,
            decreases j,
        {
            j = j - 1;
        }
        proof {
            lemma_insert_at(r@, x, j as int);
            assert(orig.take(i + 1).drop_last() =~= orig.take(i as int));
        }
        r.insert(j, x);
        assert(r@ =~= sort_by_start(orig.take(i + 1)));
        i = i + 1;
    }
    assert(orig.take(n as int) =~= orig);
    r
}

proof fn lemma_insert_members(s: Seq<ByteRange>, x: ByteRange)
    ensures
        forall|y: ByteRange| #[trigger] insert_by_start(s, x).contains(y) ==> s.contains(y) || y == x,
    decreases s.len(),
{
    if s.len() > 0 && s.last().0 > x.0 {
        lemma_insert_members(s.drop_last(), x);
        assert forall|y: ByteRange| #[trigger] insert_by_start(s, x).contains(y) implies s.contains(y) || y == x by {
            let t = insert_by_start(s.drop_last(), x);
            assert(insert_by_start(s, x) == t.push(s.last()));
            let k = choose|k: int| 0 <= k < t.push(s.last()).len() && t.push(s.last())[k] == y;
            if k < t.len() {
                assert(t[k] == y);
                assert(t.contains(y));
                if s.drop_last().contains(y) {
                    let m = choose|m: int| 0 <= m < s.drop_last().len() && s.drop_last()[m] == y;
                    assert(s[m] == y);
                }
            } else {
                assert(s[s.len() - 1] == y);
            }
        }
    } else if s.len() > 0 {
        assert forall|y: ByteRange| #[trigger] insert_by_start(s, x).contains(y) implies s.contains(y) || y == x by {
            let k = choose|k: int| 0 <= k < s.push(x).len() && s.push(x)[k] == y;
            if k < s.len() {
                assert(s[k] == y);
            }
        }
    } else {
        assert forall|y: ByteRange| #[trigger] insert_by_start(s, x).contains(y) implies s.contains(y) || y == x by {
            assert(seq![x][0] == x);
        }
    }
}

/// Sorting keeps only ranges that were there.
proof fn lemma_sort_by_start_members(s: Seq<ByteRange>)
    ensures
        forall|y: ByteRange| #[trigger] sort_by_start(s).contains(y) ==> s.contains(y),
    decreases s.len(),
{
    if s.len() > 0 {
        lemma_sort_by_start_members(s.drop_last());
        lemma_insert_members(sort_by_start(s.drop_last()), s.last());
        assert forall|y: ByteRange| #[trigger] sort_by_start(s).contains(y) implies s.contains(y) by {
            if sort_by_start(s.drop_last()).contains(y) {
                assert(s.drop_last().contains(y));
                let m = choose|m: int| 0 <= m < s.drop_last().len() && s.drop_last()[m] == y;
                assert(s[m] == y);
            } else {
                assert(s[s.len() - 1] == y);
            }
        }
    }
}

/// `String::from_utf8` of std: the string whose UTF-8 encoding is `v`, when
/// `v` is valid UTF-8.
#[verifier::external_body]
fn string_from_utf8(v: Vec<u8>) -> (r: Option<String>)
    ensures
        r is Some <==> vstd::utf8::valid_utf8(v@),
        r matches Some(s) ==> vstd::utf8::encode_utf8(s@) == v@,
{
    String::from_utf8(v).ok()
}

/// The bytes of `source` that the ranges of `remove` leave, taken with the
/// ranges in order of their start.
pub open spec fn remaining_bytes(source: &str, remove: Seq<ByteRange>) -> Seq<u8> {
    kept_bytes(source.spec_bytes(), sort_by_start(remove), 0)
}

/// The text of `source` without the bytes that the ranges of `remove`
/// cover.
pub fn remove_byte_ranges(source: &str, remove: Vec<ByteRange>) -> (r: String)
    requires
        forall|i: int| 0 <= i < remove@.len() ==> (#[trigger] remove@[i]).0 <= source.spec_bytes().len(),
        vstd::utf8::valid_utf8(remaining_bytes(source, remove@)),
    ensures
        vstd::utf8::encode_utf8(r@) == remaining_bytes(source, remove@),
{
    let b = source.as_bytes();
    let ghost bs = source.spec_bytes();
    let sorted = sort_ranges(remove);
    proof {
        lemma_sort_by_start_members(remove@);
        assert forall|k: int| 0 <= k < sorted@.len() implies (#[trigger] sorted@[k]).0 <= bs.len() by {
            assert(sorted@.contains(sorted@[k]));
            let m = choose|m: int| 0 <= m < remove@.len() && remove@[m] == sorted@[k];
        }
    }
    let mut result: Vec<u8> = Vec::new();
    let mut src_pos: usize = 0;
    let mut i: usize = 0;
    assert(sorted@.skip(0) =~= sorted@);
    while i < sorted.len()
        invariant
            b@ == bs,
            i <= sorted@.len(),
            forall|k: int| 0 <= k < sorted@.len() ==> (#[trigger] sorted@[k]).0 <= bs.len(),
            result@ + kept_bytes(bs, sorted@.skip(i as int), src_pos as int) == kept_bytes(bs, sorted@, 0),
        decreases sorted@.len() - i,
    {
        let start = sorted[i].0;
        let end = sorted[i].1;
        assert(sorted@.skip(i as int).drop_first() =~= sorted@.skip(i + 1));
        let ghost old_result = result@;
        let ghost old_pos = src_pos as int;
        if src_pos < start {
            push_bytes(&mut result, b, src_pos, start);
        }
        if end > src_pos {
            src_pos = end;
        }
        assert(sorted@.skip(i as int)[0] == sorted@[i as int]);
        assert(kept_bytes(bs, sorted@.skip(i as int), old_pos)
            == (if old_pos < start { bs.subrange(old_pos, start as int) } else { seq![] })
                + kept_bytes(bs, sorted@.skip(i + 1), src_pos as int));
        assert(result@ =~= old_result + (if old_pos < start { bs.subrange(old_pos, start as int) } else { seq![] }));
        assert(result@ + kept_bytes(bs, sorted@.skip(i + 1), src_pos as int)
            =~= old_result + kept_bytes(bs, sorted@.skip(i as int), old_pos));
        i = i + 1;
    }
    if src_pos < b.len() {
        push_bytes(&mut result, b, src_pos, b.len());
    }
    match string_from_utf8(result) {
        Some(s) => s,
        None => {
            assert(false);
            String::new()
        },
    }
}


/// The node `n` points at.
pub open spec fn node_at(n: Rc<Node>) -> Node {
    *n
}

/// Every range of the annotations found in each of `kids` is among
/// `found`, where `found` is known.
pub open spec fn covers(found: Option<Seq<ByteRange>>, kids: Seq<Rc<Node>>) -> bool {
    found is Some ==> {
        &&& forall|j: int| 0 <= j < kids.len() ==> stripped(#[trigger] kids[j]) is Some
        &&& forall|j: int, x: int| 0 <= j < kids.len() && 0 <= x < stripped(kids[j])->0.len()
            ==> found->0.contains(#[trigger] stripped(kids[j])->0[x])
    }
}

proof fn lemma_covers_one(c: Rc<Node>)
    ensures
        covers(stripped(c), seq![c]),
{
    if stripped(c) is Some {
        let s = stripped(c)->0;
        assert forall|j: int| 0 <= j < seq![c].len() implies stripped(#[trigger] seq![c][j]) is Some by {
            assert(seq![c][j] == c);
        }
        assert forall|j: int, x: int| 0 <= j < seq![c].len() && 0 <= x < stripped(seq![c][j])->0.len()
            implies s.contains(#[trigger] stripped(seq![c][j])->0[x]) by {
            assert(seq![c][j] == c);
            assert(s[x] == stripped(seq![c][j])->0[x]);
        }
    }
}

proof fn lemma_covers_opt(o: Option<Rc<Node>>)
    ensures
        covers(stripped_opt(o), opt_nodes(o)),
{
    if let Some(c) = o {
        lemma_covers_one(c);
    }
}

proof fn lemma_covers_cat(a: Option<Seq<ByteRange>>, k1: Seq<Rc<Node>>, b: Option<Seq<ByteRange>>, k2: Seq<Rc<Node>>)
    requires
        covers(a, k1),
        covers(b, k2),
    ensures
        covers(cat(a, b), k1 + k2),
{
    if a is Some && b is Some {
        let x0 = a->0;
        let y0 = b->0;
        let k = k1 + k2;
        assert(cat(a, b) == Some(x0 + y0));
        assert forall|j: int| 0 <= j < k.len() implies stripped(#[trigger] k[j]) is Some by {
            if j < k1.len() {
                assert(k[j] == k1[j]);
            } else {
                assert(k[j] == k2[j - k1.len()]);
            }
        }
        assert forall|j: int, x: int| 0 <= j < k.len() && 0 <= x < stripped(k[j])->0.len()
            implies (x0 + y0).contains(#[trigger] stripped(k[j])->0[x]) by {
            if j < k1.len() {
                assert(k[j] == k1[j]);
                let v = stripped(k1[j])->0[x];
                assert(x0.contains(v));
                let w = choose|w: int| 0 <= w < x0.len() && x0[w] == v;
                assert((x0 + y0)[w] == v);
            } else {
                let j2 = j - k1.len();
                assert(k[j] == k2[j2]);
                let v = stripped(k2[j2])->0[x];
                assert(y0.contains(v));
                let w = choose|w: int| 0 <= w < y0.len() && y0[w] == v;
                assert((x0 + y0)[x0.len() + w] == v);
            }
        }
    }
}

proof fn lemma_covers_list(s: Seq<Rc<Node>>)
    ensures
        covers(stripped_list(s), s),
    decreases s.len(),
{
    if s.len() > 0 {
        lemma_covers_list(s.drop_last());
        lemma_covers_one(s.last());
        lemma_covers_cat(stripped_list(s.drop_last()), s.drop_last(), stripped(s.last()), seq![s.last()]);
        assert(s.drop_last() + seq![s.last()] =~= s);
    }
}

proof fn lemma_covers_args(n: Rc<Node>)
    requires
        node_at(n) is Args,
        !(node_at(n) matches Node::Args(_, s) && s@.len() > 0 && is_anonymous_block(s@.last())),
    ensures
        covers(stripped(n), children(*n)),
{
    match node_at(n) {
        Node::Args(_, f0) => {
            lemma_covers_list(f0@);
            assert(children(*n) =~= f0@);
        },
        _ => {},
    }
}

proof fn lemma_covers_alias(n: Rc<Node>)
    requires
        node_at(n) is Alias,
    ensures
        covers(stripped(n), children(*n)),
{
    match node_at(n) {
        Node::Alias(_, f0, f1) => {
            lemma_covers_one(f0);
            lemma_covers_one(f1);
            lemma_covers_cat(stripped(f0), seq![f0], stripped(f1), seq![f1]);
            assert(children(*n) =~= seq![f0] + seq![f1]);
        },
        _ => {},
    }
}

proof fn lemma_covers_and(n: Rc<Node>)
    requires
        node_at(n) is And,
    ensures
        covers(stripped(n), children(*n)),
{
    match node_at(n) {
        Node::And(_, f0, f1) => {
            lemma_covers_one(f0);
            lemma_covers_one(f1);
            lemma_covers_cat(stripped(f0), seq![f0], stripped(f1), seq![f1]);
            assert(children(*n) =~= seq![f0] + seq![f1]);
        },
        _ => {},
    }
}

proof fn lemma_covers_andasgn(n: Rc<Node>)
    requires
        node_at(n) is AndAsgn,
    ensures
        covers(stripped(n), children(*n)),
{
    match node_at(n) {
        Node::AndAsgn(_, f0, f1) => {
            lemma_covers_one(f0);
            lemma_covers_one(f1);
            lemma_covers_cat(stripped(f0), seq![f0], stripped(f1), seq![f1]);
            assert(children(*n) =~= seq![f0] + seq![f1]);
        },
        _ => {},
    }
}

proof fn lemma_covers_arg(n: Rc<Node>)
    requires
        node_at(n) is Arg,
    ensures
        covers(stripped(n), children(*n)),
{
    match node_at(n) {
        Node::Arg(..) => {
            assert(children(*n) =~= Seq::<Rc<Node>>::empty());
        },
        _ => {},
    }
}

proof fn lemma_covers_array(n: Rc<Node>)
    requires
        node_at(n) is Array,
    ensures
        covers(stripped(n), children(*n)),
{
    match node_at(n) {
        Node::Array(_, f0) => {
            lemma_covers_list(f0@);
            assert(children(*n) =~= f0@);
        },
        _ => {},
    }
}

proof fn lemma_covers_backref(n: Rc<Node>)
    requires
        node_at(n) is Backref,
    ensures
        covers(stripped(n), children(*n)),
{
    match node_at(n) {
        Node::Backref(..) => {
            assert(children(*n) =~= Seq::<Rc<Node>>::empty());
        },
        _ => {},
    }
}

proof fn lemma_covers_begin(n: Rc<Node>)
    requires
        node_at(n) is Begin,
    ensures
        covers(stripped(n), children(*n)),
{
    match node_at(n) {
        Node::Begin(_, f0) => {
            lemma_covers_list(f0@);
            assert(children(*n) =~= f0@);
        },
        _ => {},
    }
}

proof fn lemma_covers_block(n: Rc<Node>)
    requires
        node_at(n) is Block,
    ensures
        covers(stripped(n), children(*n)),
{
    match node_at(n) {
        Node::Block(_, f0, f1, f2) => {
            lemma_covers_one(f0);
            lemma_covers_one(f1);
            lemma_covers_cat(stripped(f0), seq![f0], stripped(f1), seq![f1]);
            lemma_covers_opt(f2);
            lemma_covers_cat(cat(stripped(f0), stripped(f1)), seq![f0] + seq![f1], stripped_opt(f2), opt_nodes(f2));
            assert(children(*n) =~= seq![f0] + seq![f1] + opt_nodes(f2));
        },
        _ => {},
    }
}

proof fn lemma_covers_blockarg(n: Rc<Node>)
    requires
        node_at(n) is Blockarg,
    ensures
        covers(stripped(n), children(*n)),
{
    match node_at(n) {
        Node::Blockarg(..) => {
            assert(children(*n) =~= Seq::<Rc<Node>>::empty());
        },
        _ => {},
    }
}

proof fn lemma_covers_blockpass(n: Rc<Node>)
    requires
        node_at(n) is BlockPass,
    ensures
        covers(stripped(n), children(*n)),
{
    match node_at(n) {
        Node::BlockPass(_, f0) => {
            lemma_covers_one(f0);
            assert(children(*n) =~= seq![f0]);
        },
        _ => {},
    }
}

proof fn lemma_covers_break(n: Rc<Node>)
    requires
        node_at(n) is Break,
    ensures
        covers(stripped(n), children(*n)),
{
    match node_at(n) {
        Node::Break(_, f0) => {
            lemma_covers_list(f0@);
            assert(children(*n) =~= f0@);
        },
        _ => {},
    }
}

proof fn lemma_covers_case(n: Rc<Node>)
    requires
        node_at(n) is Case,
    ensures
        covers(stripped(n), children(*n)),
{
    match node_at(n) {
        Node::Case(_, f0, f1, f2) => {
            lemma_covers_opt(f0);
            lemma_covers_list(f1@);
            lemma_covers_cat(stripped_opt(f0), opt_nodes(f0), stripped_list(f1@), f1@);
            lemma_covers_opt(f2);
            lemma_covers_cat(cat(stripped_opt(f0), stripped_list(f1@)), opt_nodes(f0) + f1@, stripped_opt(f2), opt_nodes(f2));
            assert(children(*n) =~= opt_nodes(f0) + f1@ + opt_nodes(f2));
        },
        _ => {},
    }
}

proof fn lemma_covers_cbase(n: Rc<Node>)
    requires
        node_at(n) is Cbase,
    ensures
        covers(stripped(n), children(*n)),
{
    match node_at(n) {
        Node::Cbase(..) => {
            assert(children(*n) =~= Seq::<Rc<Node>>::empty());
        },
        _ => {},
    }
}

proof fn lemma_covers_class(n: Rc<Node>)
    requires
        node_at(n) is Class,
    ensures
        covers(stripped(n), children(*n)),
{
    match node_at(n) {
        Node::Class(_, f0, f1, f2) => {
            lemma_covers_one(f0);
            lemma_covers_opt(f1);
            lemma_covers_cat(stripped(f0), seq![f0], stripped_opt(f1), opt_nodes(f1));
            lemma_covers_opt(f2);
            lemma_covers_cat(cat(stripped(f0), stripped_opt(f1)), seq![f0] + opt_nodes(f1), stripped_opt(f2), opt_nodes(f2));
            assert(children(*n) =~= seq![f0] + opt_nodes(f1) + opt_nodes(f2));
        },
        _ => {},
    }
}

proof fn lemma_covers_complex(n: Rc<Node>)
    requires
        node_at(n) is Complex,
    ensures
        covers(stripped(n), children(*n)),
{
    match node_at(n) {
        Node::Complex(..) => {
            assert(children(*n) =~= Seq::<Rc<Node>>::empty());
        },
        _ => {},
    }
}

proof fn lemma_covers_const(n: Rc<Node>)
    requires
        node_at(n) is Const,
    ensures
        covers(stripped(n), children(*n)),
{
    match node_at(n) {
        Node::Const(_, f0, _) => {
            lemma_covers_opt(f0);
            assert(children(*n) =~= opt_nodes(f0));
        },
        _ => {},
    }
}

proof fn lemma_covers_constasgn(n: Rc<Node>)
    requires
        node_at(n) is ConstAsgn,
    ensures
        covers(stripped(n), children(*n)),
{
    match node_at(n) {
        Node::ConstAsgn(_, f0, _, f2) => {
            lemma_covers_opt(f0);
            lemma_covers_one(f2);
            lemma_covers_cat(stripped_opt(f0), opt_nodes(f0), stripped(f2), seq![f2]);
            assert(children(*n) =~= opt_nodes(f0) + seq![f2]);
        },
        _ => {},
    }
}

proof fn lemma_covers_constlhs(n: Rc<Node>)
    requires
        node_at(n) is ConstLhs,
    ensures
        covers(stripped(n), children(*n)),
{
    match node_at(n) {
        Node::ConstLhs(_, f0, _) => {
            lemma_covers_opt(f0);
            assert(children(*n) =~= opt_nodes(f0));
        },
        _ => {},
    }
}

proof fn lemma_covers_csend(n: Rc<Node>)
    requires
        node_at(n) is CSend,
    ensures
        covers(stripped(n), children(*n)),
{
    match node_at(n) {
        Node::CSend(_, f0, _, f2) => {
            lemma_covers_opt(f0);
            lemma_covers_list(f2@);
            lemma_covers_cat(stripped_opt(f0), opt_nodes(f0), stripped_list(f2@), f2@);
            assert(children(*n) =~= opt_nodes(f0) + f2@);
        },
        _ => {},
    }
}

proof fn lemma_covers_cvar(n: Rc<Node>)
    requires
        node_at(n) is Cvar,
    ensures
        covers(stripped(n), children(*n)),
{
    match node_at(n) {
        Node::Cvar(..) => {
            assert(children(*n) =~= Seq::<Rc<Node>>::empty());
        },
        _ => {},
    }
}

proof fn lemma_covers_cvarasgn(n: Rc<Node>)
    requires
        node_at(n) is CvarAsgn,
    ensures
        covers(stripped(n), children(*n)),
{
    match node_at(n) {
        Node::CvarAsgn(_, _, f1) => {
            lemma_covers_one(f1);
            assert(children(*n) =~= seq![f1]);
        },
        _ => {},
    }
}

proof fn lemma_covers_cvarlhs(n: Rc<Node>)
    requires
        node_at(n) is CvarLhs,
    ensures
        covers(stripped(n), children(*n)),
{
    match node_at(n) {
        Node::CvarLhs(..) => {
            assert(children(*n) =~= Seq::<Rc<Node>>::empty());
        },
        _ => {},
    }
}

proof fn lemma_covers_def(n: Rc<Node>)
    requires
        node_at(n) is Def,
    ensures
        covers(stripped(n), children(*n)),
{
    match node_at(n) {
        Node::Def(_, _, f1, f2) => {
            lemma_covers_opt(f1);
            lemma_covers_opt(f2);
            lemma_covers_cat(stripped_opt(f1), opt_nodes(f1), stripped_opt(f2), opt_nodes(f2));
            assert(children(*n) =~= opt_nodes(f1) + opt_nodes(f2));
        },
        _ => {},
    }
}

proof fn lemma_covers_defined(n: Rc<Node>)
    requires
        node_at(n) is Defined,
    ensures
        covers(stripped(n), children(*n)),
{
    match node_at(n) {
        Node::Defined(_, f0) => {
            lemma_covers_one(f0);
            assert(children(*n) =~= seq![f0]);
        },
        _ => {},
    }
}

proof fn lemma_covers_defs(n: Rc<Node>)
    requires
        node_at(n) is Defs,
    ensures
        covers(stripped(n), children(*n)),
{
    match node_at(n) {
        Node::Defs(_, f0, _, f2, f3) => {
            lemma_covers_one(f0);
            lemma_covers_opt(f2);
            lemma_covers_cat(stripped(f0), seq![f0], stripped_opt(f2), opt_nodes(f2));
            lemma_covers_opt(f3);
            lemma_covers_cat(cat(stripped(f0), stripped_opt(f2)), seq![f0] + opt_nodes(f2), stripped_opt(f3), opt_nodes(f3));
            assert(children(*n) =~= seq![f0] + opt_nodes(f2) + opt_nodes(f3));
        },
        _ => {},
    }
}

proof fn lemma_covers_dstring(n: Rc<Node>)
    requires
        node_at(n) is DString,
    ensures
        covers(stripped(n), children(*n)),
{
    match node_at(n) {
        Node::DString(_, f0) => {
            lemma_covers_list(f0@);
            assert(children(*n) =~= f0@);
        },
        _ => {},
    }
}

proof fn lemma_covers_dsymbol(n: Rc<Node>)
    requires
        node_at(n) is DSymbol,
    ensures
        covers(stripped(n), children(*n)),
{
    match node_at(n) {
        Node::DSymbol(_, f0) => {
            lemma_covers_list(f0@);
            assert(children(*n) =~= f0@);
        },
        _ => {},
    }
}

proof fn lemma_covers_eflipflop(n: Rc<Node>)
    requires
        node_at(n) is EFlipflop,
    ensures
        covers(stripped(n), children(*n)),
{
    match node_at(n) {
        Node::EFlipflop(_, f0, f1) => {
            lemma_covers_one(f0);
            lemma_covers_one(f1);
            lemma_covers_cat(stripped(f0), seq![f0], stripped(f1), seq![f1]);
            assert(children(*n) =~= seq![f0] + seq![f1]);
        },
        _ => {},
    }
}

proof fn lemma_covers_encodingliteral(n: Rc<Node>)
    requires
        node_at(n) is EncodingLiteral,
    ensures
        covers(stripped(n), children(*n)),
{
    match node_at(n) {
        Node::EncodingLiteral(..) => {
            assert(children(*n) =~= Seq::<Rc<Node>>::empty());
        },
        _ => {},
    }
}

proof fn lemma_covers_ensure(n: Rc<Node>)
    requires
        node_at(n) is Ensure,
    ensures
        covers(stripped(n), children(*n)),
{
    match node_at(n) {
        Node::Ensure(_, f0, f1) => {
            lemma_covers_opt(f0);
            lemma_covers_one(f1);
            lemma_covers_cat(stripped_opt(f0), opt_nodes(f0), stripped(f1), seq![f1]);
            assert(children(*n) =~= opt_nodes(f0) + seq![f1]);
        },
        _ => {},
    }
}

proof fn lemma_covers_erange(n: Rc<Node>)
    requires
        node_at(n) is ERange,
    ensures
        covers(stripped(n), children(*n)),
{
    match node_at(n) {
        Node::ERange(_, f0, f1) => {
            lemma_covers_one(f0);
            lemma_covers_one(f1);
            lemma_covers_cat(stripped(f0), seq![f0], stripped(f1), seq![f1]);
            assert(children(*n) =~= seq![f0] + seq![f1]);
        },
        _ => {},
    }
}

proof fn lemma_covers_false(n: Rc<Node>)
    requires
        node_at(n) is False,
    ensures
        covers(stripped(n), children(*n)),
{
    match node_at(n) {
        Node::False(..) => {
            assert(children(*n) =~= Seq::<Rc<Node>>::empty());
        },
        _ => {},
    }
}

proof fn lemma_covers_fileliteral(n: Rc<Node>)
    requires
        node_at(n) is FileLiteral,
    ensures
        covers(stripped(n), children(*n)),
{
    match node_at(n) {
        Node::FileLiteral(..) => {
            assert(children(*n) =~= Seq::<Rc<Node>>::empty());
        },
        _ => {},
    }
}

proof fn lemma_covers_float(n: Rc<Node>)
    requires
        node_at(n) is Float,
    ensures
        covers(stripped(n), children(*n)),
{
    match node_at(n) {
        Node::Float(..) => {
            assert(children(*n) =~= Seq::<Rc<Node>>::empty());
        },
        _ => {},
    }
}

proof fn lemma_covers_for(n: Rc<Node>)
    requires
        node_at(n) is For,
    ensures
        covers(stripped(n), children(*n)),
{
    match node_at(n) {
        Node::For(_, f0, f1, f2) => {
            lemma_covers_one(f0);
            lemma_covers_one(f1);
            lemma_covers_cat(stripped(f0), seq![f0], stripped(f1), seq![f1]);
            lemma_covers_opt(f2);
            lemma_covers_cat(cat(stripped(f0), stripped(f1)), seq![f0] + seq![f1], stripped_opt(f2), opt_nodes(f2));
            assert(children(*n) =~= seq![f0] + seq![f1] + opt_nodes(f2));
        },
        _ => {},
    }
}

proof fn lemma_covers_gvar(n: Rc<Node>)
    requires
        node_at(n) is Gvar,
    ensures
        covers(stripped(n), children(*n)),
{
    match node_at(n) {
        Node::Gvar(..) => {
            assert(children(*n) =~= Seq::<Rc<Node>>::empty());
        },
        _ => {},
    }
}

proof fn lemma_covers_gvarasgn(n: Rc<Node>)
    requires
        node_at(n) is GvarAsgn,
    ensures
        covers(stripped(n), children(*n)),
{
    match node_at(n) {
        Node::GvarAsgn(_, _, f1) => {
            lemma_covers_one(f1);
            assert(children(*n) =~= seq![f1]);
        },
        _ => {},
    }
}

proof fn lemma_covers_gvarlhs(n: Rc<Node>)
    requires
        node_at(n) is GvarLhs,
    ensures
        covers(stripped(n), children(*n)),
{
    match node_at(n) {
        Node::GvarLhs(..) => {
            assert(children(*n) =~= Seq::<Rc<Node>>::empty());
        },
        _ => {},
    }
}

proof fn lemma_covers_hash(n: Rc<Node>)
    requires
        node_at(n) is Hash,
    ensures
        covers(stripped(n), children(*n)),
{
    match node_at(n) {
        Node::Hash(_, f0) => {
            lemma_covers_list(f0@);
            assert(children(*n) =~= f0@);
        },
        _ => {},
    }
}

proof fn lemma_covers_ident(n: Rc<Node>)
    requires
        node_at(n) is Ident,
    ensures
        covers(stripped(n), children(*n)),
{
    match node_at(n) {
        Node::Ident(..) => {
            assert(children(*n) =~= Seq::<Rc<Node>>::empty());
        },
        _ => {},
    }
}

proof fn lemma_covers_if(n: Rc<Node>)
    requires
        node_at(n) is If,
    ensures
        covers(stripped(n), children(*n)),
{
    match node_at(n) {
        Node::If(_, f0, f1, f2) => {
            lemma_covers_one(f0);
            lemma_covers_opt(f1);
            lemma_covers_cat(stripped(f0), seq![f0], stripped_opt(f1), opt_nodes(f1));
            lemma_covers_opt(f2);
            lemma_covers_cat(cat(stripped(f0), stripped_opt(f1)), seq![f0] + opt_nodes(f1), stripped_opt(f2), opt_nodes(f2));
            assert(children(*n) =~= seq![f0] + opt_nodes(f1) + opt_nodes(f2));
        },
        _ => {},
    }
}

proof fn lemma_covers_iflipflop(n: Rc<Node>)
    requires
        node_at(n) is IFlipflop,
    ensures
        covers(stripped(n), children(*n)),
{
    match node_at(n) {
        Node::IFlipflop(_, f0, f1) => {
            lemma_covers_one(f0);
            lemma_covers_one(f1);
            lemma_covers_cat(stripped(f0), seq![f0], stripped(f1), seq![f1]);
            assert(children(*n) =~= seq![f0] + seq![f1]);
        },
        _ => {},
    }
}

proof fn lemma_covers_integer(n: Rc<Node>)
    requires
        node_at(n) is Integer,
    ensures
        covers(stripped(n), children(*n)),
{
    match node_at(n) {
        Node::Integer(..) => {
            assert(children(*n) =~= Seq::<Rc<Node>>::empty());
        },
        _ => {},
    }
}

proof fn lemma_covers_irange(n: Rc<Node>)
    requires
        node_at(n) is IRange,
    ensures
        covers(stripped(n), children(*n)),
{
    match node_at(n) {
        Node::IRange(_, f0, f1) => {
            lemma_covers_one(f0);
            lemma_covers_one(f1);
            lemma_covers_cat(stripped(f0), seq![f0], stripped(f1), seq![f1]);
            assert(children(*n) =~= seq![f0] + seq![f1]);
        },
        _ => {},
    }
}

proof fn lemma_covers_ivar(n: Rc<Node>)
    requires
        node_at(n) is Ivar,
    ensures
        covers(stripped(n), children(*n)),
{
    match node_at(n) {
        Node::Ivar(..) => {
            assert(children(*n) =~= Seq::<Rc<Node>>::empty());
        },
        _ => {},
    }
}

proof fn lemma_covers_ivarasgn(n: Rc<Node>)
    requires
        node_at(n) is IvarAsgn,
    ensures
        covers(stripped(n), children(*n)),
{
    match node_at(n) {
        Node::IvarAsgn(_, _, f1) => {
            lemma_covers_one(f1);
            assert(children(*n) =~= seq![f1]);
        },
        _ => {},
    }
}

proof fn lemma_covers_ivarlhs(n: Rc<Node>)
    requires
        node_at(n) is IvarLhs,
    ensures
        covers(stripped(n), children(*n)),
{
    match node_at(n) {
        Node::IvarLhs(..) => {
            assert(children(*n) =~= Seq::<Rc<Node>>::empty());
        },
        _ => {},
    }
}

proof fn lemma_covers_kwarg(n: Rc<Node>)
    requires
        node_at(n) is Kwarg,
    ensures
        covers(stripped(n), children(*n)),
{
    match node_at(n) {
        Node::Kwarg(..) => {
            assert(children(*n) =~= Seq::<Rc<Node>>::empty());
        },
        _ => {},
    }
}

proof fn lemma_covers_kwbegin(n: Rc<Node>)
    requires
        node_at(n) is Kwbegin,
    ensures
        covers(stripped(n), children(*n)),
{
    match node_at(n) {
        Node::Kwbegin(_, f0) => {
            lemma_covers_list(f0@);
            assert(children(*n) =~= f0@);
        },
        _ => {},
    }
}

proof fn lemma_covers_kwoptarg(n: Rc<Node>)
    requires
        node_at(n) is Kwoptarg,
    ensures
        covers(stripped(n), children(*n)),
{
    match node_at(n) {
        Node::Kwoptarg(_, _, f1) => {
            lemma_covers_one(f1);
            assert(children(*n) =~= seq![f1]);
        },
        _ => {},
    }
}

proof fn lemma_covers_kwrestarg(n: Rc<Node>)
    requires
        node_at(n) is Kwrestarg,
    ensures
        covers(stripped(n), children(*n)),
{
    match node_at(n) {
        Node::Kwrestarg(..) => {
            assert(children(*n) =~= Seq::<Rc<Node>>::empty());
        },
        _ => {},
    }
}

proof fn lemma_covers_kwsplat(n: Rc<Node>)
    requires
        node_at(n) is Kwsplat,
    ensures
        covers(stripped(n), children(*n)),
{
    match node_at(n) {
        Node::Kwsplat(_, f0) => {
            lemma_covers_one(f0);
            assert(children(*n) =~= seq![f0]);
        },
        _ => {},
    }
}

proof fn lemma_covers_lambda(n: Rc<Node>)
    requires
        node_at(n) is Lambda,
    ensures
        covers(stripped(n), children(*n)),
{
    match node_at(n) {
        Node::Lambda(..) => {
            assert(children(*n) =~= Seq::<Rc<Node>>::empty());
        },
        _ => {},
    }
}

proof fn lemma_covers_lineliteral(n: Rc<Node>)
    requires
        node_at(n) is LineLiteral,
    ensures
        covers(stripped(n), children(*n)),
{
    match node_at(n) {
        Node::LineLiteral(..) => {
            assert(children(*n) =~= Seq::<Rc<Node>>::empty());
        },
        _ => {},
    }
}

proof fn lemma_covers_lvar(n: Rc<Node>)
    requires
        node_at(n) is Lvar,
    ensures
        covers(stripped(n), children(*n)),
{
    match node_at(n) {
        Node::Lvar(..) => {
            assert(children(*n) =~= Seq::<Rc<Node>>::empty());
        },
        _ => {},
    }
}

proof fn lemma_covers_lvarasgn(n: Rc<Node>)
    requires
        node_at(n) is LvarAsgn,
    ensures
        covers(stripped(n), children(*n)),
{
    match node_at(n) {
        Node::LvarAsgn(_, _, f1) => {
            lemma_covers_one(f1);
            assert(children(*n) =~= seq![f1]);
        },
        _ => {},
    }
}

proof fn lemma_covers_lvarlhs(n: Rc<Node>)
    requires
        node_at(n) is LvarLhs,
    ensures
        covers(stripped(n), children(*n)),
{
    match node_at(n) {
        Node::LvarLhs(..) => {
            assert(children(*n) =~= Seq::<Rc<Node>>::empty());
        },
        _ => {},
    }
}

proof fn lemma_covers_masgn(n: Rc<Node>)
    requires
        node_at(n) is Masgn,
    ensures
        covers(stripped(n), children(*n)),
{
    match node_at(n) {
        Node::Masgn(_, f0, f1) => {
            lemma_covers_one(f0);
            lemma_covers_one(f1);
            lemma_covers_cat(stripped(f0), seq![f0], stripped(f1), seq![f1]);
            assert(children(*n) =~= seq![f0] + seq![f1]);
        },
        _ => {},
    }
}

proof fn lemma_covers_matchasgn(n: Rc<Node>)
    requires
        node_at(n) is MatchAsgn,
    ensures
        covers(stripped(n), children(*n)),
{
    match node_at(n) {
        Node::MatchAsgn(_, f0, f1) => {
            lemma_covers_one(f0);
            lemma_covers_one(f1);
            lemma_covers_cat(stripped(f0), seq![f0], stripped(f1), seq![f1]);
            assert(children(*n) =~= seq![f0] + seq![f1]);
        },
        _ => {},
    }
}

proof fn lemma_covers_matchcurline(n: Rc<Node>)
    requires
        node_at(n) is MatchCurLine,
    ensures
        covers(stripped(n), children(*n)),
{
    match node_at(n) {
        Node::MatchCurLine(_, f0) => {
            lemma_covers_one(f0);
            assert(children(*n) =~= seq![f0]);
        },
        _ => {},
    }
}

proof fn lemma_covers_mlhs(n: Rc<Node>)
    requires
        node_at(n) is Mlhs,
    ensures
        covers(stripped(n), children(*n)),
{
    match node_at(n) {
        Node::Mlhs(_, f0) => {
            lemma_covers_list(f0@);
            assert(children(*n) =~= f0@);
        },
        _ => {},
    }
}

proof fn lemma_covers_module(n: Rc<Node>)
    requires
        node_at(n) is Module,
    ensures
        covers(stripped(n), children(*n)),
{
    match node_at(n) {
        Node::Module(_, f0, f1) => {
            lemma_covers_one(f0);
            lemma_covers_opt(f1);
            lemma_covers_cat(stripped(f0), seq![f0], stripped_opt(f1), opt_nodes(f1));
            assert(children(*n) =~= seq![f0] + opt_nodes(f1));
        },
        _ => {},
    }
}

proof fn lemma_covers_next(n: Rc<Node>)
    requires
        node_at(n) is Next,
    ensures
        covers(stripped(n), children(*n)),
{
    match node_at(n) {
        Node::Next(_, f0) => {
            lemma_covers_list(f0@);
            assert(children(*n) =~= f0@);
        },
        _ => {},
    }
}

proof fn lemma_covers_nil(n: Rc<Node>)
    requires
        node_at(n) is Nil,
    ensures
        covers(stripped(n), children(*n)),
{
    match node_at(n) {
        Node::Nil(..) => {
            assert(children(*n) =~= Seq::<Rc<Node>>::empty());
        },
        _ => {},
    }
}

proof fn lemma_covers_nthref(n: Rc<Node>)
    requires
        node_at(n) is NthRef,
    ensures
        covers(stripped(n), children(*n)),
{
    match node_at(n) {
        Node::NthRef(..) => {
            assert(children(*n) =~= Seq::<Rc<Node>>::empty());
        },
        _ => {},
    }
}

proof fn lemma_covers_opasgn(n: Rc<Node>)
    requires
        node_at(n) is OpAsgn,
    ensures
        covers(stripped(n), children(*n)),
{
    match node_at(n) {
        Node::OpAsgn(_, f0, _, f2) => {
            lemma_covers_one(f0);
            lemma_covers_one(f2);
            lemma_covers_cat(stripped(f0), seq![f0], stripped(f2), seq![f2]);
            assert(children(*n) =~= seq![f0] + seq![f2]);
        },
        _ => {},
    }
}

proof fn lemma_covers_optarg(n: Rc<Node>)
    requires
        node_at(n) is Optarg,
    ensures
        covers(stripped(n), children(*n)),
{
    match node_at(n) {
        Node::Optarg(_, _, f1) => {
            lemma_covers_one(f1);
            assert(children(*n) =~= seq![f1]);
        },
        _ => {},
    }
}

proof fn lemma_covers_or(n: Rc<Node>)
    requires
        node_at(n) is Or,
    ensures
        covers(stripped(n), children(*n)),
{
    match node_at(n) {
        Node::Or(_, f0, f1) => {
            lemma_covers_one(f0);
            lemma_covers_one(f1);
            lemma_covers_cat(stripped(f0), seq![f0], stripped(f1), seq![f1]);
            assert(children(*n) =~= seq![f0] + seq![f1]);
        },
        _ => {},
    }
}

proof fn lemma_covers_orasgn(n: Rc<Node>)
    requires
        node_at(n) is OrAsgn,
    ensures
        covers(stripped(n), children(*n)),
{
    match node_at(n) {
        Node::OrAsgn(_, f0, f1) => {
            lemma_covers_one(f0);
            lemma_covers_one(f1);
            lemma_covers_cat(stripped(f0), seq![f0], stripped(f1), seq![f1]);
            assert(children(*n) =~= seq![f0] + seq![f1]);
        },
        _ => {},
    }
}

proof fn lemma_covers_pair(n: Rc<Node>)
    requires
        node_at(n) is Pair,
    ensures
        covers(stripped(n), children(*n)),
{
    match node_at(n) {
        Node::Pair(_, f0, f1) => {
            lemma_covers_one(f0);
            lemma_covers_one(f1);
            lemma_covers_cat(stripped(f0), seq![f0], stripped(f1), seq![f1]);
            assert(children(*n) =~= seq![f0] + seq![f1]);
        },
        _ => {},
    }
}

proof fn lemma_covers_postexe(n: Rc<Node>)
    requires
        node_at(n) is Postexe,
    ensures
        covers(stripped(n), children(*n)),
{
    match node_at(n) {
        Node::Postexe(_, f0) => {
            lemma_covers_opt(f0);
            assert(children(*n) =~= opt_nodes(f0));
        },
        _ => {},
    }
}

proof fn lemma_covers_preexe(n: Rc<Node>)
    requires
        node_at(n) is Preexe,
    ensures
        covers(stripped(n), children(*n)),
{
    match node_at(n) {
        Node::Preexe(_, f0) => {
            lemma_covers_opt(f0);
            assert(children(*n) =~= opt_nodes(f0));
        },
        _ => {},
    }
}

proof fn lemma_covers_procarg0(n: Rc<Node>)
    requires
        node_at(n) is Procarg0,
    ensures
        covers(stripped(n), children(*n)),
{
    match node_at(n) {
        Node::Procarg0(_, f0) => {
            lemma_covers_one(f0);
            assert(children(*n) =~= seq![f0]);
        },
        _ => {},
    }
}

proof fn lemma_covers_rational(n: Rc<Node>)
    requires
        node_at(n) is Rational,
    ensures
        covers(stripped(n), children(*n)),
{
    match node_at(n) {
        Node::Rational(..) => {
            assert(children(*n) =~= Seq::<Rc<Node>>::empty());
        },
        _ => {},
    }
}

proof fn lemma_covers_redo(n: Rc<Node>)
    requires
        node_at(n) is Redo,
    ensures
        covers(stripped(n), children(*n)),
{
    match node_at(n) {
        Node::Redo(..) => {
            assert(children(*n) =~= Seq::<Rc<Node>>::empty());
        },
        _ => {},
    }
}

proof fn lemma_covers_regexp(n: Rc<Node>)
    requires
        node_at(n) is Regexp,
        node_at(n) matches Node::Regexp(_, _, Some(o)) ==> *o is Regopt,
    ensures
        covers(stripped(n), children(*n)),
{
    match node_at(n) {
        Node::Regexp(_, f0, f1) => {
            lemma_covers_list(f0@);
            lemma_covers_opt(f1);
            lemma_covers_cat(stripped_list(f0@), f0@, stripped_opt(f1), opt_nodes(f1));
            assert(children(*n) =~= f0@ + opt_nodes(f1));
            if let Some(o) = f1 {
                assert(stripped(o) == Some(Seq::<ByteRange>::empty()));
                assert(stripped_list(f0@) is Some ==> cat(stripped_list(f0@), stripped_opt(f1))->0 =~= stripped_list(f0@)->0);
            } else {
                assert(stripped_list(f0@) is Some ==> cat(stripped_list(f0@), stripped_opt(f1))->0 =~= stripped_list(f0@)->0);
            }
        },
        _ => {},
    }
}

proof fn lemma_covers_regopt(n: Rc<Node>)
    requires
        node_at(n) is Regopt,
    ensures
        covers(stripped(n), children(*n)),
{
    match node_at(n) {
        Node::Regopt(..) => {
            assert(children(*n) =~= Seq::<Rc<Node>>::empty());
        },
        _ => {},
    }
}

proof fn lemma_covers_resbody(n: Rc<Node>)
    requires
        node_at(n) is Resbody,
    ensures
        covers(stripped(n), children(*n)),
{
    match node_at(n) {
        Node::Resbody(_, f0, f1, f2) => {
            lemma_covers_opt(f0);
            lemma_covers_opt(f1);
            lemma_covers_cat(stripped_opt(f0), opt_nodes(f0), stripped_opt(f1), opt_nodes(f1));
            lemma_covers_opt(f2);
            lemma_covers_cat(cat(stripped_opt(f0), stripped_opt(f1)), opt_nodes(f0) + opt_nodes(f1), stripped_opt(f2), opt_nodes(f2));
            assert(children(*n) =~= opt_nodes(f0) + opt_nodes(f1) + opt_nodes(f2));
        },
        _ => {},
    }
}

proof fn lemma_covers_rescue(n: Rc<Node>)
    requires
        node_at(n) is Rescue,
    ensures
        covers(stripped(n), children(*n)),
{
    match node_at(n) {
        Node::Rescue(_, f0, f1, f2) => {
            lemma_covers_opt(f0);
            lemma_covers_list(f1@);
            lemma_covers_cat(stripped_opt(f0), opt_nodes(f0), stripped_list(f1@), f1@);
            lemma_covers_opt(f2);
            lemma_covers_cat(cat(stripped_opt(f0), stripped_list(f1@)), opt_nodes(f0) + f1@, stripped_opt(f2), opt_nodes(f2));
            assert(children(*n) =~= opt_nodes(f0) + f1@ + opt_nodes(f2));
        },
        _ => {},
    }
}

proof fn lemma_covers_restarg(n: Rc<Node>)
    requires
        node_at(n) is Restarg,
    ensures
        covers(stripped(n), children(*n)),
{
    match node_at(n) {
        Node::Restarg(..) => {
            assert(children(*n) =~= Seq::<Rc<Node>>::empty());
        },
        _ => {},
    }
}

proof fn lemma_covers_retry(n: Rc<Node>)
    requires
        node_at(n) is Retry,
    ensures
        covers(stripped(n), children(*n)),
{
    match node_at(n) {
        Node::Retry(..) => {
            assert(children(*n) =~= Seq::<Rc<Node>>::empty());
        },
        _ => {},
    }
}

proof fn lemma_covers_return(n: Rc<Node>)
    requires
        node_at(n) is Return,
    ensures
        covers(stripped(n), children(*n)),
{
    match node_at(n) {
        Node::Return(_, f0) => {
            lemma_covers_list(f0@);
            assert(children(*n) =~= f0@);
        },
        _ => {},
    }
}

proof fn lemma_covers_sclass(n: Rc<Node>)
    requires
        node_at(n) is SClass,
    ensures
        covers(stripped(n), children(*n)),
{
    match node_at(n) {
        Node::SClass(_, f0, f1) => {
            lemma_covers_one(f0);
            lemma_covers_opt(f1);
            lemma_covers_cat(stripped(f0), seq![f0], stripped_opt(f1), opt_nodes(f1));
            assert(children(*n) =~= seq![f0] + opt_nodes(f1));
        },
        _ => {},
    }
}

proof fn lemma_covers_self_(n: Rc<Node>)
    requires
        node_at(n) is Self_,
    ensures
        covers(stripped(n), children(*n)),
{
    match node_at(n) {
        Node::Self_(..) => {
            assert(children(*n) =~= Seq::<Rc<Node>>::empty());
        },
        _ => {},
    }
}

proof fn lemma_covers_send(n: Rc<Node>)
    requires
        node_at(n) is Send,
    ensures
        covers(stripped(n), children(*n)),
{
    match node_at(n) {
        Node::Send(_, f0, _, f2) => {
            lemma_covers_opt(f0);
            lemma_covers_list(f2@);
            lemma_covers_cat(stripped_opt(f0), opt_nodes(f0), stripped_list(f2@), f2@);
            assert(children(*n) =~= opt_nodes(f0) + f2@);
        },
        _ => {},
    }
}

proof fn lemma_covers_shadowarg(n: Rc<Node>)
    requires
        node_at(n) is ShadowArg,
    ensures
        covers(stripped(n), children(*n)),
{
    match node_at(n) {
        Node::ShadowArg(..) => {
            assert(children(*n) =~= Seq::<Rc<Node>>::empty());
        },
        _ => {},
    }
}

proof fn lemma_covers_splat(n: Rc<Node>)
    requires
        node_at(n) is Splat,
    ensures
        covers(stripped(n), children(*n)),
{
    match node_at(n) {
        Node::Splat(_, f0) => {
            lemma_covers_opt(f0);
            assert(children(*n) =~= opt_nodes(f0));
        },
        _ => {},
    }
}

proof fn lemma_covers_splatlhs(n: Rc<Node>)
    requires
        node_at(n) is SplatLhs,
    ensures
        covers(stripped(n), children(*n)),
{
    match node_at(n) {
        Node::SplatLhs(_, f0) => {
            lemma_covers_opt(f0);
            assert(children(*n) =~= opt_nodes(f0));
        },
        _ => {},
    }
}

proof fn lemma_covers_string(n: Rc<Node>)
    requires
        node_at(n) is String,
    ensures
        covers(stripped(n), children(*n)),
{
    match node_at(n) {
        Node::String(..) => {
            assert(children(*n) =~= Seq::<Rc<Node>>::empty());
        },
        _ => {},
    }
}

proof fn lemma_covers_super(n: Rc<Node>)
    requires
        node_at(n) is Super,
    ensures
        covers(stripped(n), children(*n)),
{
    match node_at(n) {
        Node::Super(_, f0) => {
            lemma_covers_list(f0@);
            assert(children(*n) =~= f0@);
        },
        _ => {},
    }
}

proof fn lemma_covers_symbol(n: Rc<Node>)
    requires
        node_at(n) is Symbol,
    ensures
        covers(stripped(n), children(*n)),
{
    match node_at(n) {
        Node::Symbol(..) => {
            assert(children(*n) =~= Seq::<Rc<Node>>::empty());
        },
        _ => {},
    }
}

proof fn lemma_covers_true(n: Rc<Node>)
    requires
        node_at(n) is True,
    ensures
        covers(stripped(n), children(*n)),
{
    match node_at(n) {
        Node::True(..) => {
            assert(children(*n) =~= Seq::<Rc<Node>>::empty());
        },
        _ => {},
    }
}

proof fn lemma_covers_undef(n: Rc<Node>)
    requires
        node_at(n) is Undef,
    ensures
        covers(stripped(n), children(*n)),
{
    match node_at(n) {
        Node::Undef(_, f0) => {
            lemma_covers_list(f0@);
            assert(children(*n) =~= f0@);
        },
        _ => {},
    }
}

proof fn lemma_covers_until(n: Rc<Node>)
    requires
        node_at(n) is Until,
    ensures
        covers(stripped(n), children(*n)),
{
    match node_at(n) {
        Node::Until(_, f0, f1) => {
            lemma_covers_one(f0);
            lemma_covers_opt(f1);
            lemma_covers_cat(stripped(f0), seq![f0], stripped_opt(f1), opt_nodes(f1));
            assert(children(*n) =~= seq![f0] + opt_nodes(f1));
        },
        _ => {},
    }
}

proof fn lemma_covers_untilpost(n: Rc<Node>)
    requires
        node_at(n) is UntilPost,
    ensures
        covers(stripped(n), children(*n)),
{
    match node_at(n) {
        Node::UntilPost(_, f0, f1) => {
            lemma_covers_one(f0);
            lemma_covers_one(f1);
            lemma_covers_cat(stripped(f0), seq![f0], stripped(f1), seq![f1]);
            assert(children(*n) =~= seq![f0] + seq![f1]);
        },
        _ => {},
    }
}

proof fn lemma_covers_when(n: Rc<Node>)
    requires
        node_at(n) is When,
    ensures
        covers(stripped(n), children(*n)),
{
    match node_at(n) {
        Node::When(_, f0, f1) => {
            lemma_covers_list(f0@);
            lemma_covers_opt(f1);
            lemma_covers_cat(stripped_list(f0@), f0@, stripped_opt(f1), opt_nodes(f1));
            assert(children(*n) =~= f0@ + opt_nodes(f1));
        },
        _ => {},
    }
}

proof fn lemma_covers_while(n: Rc<Node>)
    requires
        node_at(n) is While,
    ensures
        covers(stripped(n), children(*n)),
{
    match node_at(n) {
        Node::While(_, f0, f1) => {
            lemma_covers_one(f0);
            lemma_covers_opt(f1);
            lemma_covers_cat(stripped(f0), seq![f0], stripped_opt(f1), opt_nodes(f1));
            assert(children(*n) =~= seq![f0] + opt_nodes(f1));
        },
        _ => {},
    }
}

proof fn lemma_covers_whilepost(n: Rc<Node>)
    requires
        node_at(n) is WhilePost,
    ensures
        covers(stripped(n), children(*n)),
{
    match node_at(n) {
        Node::WhilePost(_, f0, f1) => {
            lemma_covers_one(f0);
            lemma_covers_one(f1);
            lemma_covers_cat(stripped(f0), seq![f0], stripped(f1), seq![f1]);
            assert(children(*n) =~= seq![f0] + seq![f1]);
        },
        _ => {},
    }
}

proof fn lemma_covers_xstring(n: Rc<Node>)
    requires
        node_at(n) is XString,
    ensures
        covers(stripped(n), children(*n)),
{
    match node_at(n) {
        Node::XString(_, f0) => {
            lemma_covers_list(f0@);
            assert(children(*n) =~= f0@);
        },
        _ => {},
    }
}

proof fn lemma_covers_yield(n: Rc<Node>)
    requires
        node_at(n) is Yield,
    ensures
        covers(stripped(n), children(*n)),
{
    match node_at(n) {
        Node::Yield(_, f0) => {
            lemma_covers_list(f0@);
            assert(children(*n) =~= f0@);
        },
        _ => {},
    }
}

proof fn lemma_covers_zsuper(n: Rc<Node>)
    requires
        node_at(n) is ZSuper,
    ensures
        covers(stripped(n), children(*n)),
{
    match node_at(n) {
        Node::ZSuper(..) => {
            assert(children(*n) =~= Seq::<Rc<Node>>::empty());
        },
        _ => {},
    }
}

/// Stripping a node that is not itself a type annotation removes every
/// annotation that stripping any of its child nodes removes: the ranges
/// found for each child node are among those found for the node. (The
/// anonymous block argument at the end of an argument list is removed
/// whole, with the separator before it; a regular expression's options
/// node holds no annotation.)
pub proof fn lemma_child_annotations_stripped(n: Rc<Node>)
    requires
        !is_type_node(*n),
        !(*n matches Node::Args(_, s) && s@.len() > 0 && is_anonymous_block(s@.last())),
        *n matches Node::Regexp(_, _, Some(o)) ==> *o is Regopt,
    ensures
        covers(stripped(n), children(*n)),
{
    match node_at(n) {
        Node::Args(..) => lemma_covers_args(n),
        Node::Alias(..) => lemma_covers_alias(n),
        Node::And(..) => lemma_covers_and(n),
        Node::AndAsgn(..) => lemma_covers_andasgn(n),
        Node::Arg(..) => lemma_covers_arg(n),
        Node::Array(..) => lemma_covers_array(n),
        Node::Backref(..) => lemma_covers_backref(n),
        Node::Begin(..) => lemma_covers_begin(n),
        Node::Block(..) => lemma_covers_block(n),
        Node::Blockarg(..) => lemma_covers_blockarg(n),
        Node::BlockPass(..) => lemma_covers_blockpass(n),
        Node::Break(..) => lemma_covers_break(n),
        Node::Case(..) => lemma_covers_case(n),
        Node::Cbase(..) => lemma_covers_cbase(n),
        Node::Class(..) => lemma_covers_class(n),
        Node::Complex(..) => lemma_covers_complex(n),
        Node::Const(..) => lemma_covers_const(n),
        Node::ConstAsgn(..) => lemma_covers_constasgn(n),
        Node::ConstLhs(..) => lemma_covers_constlhs(n),
        Node::CSend(..) => lemma_covers_csend(n),
        Node::Cvar(..) => lemma_covers_cvar(n),
        Node::CvarAsgn(..) => lemma_covers_cvarasgn(n),
        Node::CvarLhs(..) => lemma_covers_cvarlhs(n),
        Node::Def(..) => lemma_covers_def(n),
        Node::Defined(..) => lemma_covers_defined(n),
        Node::Defs(..) => lemma_covers_defs(n),
        Node::DString(..) => lemma_covers_dstring(n),
        Node::DSymbol(..) => lemma_covers_dsymbol(n),
        Node::EFlipflop(..) => lemma_covers_eflipflop(n),
        Node::EncodingLiteral(..) => lemma_covers_encodingliteral(n),
        Node::Ensure(..) => lemma_covers_ensure(n),
        Node::ERange(..) => lemma_covers_erange(n),
        Node::False(..) => lemma_covers_false(n),
        Node::FileLiteral(..) => lemma_covers_fileliteral(n),
        Node::Float(..) => lemma_covers_float(n),
        Node::For(..) => lemma_covers_for(n),
        Node::Gvar(..) => lemma_covers_gvar(n),
        Node::GvarAsgn(..) => lemma_covers_gvarasgn(n),
        Node::GvarLhs(..) => lemma_covers_gvarlhs(n),
        Node::Hash(..) => lemma_covers_hash(n),
        Node::Ident(..) => lemma_covers_ident(n),
        Node::If(..) => lemma_covers_if(n),
        Node::IFlipflop(..) => lemma_covers_iflipflop(n),
        Node::Integer(..) => lemma_covers_integer(n),
        Node::IRange(..) => lemma_covers_irange(n),
        Node::Ivar(..) => lemma_covers_ivar(n),
        Node::IvarAsgn(..) => lemma_covers_ivarasgn(n),
        Node::IvarLhs(..) => lemma_covers_ivarlhs(n),
        Node::Kwarg(..) => lemma_covers_kwarg(n),
        Node::Kwbegin(..) => lemma_covers_kwbegin(n),
        Node::Kwoptarg(..) => lemma_covers_kwoptarg(n),
        Node::Kwrestarg(..) => lemma_covers_kwrestarg(n),
        Node::Kwsplat(..) => lemma_covers_kwsplat(n),
        Node::Lambda(..) => lemma_covers_lambda(n),
        Node::LineLiteral(..) => lemma_covers_lineliteral(n),
        Node::Lvar(..) => lemma_covers_lvar(n),
        Node::LvarAsgn(..) => lemma_covers_lvarasgn(n),
        Node::LvarLhs(..) => lemma_covers_lvarlhs(n),
        Node::Masgn(..) => lemma_covers_masgn(n),
        Node::MatchAsgn(..) => lemma_covers_matchasgn(n),
        Node::MatchCurLine(..) => lemma_covers_matchcurline(n),
        Node::Mlhs(..) => lemma_covers_mlhs(n),
        Node::Module(..) => lemma_covers_module(n),
        Node::Next(..) => lemma_covers_next(n),
        Node::Nil(..) => lemma_covers_nil(n),
        Node::NthRef(..) => lemma_covers_nthref(n),
        Node::OpAsgn(..) => lemma_covers_opasgn(n),
        Node::Optarg(..) => lemma_covers_optarg(n),
        Node::Or(..) => lemma_covers_or(n),
        Node::OrAsgn(..) => lemma_covers_orasgn(n),
        Node::Pair(..) => lemma_covers_pair(n),
        Node::Postexe(..) => lemma_covers_postexe(n),
        Node::Preexe(..) => lemma_covers_preexe(n),
        Node::Procarg0(..) => lemma_covers_procarg0(n),
        Node::Rational(..) => lemma_covers_rational(n),
        Node::Redo(..) => lemma_covers_redo(n),
        Node::Regexp(..) => lemma_covers_regexp(n),
        Node::Regopt(..) => lemma_covers_regopt(n),
        Node::Resbody(..) => lemma_covers_resbody(n),
        Node::Rescue(..) => lemma_covers_rescue(n),
        Node::Restarg(..) => lemma_covers_restarg(n),
        Node::Retry(..) => lemma_covers_retry(n),
        Node::Return(..) => lemma_covers_return(n),
        Node::SClass(..) => lemma_covers_sclass(n),
        Node::Self_(..) => lemma_covers_self_(n),
        Node::Send(..) => lemma_covers_send(n),
        Node::ShadowArg(..) => lemma_covers_shadowarg(n),
        Node::Splat(..) => lemma_covers_splat(n),
        Node::SplatLhs(..) => lemma_covers_splatlhs(n),
        Node::String(..) => lemma_covers_string(n),
        Node::Super(..) => lemma_covers_super(n),
        Node::Symbol(..) => lemma_covers_symbol(n),
        Node::True(..) => lemma_covers_true(n),
        Node::Undef(..) => lemma_covers_undef(n),
        Node::Until(..) => lemma_covers_until(n),
        Node::UntilPost(..) => lemma_covers_untilpost(n),
        Node::When(..) => lemma_covers_when(n),
        Node::While(..) => lemma_covers_while(n),
        Node::WhilePost(..) => lemma_covers_whilepost(n),
        Node::XString(..) => lemma_covers_xstring(n),
        Node::Yield(..) => lemma_covers_yield(n),
        Node::ZSuper(..) => lemma_covers_zsuper(n),
        _ => {},
    }
}

} // verus!
