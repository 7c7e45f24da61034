//! Inserting method type annotations, gathered from a run of the program,
//! into its source: each annotation names a method and the line of its
//! definition, and gives the types of its arguments and of its result.

use std::rc::Rc;
use itertools::Itertools;
use std::io::Error as IoError;
use serde_json::Error as JsonError;
use vstd::prelude::*;
use crate::ast::{Ast, Diagnostic, Id, IntoNode, Level, Loc, Node, count_newlines};
use vstd::utf8::{encode_utf8, is_char_boundary};
use vstd::string::StringSliceAdditionalSpecFns;
use crate::text::{push_str, str_eq};

verus! {

broadcast use vstd::string::group_string_axioms;

#[verifier::external_type_specification]
#[verifier::external_body]
pub struct ExIoError(IoError);

#[verifier::external_type_specification]
#[verifier::external_body]
pub struct ExJsonError(JsonError);

/// The types observed for one method: its name, the line its definition
/// begins on, the types of its arguments and the type it returned.
pub struct Annotation {
    pub line: usize,
    pub method: String,
    pub args: Vec<String>,
    pub retn: String,
}

/// Text to insert into the source at a byte offset.
pub struct Insertion {
    pub byte_pos: usize,
    pub string: String,
}

/// Why a file could not be annotated.
pub enum AnnotateError {
    Io(IoError),
    Json(JsonError),
    Syntax(Vec<Diagnostic>),
}

/// Annotations waiting to be used and the insertions made so far, as
/// positions and texts.
pub type AnnState = (Seq<Annotation>, Seq<(usize, Seq<char>)>);

/// Insertions as positions and texts.
pub open spec fn ins_view(s: Seq<Insertion>) -> Seq<(usize, Seq<char>)> {
    s.map_values(|i: Insertion| (i.byte_pos, i.string@))
}

/// `s`, sorted by line with the latest line first, with `x` put after the
/// annotations of its line or of a later one.
pub open spec fn insert_by_line(s: Seq<Annotation>, x: Annotation) -> Seq<Annotation>
    decreases s.len(),
{
    if s.len() == 0 {
        seq![x]
    } else if s.last().line >= x.line {
        s.push(x)
    } else {
        insert_by_line(s.drop_last(), x).push(s.last())
    }
}

/// `s` sorted by line, latest line first; annotations of one line keep
/// their order.
pub open spec fn sort_by_line(s: Seq<Annotation>) -> Seq<Annotation>
    decreases s.len(),
{
    if s.len() == 0 {
        seq![]
    } else {
        insert_by_line(sort_by_line(s.drop_last()), s.last())
    }
}

/// `s` without the annotations at its end whose line comes before `line`.
pub open spec fn trim_before(s: Seq<Annotation>, line: usize) -> Seq<Annotation>
    decreases s.len(),
{
    if s.len() > 0 && s.last().line < line {
        trim_before(s.drop_last(), line)
    } else {
        s
    }
}

/// The last position before `k` in the run of annotations of line `line`
/// that ends there whose method is `name`.
pub open spec fn find_def(s: Seq<Annotation>, line: usize, name: Seq<char>, k: int) -> Option<int>
    decreases k,
{
    if k <= 0 || k > s.len() {
        None
    } else if s[k - 1].line != line {
        None
    } else if s[k - 1].method@ == name {
        Some(k - 1)
    } else {
        find_def(s, line, name, k - 1)
    }
}

/// Taking the annotation of method `name` defined on `line` from `s`, latest
/// line last: the annotations of earlier lines are dropped, and the one
/// found is replaced by the last.
pub open spec fn take_def(s: Seq<Annotation>, line: usize, name: Seq<char>) -> (Seq<Annotation>, Option<Annotation>) {
    let t = trim_before(s, line);
    match find_def(t, line, name, t.len() as int) {
        Some(i) => (t.update(i, t.last()).drop_last(), Some(t[i])),
        None => (t, None),
    }
}

/// The insertions for the arguments `nodes` with the types `tys`: each type
/// and a space in front of its argument, as far as both go.
pub open spec fn arg_ins(nodes: Seq<Rc<Node>>, tys: Seq<String>) -> Seq<(usize, Seq<char>)> {
    arg_ins_upto(nodes, tys, if nodes.len() <= tys.len() { nodes.len() as int } else { tys.len() as int })
}

/// The insertions for a return type at `pos`: an arrow, then the type.
pub open spec fn ret_ins(pos: usize, retn: Seq<char>) -> Seq<(usize, Seq<char>)> {
    seq![(pos, " => "@), (pos, retn)]
}

/// The line a location begins on, counted from one.
pub open spec fn begin_line(loc: Loc) -> int {
    (1 + count_newlines(loc.file.bytes().take(loc.begin_pos as int))) as int
}

/// What annotating a definition at `loc` named `name` with arguments `args`
/// does: its annotation is taken, and the argument types go in front of the
/// arguments and the return type after them (or after the name when there
/// are none); a definition that already has a prototype keeps it.
pub open spec fn ann_def(s: AnnState, loc: Loc, name: Id, args: Option<Rc<Node>>) -> AnnState {
    let (rest, found) = take_def(s.0, begin_line(loc) as usize, name.1@);
    match found {
        None => (rest, s.1),
        Some(a) => match args {
            None => (rest, s.1 + ret_ins(name.0.end_pos, a.retn@)),
            Some(x) => match *x {
                Node::Args(aloc, nodes) => (rest, s.1 + arg_ins(nodes@, a.args@) + ret_ins(aloc.end_pos, a.retn@)),
                _ => (rest, s.1),
            },
        },
    }
}

/// Annotating a child node.
pub open spec fn ann_rc(s: AnnState, r: Rc<Node>) -> AnnState
    decreases r, 2int,
{
    ann_node(s, *r)
}

/// Annotating an optional child node.
pub open spec fn ann_opt(s: AnnState, o: Option<Rc<Node>>) -> AnnState
    decreases o, 0int,
{
    match o {
        Some(x) => ann_rc(s, x),
        None => s,
    }
}

/// Annotating child nodes one after the other.
pub open spec fn ann_list(s: AnnState, v: Seq<Rc<Node>>) -> AnnState
    decreases v, 0int,
{
    if v.len() == 0 {
        s
    } else {
        ann_rc(ann_list(s, v.drop_last()), v.last())
    }
}

/// A definition the annotator accepts: it begins inside its file, and its
/// arguments, if any, are an argument list or a prototype.
pub open spec fn def_ok(loc: Loc, args: Option<Rc<Node>>) -> bool {
    &&& loc.begin_pos <= loc.file.bytes().len()
    &&& loc.begin_pos < usize::MAX
    &&& match args {
        None => true,
        Some(x) => match *x {
            Node::Args(..) => true,
            Node::TyPrototype(..) => true,
            _ => false,
        },
    }
}

pub open spec fn ok_rc(r: Rc<Node>) -> bool
    decreases r, 2int,
{
    ok_node(*r)
}

pub open spec fn ok_opt(o: Option<Rc<Node>>) -> bool
    decreases o, 0int,
{
    match o {
        Some(x) => ok_rc(x),
        None => true,
    }
}

pub open spec fn ok_list(v: Seq<Rc<Node>>) -> bool
    decreases v, 0int,
{
    if v.len() == 0 {
        true
    } else {
        ok_list(v.drop_last()) && ok_rc(v.last())
    }
}

proof fn lemma_ok_list_member(v: Seq<Rc<Node>>, i: int)
    requires
        ok_list(v),
        0 <= i < v.len(),
    ensures
        ok_node(*v[i]),
    decreases v.len(),
{
    if i < v.len() - 1 {
        lemma_ok_list_member(v.drop_last(), i);
        assert(v.drop_last()[i] == v[i]);
    } else {
        assert(ok_rc(v.last()));
    }
}

/// What annotating `n` does to the state: the definitions in it, in source
/// order, each take their annotation.
pub open spec fn ann_node(s: AnnState, n: Node) -> AnnState
    decreases n, 1int,
{
    match n {
        Node::Alias(_, f1, f2) => ann_rc(ann_rc(s, f1), f2),
        Node::And(_, f1, f2) => ann_rc(ann_rc(s, f1), f2),
        Node::AndAsgn(_, f1, f2) => ann_rc(ann_rc(s, f1), f2),
        Node::Arg(..) => s,
        Node::Args(..) => s,
        Node::Array(_, f1) => ann_list(s, f1@),
        Node::Backref(..) => s,
        Node::Begin(_, f1) => ann_list(s, f1@),
        Node::Block(_, f1, f2, f3) => ann_opt(ann_rc(ann_rc(s, f1), f2), f3),
        Node::Blockarg(..) => s,
        Node::BlockPass(_, f1) => ann_rc(s, f1),
        Node::Break(_, f1) => ann_list(s, f1@),
        Node::Case(_, f1, f2, f3) => ann_opt(ann_list(ann_opt(s, f1), f2@), f3),
        Node::Cbase(..) => s,
        Node::Class(_, f1, f2, f3) => ann_opt(ann_opt(ann_rc(s, f1), f2), f3),
        Node::Complex(..) => s,
        Node::Const(_, f1, _) => ann_opt(s, f1),
        Node::ConstAsgn(_, f1, _, f3) => ann_rc(ann_opt(s, f1), f3),
        Node::ConstLhs(_, f1, _) => ann_opt(s, f1),
        Node::CSend(_, f1, _, f3) => ann_list(ann_opt(s, f1), f3@),
        Node::Cvar(..) => s,
        Node::CvarAsgn(_, _, f2) => ann_rc(s, f2),
        Node::CvarLhs(..) => s,
        Node::Def(loc, name, args, body) => ann_opt(ann_def(s, loc, name, args), body),
        Node::Defined(_, f1) => ann_rc(s, f1),
        Node::Defs(loc, definee, name, args, body) => ann_opt(ann_def(ann_rc(s, definee), loc, name, args), body),
        Node::DString(_, f1) => ann_list(s, f1@),
        Node::DSymbol(_, f1) => ann_list(s, f1@),
        Node::EFlipflop(_, f1, f2) => ann_rc(ann_rc(s, f1), f2),
        Node::EncodingLiteral(..) => s,
        Node::Ensure(_, f1, f2) => ann_rc(ann_opt(s, f1), f2),
        Node::ERange(_, f1, f2) => ann_rc(ann_rc(s, f1), f2),
        Node::False(..) => s,
        Node::FileLiteral(..) => s,
        Node::Float(..) => s,
        Node::For(_, f1, f2, f3) => ann_opt(ann_rc(ann_rc(s, f1), f2), f3),
        Node::Gvar(..) => s,
        Node::GvarAsgn(_, _, f2) => ann_rc(s, f2),
        Node::GvarLhs(..) => s,
        Node::Hash(_, f1) => ann_list(s, f1@),
        Node::Ident(..) => s,
        Node::If(_, f1, f2, f3) => ann_opt(ann_opt(ann_rc(s, f1), f2), f3),
        Node::IFlipflop(_, f1, f2) => ann_rc(ann_rc(s, f1), f2),
        Node::Integer(..) => s,
        Node::IRange(_, f1, f2) => ann_rc(ann_rc(s, f1), f2),
        Node::Ivar(..) => s,
        Node::IvarAsgn(_, _, f2) => ann_rc(s, f2),
        Node::IvarLhs(..) => s,
        Node::Kwarg(..) => s,
        Node::Kwbegin(_, f1) => ann_list(s, f1@),
        Node::Kwoptarg(_, _, f2) => ann_rc(s, f2),
        Node::Kwrestarg(..) => s,
        Node::Kwsplat(_, f1) => ann_rc(s, f1),
        Node::Lambda(..) => s,
        Node::LineLiteral(..) => s,
        Node::Lvar(..) => s,
        Node::LvarAsgn(_, _, f2) => ann_rc(s, f2),
        Node::LvarLhs(..) => s,
        Node::Masgn(_, f1, f2) => ann_rc(ann_rc(s, f1), f2),
        Node::MatchAsgn(_, f1, f2) => ann_rc(ann_rc(s, f1), f2),
        Node::MatchCurLine(_, f1) => ann_rc(s, f1),
        Node::Mlhs(_, f1) => ann_list(s, f1@),
        Node::Module(_, f1, f2) => ann_opt(ann_rc(s, f1), f2),
        Node::Next(_, f1) => ann_list(s, f1@),
        Node::Nil(..) => s,
        Node::NthRef(..) => s,
        Node::OpAsgn(_, f1, _, f3) => ann_rc(ann_rc(s, f1), f3),
        Node::Optarg(_, _, f2) => ann_rc(s, f2),
        Node::Or(_, f1, f2) => ann_rc(ann_rc(s, f1), f2),
        Node::OrAsgn(_, f1, f2) => ann_rc(ann_rc(s, f1), f2),
        Node::Pair(_, f1, f2) => ann_rc(ann_rc(s, f1), f2),
        Node::Postexe(_, f1) => ann_opt(s, f1),
        Node::Preexe(_, f1) => ann_opt(s, f1),
        Node::Procarg0(_, f1) => ann_rc(s, f1),
        Node::Rational(..) => s,
        Node::Redo(..) => s,
        Node::Regexp(_, f1, _) => ann_list(s, f1@),
        Node::Regopt(..) => s,
        Node::Resbody(_, f1, f2, f3) => ann_opt(ann_opt(ann_opt(s, f1), f2), f3),
        Node::Rescue(_, f1, f2, f3) => ann_opt(ann_list(ann_opt(s, f1), f2@), f3),
        Node::Restarg(..) => s,
        Node::Retry(..) => s,
        Node::Return(_, f1) => ann_list(s, f1@),
        Node::SClass(_, f1, f2) => ann_opt(ann_rc(s, f1), f2),
        Node::Self_(..) => s,
        Node::Send(_, f1, _, f3) => ann_list(ann_opt(s, f1), f3@),
        Node::ShadowArg(..) => s,
        Node::Splat(_, f1) => ann_opt(s, f1),
        Node::SplatLhs(_, f1) => ann_opt(s, f1),
        Node::String(..) => s,
        Node::Super(_, f1) => ann_list(s, f1@),
        Node::Symbol(..) => s,
        Node::True(..) => s,
        Node::TyAny(..) => s,
        Node::TyArray(..) => s,
        Node::TyCast(_, f1, _) => ann_rc(s, f1),
        Node::TyClass(..) => s,
        Node::TyConSubtype(..) => s,
        Node::TyConUnify(..) => s,
        Node::TyConstInstance(..) => s,
        Node::TyCpath(..) => s,
        Node::TyGenargs(..) => s,
        Node::TyGendecl(..) => s,
        Node::TyGendeclarg(..) => s,
        Node::TyGeninst(..) => s,
        Node::TyHash(..) => s,
        Node::TyInstance(..) => s,
        Node::TyIvardecl(..) => s,
        Node::TyNil(..) => s,
        Node::TyNillable(..) => s,
        Node::TyOr(..) => s,
        Node::TyParen(..) => s,
        Node::TyProc(..) => s,
        Node::TyPrototype(..) => s,
        Node::TyReturnSig(..) => s,
        Node::TySelf(..) => s,
        Node::TyTuple(..) => s,
        Node::TyTypedArg(..) => s,
        Node::Undef(_, f1) => ann_list(s, f1@),
        Node::Until(_, f1, f2) => ann_opt(ann_rc(s, f1), f2),
        Node::UntilPost(_, f1, f2) => ann_rc(ann_rc(s, f1), f2),
        Node::When(_, f1, f2) => ann_opt(ann_list(s, f1@), f2),
        Node::While(_, f1, f2) => ann_opt(ann_rc(s, f1), f2),
        Node::WhilePost(_, f1, f2) => ann_rc(ann_rc(s, f1), f2),
        Node::XString(_, f1) => ann_list(s, f1@),
        Node::Yield(_, f1) => ann_list(s, f1@),
        Node::ZSuper(..) => s,
    }
}

/// Whether annotating `n` stays clear of the cases the annotator rejects:
/// argument lists and prototypes met outside a definition, a definition
/// whose arguments are neither an argument list nor a prototype, and a
/// definition that begins outside its file.
pub open spec fn ok_node(n: Node) -> bool
    decreases n, 1int,
{
    match n {
        Node::Alias(_, f1, f2) => ok_rc(f1) && ok_rc(f2),
        Node::And(_, f1, f2) => ok_rc(f1) && ok_rc(f2),
        Node::AndAsgn(_, f1, f2) => ok_rc(f1) && ok_rc(f2),
        Node::Arg(..) => true,
        Node::Args(..) => false,
        Node::Array(_, f1) => ok_list(f1@),
        Node::Backref(..) => true,
        Node::Begin(_, f1) => ok_list(f1@),
        Node::Block(_, f1, f2, f3) => ok_rc(f1) && ok_rc(f2) && ok_opt(f3),
        Node::Blockarg(..) => true,
        Node::BlockPass(_, f1) => ok_rc(f1),
        Node::Break(_, f1) => ok_list(f1@),
        Node::Case(_, f1, f2, f3) => ok_opt(f1) && ok_list(f2@) && ok_opt(f3),
        Node::Cbase(..) => true,
        Node::Class(_, f1, f2, f3) => ok_rc(f1) && ok_opt(f2) && ok_opt(f3),
        Node::Complex(..) => true,
        Node::Const(_, f1, _) => ok_opt(f1),
        Node::ConstAsgn(_, f1, _, f3) => ok_opt(f1) && ok_rc(f3),
        Node::ConstLhs(_, f1, _) => ok_opt(f1),
        Node::CSend(_, f1, _, f3) => ok_opt(f1) && ok_list(f3@),
        Node::Cvar(..) => true,
        Node::CvarAsgn(_, _, f2) => ok_rc(f2),
        Node::CvarLhs(..) => true,
        Node::Def(loc, _, args, body) => def_ok(loc, args) && ok_opt(body),
        Node::Defined(_, f1) => ok_rc(f1),
        Node::Defs(loc, definee, _, args, body) => ok_rc(definee) && def_ok(loc, args) && ok_opt(body),
        Node::DString(_, f1) => ok_list(f1@),
        Node::DSymbol(_, f1) => ok_list(f1@),
        Node::EFlipflop(_, f1, f2) => ok_rc(f1) && ok_rc(f2),
        Node::EncodingLiteral(..) => true,
        Node::Ensure(_, f1, f2) => ok_opt(f1) && ok_rc(f2),
        Node::ERange(_, f1, f2) => ok_rc(f1) && ok_rc(f2),
        Node::False(..) => true,
        Node::FileLiteral(..) => true,
        Node::Float(..) => true,
        Node::For(_, f1, f2, f3) => ok_rc(f1) && ok_rc(f2) && ok_opt(f3),
        Node::Gvar(..) => true,
        Node::GvarAsgn(_, _, f2) => ok_rc(f2),
        Node::GvarLhs(..) => true,
        Node::Hash(_, f1) => ok_list(f1@),
        Node::Ident(..) => true,
        Node::If(_, f1, f2, f3) => ok_rc(f1) && ok_opt(f2) && ok_opt(f3),
        Node::IFlipflop(_, f1, f2) => ok_rc(f1) && ok_rc(f2),
        Node::Integer(..) => true,
        Node::IRange(_, f1, f2) => ok_rc(f1) && ok_rc(f2),
        Node::Ivar(..) => true,
        Node::IvarAsgn(_, _, f2) => ok_rc(f2),
        Node::IvarLhs(..) => true,
        Node::Kwarg(..) => true,
        Node::Kwbegin(_, f1) => ok_list(f1@),
        Node::Kwoptarg(_, _, f2) => ok_rc(f2),
        Node::Kwrestarg(..) => true,
        Node::Kwsplat(_, f1) => ok_rc(f1),
        Node::Lambda(..) => true,
        Node::LineLiteral(..) => true,
        Node::Lvar(..) => true,
        Node::LvarAsgn(_, _, f2) => ok_rc(f2),
        Node::LvarLhs(..) => true,
        Node::Masgn(_, f1, f2) => ok_rc(f1) && ok_rc(f2),
        Node::MatchAsgn(_, f1, f2) => ok_rc(f1) && ok_rc(f2),
        Node::MatchCurLine(_, f1) => ok_rc(f1),
        Node::Mlhs(_, f1) => ok_list(f1@),
        Node::Module(_, f1, f2) => ok_rc(f1) && ok_opt(f2),
        Node::Next(_, f1) => ok_list(f1@),
        Node::Nil(..) => true,
        Node::NthRef(..) => true,
        Node::OpAsgn(_, f1, _, f3) => ok_rc(f1) && ok_rc(f3),
        Node::Optarg(_, _, f2) => ok_rc(f2),
        Node::Or(_, f1, f2) => ok_rc(f1) && ok_rc(f2),
        Node::OrAsgn(_, f1, f2) => ok_rc(f1) && ok_rc(f2),
        Node::Pair(_, f1, f2) => ok_rc(f1) && ok_rc(f2),
        Node::Postexe(_, f1) => ok_opt(f1),
        Node::Preexe(_, f1) => ok_opt(f1),
        Node::Procarg0(_, f1) => ok_rc(f1),
        Node::Rational(..) => true,
        Node::Redo(..) => true,
        Node::Regexp(_, f1, _) => ok_list(f1@),
        Node::Regopt(..) => true,
        Node::Resbody(_, f1, f2, f3) => ok_opt(f1) && ok_opt(f2) && ok_opt(f3),
        Node::Rescue(_, f1, f2, f3) => ok_opt(f1) && ok_list(f2@) && ok_opt(f3),
        Node::Restarg(..) => true,
        Node::Retry(..) => true,
        Node::Return(_, f1) => ok_list(f1@),
        Node::SClass(_, f1, f2) => ok_rc(f1) && ok_opt(f2),
        Node::Self_(..) => true,
        Node::Send(_, f1, _, f3) => ok_opt(f1) && ok_list(f3@),
        Node::ShadowArg(..) => true,
        Node::Splat(_, f1) => ok_opt(f1),
        Node::SplatLhs(_, f1) => ok_opt(f1),
        Node::String(..) => true,
        Node::Super(_, f1) => ok_list(f1@),
        Node::Symbol(..) => true,
        Node::True(..) => true,
        Node::TyAny(..) => true,
        Node::TyArray(..) => true,
        Node::TyCast(_, f1, _) => ok_rc(f1),
        Node::TyClass(..) => true,
        Node::TyConSubtype(..) => true,
        Node::TyConUnify(..) => true,
        Node::TyConstInstance(..) => true,
        Node::TyCpath(..) => true,
        Node::TyGenargs(..) => true,
        Node::TyGendecl(..) => true,
        Node::TyGendeclarg(..) => true,
        Node::TyGeninst(..) => true,
        Node::TyHash(..) => true,
        Node::TyInstance(..) => true,
        Node::TyIvardecl(..) => true,
        Node::TyNil(..) => true,
        Node::TyNillable(..) => true,
        Node::TyOr(..) => true,
        Node::TyParen(..) => true,
        Node::TyProc(..) => true,
        Node::TyPrototype(..) => false,
        Node::TyReturnSig(..) => true,
        Node::TySelf(..) => true,
        Node::TyTuple(..) => true,
        Node::TyTypedArg(..) => false,
        Node::Undef(_, f1) => ok_list(f1@),
        Node::Until(_, f1, f2) => ok_rc(f1) && ok_opt(f2),
        Node::UntilPost(_, f1, f2) => ok_rc(f1) && ok_rc(f2),
        Node::When(_, f1, f2) => ok_list(f1@) && ok_opt(f2),
        Node::While(_, f1, f2) => ok_rc(f1) && ok_opt(f2),
        Node::WhilePost(_, f1, f2) => ok_rc(f1) && ok_rc(f2),
        Node::XString(_, f1) => ok_list(f1@),
        Node::Yield(_, f1) => ok_list(f1@),
        Node::ZSuper(..) => true,
    }
}

/// The group of node kinds that are annotated alike.
pub open spec fn ann_group(n: Node) -> u8 {
    match n {
        Node::Alias(..) => 0u8,
        Node::And(..) => 0u8,
        Node::AndAsgn(..) => 0u8,
        Node::EFlipflop(..) => 0u8,
        Node::ERange(..) => 0u8,
        Node::IFlipflop(..) => 0u8,
        Node::IRange(..) => 0u8,
        Node::Masgn(..) => 0u8,
        Node::MatchAsgn(..) => 1u8,
        Node::Or(..) => 1u8,
        Node::OrAsgn(..) => 1u8,
        Node::Pair(..) => 1u8,
        Node::UntilPost(..) => 1u8,
        Node::WhilePost(..) => 1u8,
        Node::Arg(..) => 2u8,
        Node::Backref(..) => 2u8,
        Node::Blockarg(..) => 2u8,
        Node::Cbase(..) => 2u8,
        Node::Complex(..) => 2u8,
        Node::Cvar(..) => 2u8,
        Node::CvarLhs(..) => 2u8,
        Node::EncodingLiteral(..) => 2u8,
        Node::False(..) => 3u8,
        Node::FileLiteral(..) => 3u8,
        Node::Float(..) => 3u8,
        Node::Gvar(..) => 3u8,
        Node::GvarLhs(..) => 3u8,
        Node::Ident(..) => 3u8,
        Node::Integer(..) => 3u8,
        Node::Ivar(..) => 3u8,
        Node::IvarLhs(..) => 4u8,
        Node::Kwarg(..) => 4u8,
        Node::Kwrestarg(..) => 4u8,
        Node::Lambda(..) => 4u8,
        Node::LineLiteral(..) => 4u8,
        Node::Lvar(..) => 4u8,
        Node::LvarLhs(..) => 4u8,
        Node::Nil(..) => 4u8,
        Node::NthRef(..) => 5u8,
        Node::Rational(..) => 5u8,
        Node::Redo(..) => 5u8,
        Node::Regopt(..) => 5u8,
        Node::Restarg(..) => 5u8,
        Node::Retry(..) => 5u8,
        Node::Self_(..) => 5u8,
        Node::ShadowArg(..) => 5u8,
        Node::String(..) => 6u8,
        Node::Symbol(..) => 6u8,
        Node::True(..) => 6u8,
        Node::TyAny(..) => 6u8,
        Node::TyArray(..) => 6u8,
        Node::TyClass(..) => 6u8,
        Node::TyConSubtype(..) => 6u8,
        Node::TyConUnify(..) => 6u8,
        Node::TyConstInstance(..) => 7u8,
        Node::TyCpath(..) => 7u8,
        Node::TyGenargs(..) => 7u8,
        Node::TyGendecl(..) => 7u8,
        Node::TyGendeclarg(..) => 7u8,
        Node::TyGeninst(..) => 7u8,
        Node::TyHash(..) => 7u8,
        Node::TyInstance(..) => 7u8,
        Node::TyIvardecl(..) => 8u8,
        Node::TyNil(..) => 8u8,
        Node::TyNillable(..) => 8u8,
        Node::TyOr(..) => 8u8,
        Node::TyParen(..) => 8u8,
        Node::TyProc(..) => 8u8,
        Node::TyReturnSig(..) => 8u8,
        Node::TySelf(..) => 8u8,
        Node::TyTuple(..) => 9u8,
        Node::ZSuper(..) => 9u8,
        Node::Args(..) => 10u8,
        Node::TyPrototype(..) => 10u8,
        Node::TyTypedArg(..) => 10u8,
        Node::Array(..) => 11u8,
        Node::Begin(..) => 11u8,
        Node::Break(..) => 11u8,
        Node::DString(..) => 11u8,
        Node::DSymbol(..) => 11u8,
        Node::Hash(..) => 11u8,
        Node::Kwbegin(..) => 11u8,
        Node::Mlhs(..) => 11u8,
        Node::Next(..) => 12u8,
        Node::Return(..) => 12u8,
        Node::Super(..) => 12u8,
        Node::Undef(..) => 12u8,
        Node::XString(..) => 12u8,
        Node::Yield(..) => 12u8,
        Node::Block(..) => 13u8,
        Node::For(..) => 13u8,
        Node::BlockPass(..) => 14u8,
        Node::Defined(..) => 14u8,
        Node::Kwsplat(..) => 14u8,
        Node::MatchCurLine(..) => 14u8,
        Node::Procarg0(..) => 14u8,
        Node::Case(..) => 15u8,
        Node::Rescue(..) => 15u8,
        Node::Class(..) => 16u8,
        Node::If(..) => 16u8,
        Node::Const(..) => 17u8,
        Node::ConstLhs(..) => 17u8,
        Node::ConstAsgn(..) => 18u8,
        Node::CSend(..) => 19u8,
        Node::Send(..) => 19u8,
        Node::CvarAsgn(..) => 20u8,
        Node::GvarAsgn(..) => 20u8,
        Node::IvarAsgn(..) => 20u8,
        Node::Kwoptarg(..) => 20u8,
        Node::LvarAsgn(..) => 20u8,
        Node::Optarg(..) => 20u8,
        Node::Def(..) => 21u8,
        Node::Defs(..) => 22u8,
        Node::Ensure(..) => 23u8,
        Node::Module(..) => 24u8,
        Node::SClass(..) => 24u8,
        Node::Until(..) => 24u8,
        Node::While(..) => 24u8,
        Node::OpAsgn(..) => 25u8,
        Node::Postexe(..) => 26u8,
        Node::Preexe(..) => 26u8,
        Node::Splat(..) => 26u8,
        Node::SplatLhs(..) => 26u8,
        Node::Regexp(..) => 27u8,
        Node::Resbody(..) => 28u8,
        Node::TyCast(..) => 29u8,
        Node::When(..) => 30u8,
    }
}

fn ann_group_of(n: &Node) -> (r: u8)
    ensures
        r == ann_group(*n),
{
    match n {
        Node::Alias(..) => 0u8,
        Node::And(..) => 0u8,
        Node::AndAsgn(..) => 0u8,
        Node::EFlipflop(..) => 0u8,
        Node::ERange(..) => 0u8,
        Node::IFlipflop(..) => 0u8,
        Node::IRange(..) => 0u8,
        Node::Masgn(..) => 0u8,
        Node::MatchAsgn(..) => 1u8,
        Node::Or(..) => 1u8,
        Node::OrAsgn(..) => 1u8,
        Node::Pair(..) => 1u8,
        Node::UntilPost(..) => 1u8,
        Node::WhilePost(..) => 1u8,
        Node::Arg(..) => 2u8,
        Node::Backref(..) => 2u8,
        Node::Blockarg(..) => 2u8,
        Node::Cbase(..) => 2u8,
        Node::Complex(..) => 2u8,
        Node::Cvar(..) => 2u8,
        Node::CvarLhs(..) => 2u8,
        Node::EncodingLiteral(..) => 2u8,
        Node::False(..) => 3u8,
        Node::FileLiteral(..) => 3u8,
        Node::Float(..) => 3u8,
        Node::Gvar(..) => 3u8,
        Node::GvarLhs(..) => 3u8,
        Node::Ident(..) => 3u8,
        Node::Integer(..) => 3u8,
        Node::Ivar(..) => 3u8,
        Node::IvarLhs(..) => 4u8,
        Node::Kwarg(..) => 4u8,
        Node::Kwrestarg(..) => 4u8,
        Node::Lambda(..) => 4u8,
        Node::LineLiteral(..) => 4u8,
        Node::Lvar(..) => 4u8,
        Node::LvarLhs(..) => 4u8,
        Node::Nil(..) => 4u8,
        Node::NthRef(..) => 5u8,
        Node::Rational(..) => 5u8,
        Node::Redo(..) => 5u8,
        Node::Regopt(..) => 5u8,
        Node::Restarg(..) => 5u8,
        Node::Retry(..) => 5u8,
        Node::Self_(..) => 5u8,
        Node::ShadowArg(..) => 5u8,
        Node::String(..) => 6u8,
        Node::Symbol(..) => 6u8,
        Node::True(..) => 6u8,
        Node::TyAny(..) => 6u8,
        Node::TyArray(..) => 6u8,
        Node::TyClass(..) => 6u8,
        Node::TyConSubtype(..) => 6u8,
        Node::TyConUnify(..) => 6u8,
        Node::TyConstInstance(..) => 7u8,
        Node::TyCpath(..) => 7u8,
        Node::TyGenargs(..) => 7u8,
        Node::TyGendecl(..) => 7u8,
        Node::TyGendeclarg(..) => 7u8,
        Node::TyGeninst(..) => 7u8,
        Node::TyHash(..) => 7u8,
        Node::TyInstance(..) => 7u8,
        Node::TyIvardecl(..) => 8u8,
        Node::TyNil(..) => 8u8,
        Node::TyNillable(..) => 8u8,
        Node::TyOr(..) => 8u8,
        Node::TyParen(..) => 8u8,
        Node::TyProc(..) => 8u8,
        Node::TyReturnSig(..) => 8u8,
        Node::TySelf(..) => 8u8,
        Node::TyTuple(..) => 9u8,
        Node::ZSuper(..) => 9u8,
        Node::Args(..) => 10u8,
        Node::TyPrototype(..) => 10u8,
        Node::TyTypedArg(..) => 10u8,
        Node::Array(..) => 11u8,
        Node::Begin(..) => 11u8,
        Node::Break(..) => 11u8,
        Node::DString(..) => 11u8,
        Node::DSymbol(..) => 11u8,
        Node::Hash(..) => 11u8,
        Node::Kwbegin(..) => 11u8,
        Node::Mlhs(..) => 11u8,
        Node::Next(..) => 12u8,
        Node::Return(..) => 12u8,
        Node::Super(..) => 12u8,
        Node::Undef(..) => 12u8,
        Node::XString(..) => 12u8,
        Node::Yield(..) => 12u8,
        Node::Block(..) => 13u8,
        Node::For(..) => 13u8,
        Node::BlockPass(..) => 14u8,
        Node::Defined(..) => 14u8,
        Node::Kwsplat(..) => 14u8,
        Node::MatchCurLine(..) => 14u8,
        Node::Procarg0(..) => 14u8,
        Node::Case(..) => 15u8,
        Node::Rescue(..) => 15u8,
        Node::Class(..) => 16u8,
        Node::If(..) => 16u8,
        Node::Const(..) => 17u8,
        Node::ConstLhs(..) => 17u8,
        Node::ConstAsgn(..) => 18u8,
        Node::CSend(..) => 19u8,
        Node::Send(..) => 19u8,
        Node::CvarAsgn(..) => 20u8,
        Node::GvarAsgn(..) => 20u8,
        Node::IvarAsgn(..) => 20u8,
        Node::Kwoptarg(..) => 20u8,
        Node::LvarAsgn(..) => 20u8,
        Node::Optarg(..) => 20u8,
        Node::Def(..) => 21u8,
        Node::Defs(..) => 22u8,
        Node::Ensure(..) => 23u8,
        Node::Module(..) => 24u8,
        Node::SClass(..) => 24u8,
        Node::Until(..) => 24u8,
        Node::While(..) => 24u8,
        Node::OpAsgn(..) => 25u8,
        Node::Postexe(..) => 26u8,
        Node::Preexe(..) => 26u8,
        Node::Splat(..) => 26u8,
        Node::SplatLhs(..) => 26u8,
        Node::Regexp(..) => 27u8,
        Node::Resbody(..) => 28u8,
        Node::TyCast(..) => 29u8,
        Node::When(..) => 30u8,
    }
}

impl Annotate {
    fn annotate_g0(&mut self, n: &Node)
        requires
            ann_group(*n) == 0u8,
            ok_node(*n),
        ensures
            final(self).state() == ann_node(old(self).state(), *n),
        decreases *n, 1int,
    {
        match n {
            Node::Alias(_, f1, f2) => {
                self.annotate_child(f1);
                self.annotate_child(f2);
            },
            Node::And(_, f1, f2) => {
                self.annotate_child(f1);
                self.annotate_child(f2);
            },
            Node::AndAsgn(_, f1, f2) => {
                self.annotate_child(f1);
                self.annotate_child(f2);
            },
            Node::EFlipflop(_, f1, f2) => {
                self.annotate_child(f1);
                self.annotate_child(f2);
            },
            Node::ERange(_, f1, f2) => {
                self.annotate_child(f1);
                self.annotate_child(f2);
            },
            Node::IFlipflop(_, f1, f2) => {
                self.annotate_child(f1);
                self.annotate_child(f2);
            },
            Node::IRange(_, f1, f2) => {
                self.annotate_child(f1);
                self.annotate_child(f2);
            },
            Node::Masgn(_, f1, f2) => {
                self.annotate_child(f1);
                self.annotate_child(f2);
            },
            _ => {
                assert(false);
            },
        }
    }

    fn annotate_g1(&mut self, n: &Node)
        requires
            ann_group(*n) == 1u8,
            ok_node(*n),
        ensures
            final(self).state() == ann_node(old(self).state(), *n),
        decreases *n, 1int,
    {
        match n {
            Node::MatchAsgn(_, f1, f2) => {
                self.annotate_child(f1);
                self.annotate_child(f2);
            },
            Node::Or(_, f1, f2) => {
                self.annotate_child(f1);
                self.annotate_child(f2);
            },
            Node::OrAsgn(_, f1, f2) => {
                self.annotate_child(f1);
                self.annotate_child(f2);
            },
            Node::Pair(_, f1, f2) => {
                self.annotate_child(f1);
                self.annotate_child(f2);
            },
            Node::UntilPost(_, f1, f2) => {
                self.annotate_child(f1);
                self.annotate_child(f2);
            },
            Node::WhilePost(_, f1, f2) => {
                self.annotate_child(f1);
                self.annotate_child(f2);
            },
            _ => {
                assert(false);
            },
        }
    }

    fn annotate_g2(&mut self, n: &Node)
        requires
            ann_group(*n) == 2u8,
            ok_node(*n),
        ensures
            final(self).state() == ann_node(old(self).state(), *n),
        decreases *n, 1int,
    {
    }

    fn annotate_g3(&mut self, n: &Node)
        requires
            ann_group(*n) == 3u8,
            ok_node(*n),
        ensures
            final(self).state() == ann_node(old(self).state(), *n),
        decreases *n, 1int,
    {
    }

    fn annotate_g4(&mut self, n: &Node)
        requires
            ann_group(*n) == 4u8,
            ok_node(*n),
        ensures
            final(self).state() == ann_node(old(self).state(), *n),
        decreases *n, 1int,
    {
    }

    fn annotate_g5(&mut self, n: &Node)
        requires
            ann_group(*n) == 5u8,
            ok_node(*n),
        ensures
            final(self).state() == ann_node(old(self).state(), *n),
        decreases *n, 1int,
    {
    }

    fn annotate_g6(&mut self, n: &Node)
        requires
            ann_group(*n) == 6u8,
            ok_node(*n),
        ensures
            final(self).state() == ann_node(old(self).state(), *n),
        decreases *n, 1int,
    {
    }

    fn annotate_g7(&mut self, n: &Node)
        requires
            ann_group(*n) == 7u8,
            ok_node(*n),
        ensures
            final(self).state() == ann_node(old(self).state(), *n),
        decreases *n, 1int,
    {
    }

    fn annotate_g8(&mut self, n: &Node)
        requires
            ann_group(*n) == 8u8,
            ok_node(*n),
        ensures
            final(self).state() == ann_node(old(self).state(), *n),
        decreases *n, 1int,
    {
    }

    fn annotate_g9(&mut self, n: &Node)
        requires
            ann_group(*n) == 9u8,
            ok_node(*n),
        ensures
            final(self).state() == ann_node(old(self).state(), *n),
        decreases *n, 1int,
    {
    }

    fn annotate_g11(&mut self, n: &Node)
        requires
            ann_group(*n) == 11u8,
            ok_node(*n),
        ensures
            final(self).state() == ann_node(old(self).state(), *n),
        decreases *n, 1int,
    {
        match n {
            Node::Array(_, f1) => {
                self.annotate_nodes(f1);
            },
            Node::Begin(_, f1) => {
                self.annotate_nodes(f1);
            },
            Node::Break(_, f1) => {
                self.annotate_nodes(f1);
            },
            Node::DString(_, f1) => {
                self.annotate_nodes(f1);
            },
            Node::DSymbol(_, f1) => {
                self.annotate_nodes(f1);
            },
            Node::Hash(_, f1) => {
                self.annotate_nodes(f1);
            },
            Node::Kwbegin(_, f1) => {
                self.annotate_nodes(f1);
            },
            Node::Mlhs(_, f1) => {
                self.annotate_nodes(f1);
            },
            _ => {
                assert(false);
            },
        }
    }

    fn annotate_g12(&mut self, n: &Node)
        requires
            ann_group(*n) == 12u8,
            ok_node(*n),
        ensures
            final(self).state() == ann_node(old(self).state(), *n),
        decreases *n, 1int,
    {
        match n {
            Node::Next(_, f1) => {
                self.annotate_nodes(f1);
            },
            Node::Return(_, f1) => {
                self.annotate_nodes(f1);
            },
            Node::Super(_, f1) => {
                self.annotate_nodes(f1);
            },
            Node::Undef(_, f1) => {
                self.annotate_nodes(f1);
            },
            Node::XString(_, f1) => {
                self.annotate_nodes(f1);
            },
            Node::Yield(_, f1) => {
                self.annotate_nodes(f1);
            },
            _ => {
                assert(false);
            },
        }
    }

    fn annotate_g13(&mut self, n: &Node)
        requires
            ann_group(*n) == 13u8,
            ok_node(*n),
        ensures
            final(self).state() == ann_node(old(self).state(), *n),
        decreases *n, 1int,
    {
        match n {
            Node::Block(_, f1, f2, f3) => {
                self.annotate_child(f1);
                self.annotate_child(f2);
                self.annotate_opt(f3);
            },
            Node::For(_, f1, f2, f3) => {
                self.annotate_child(f1);
                self.annotate_child(f2);
                self.annotate_opt(f3);
            },
            _ => {
                assert(false);
            },
        }
    }

    fn annotate_g14(&mut self, n: &Node)
        requires
            ann_group(*n) == 14u8,
            ok_node(*n),
        ensures
            final(self).state() == ann_node(old(self).state(), *n),
        decreases *n, 1int,
    {
        match n {
            Node::BlockPass(_, f1) => {
                self.annotate_child(f1);
            },
            Node::Defined(_, f1) => {
                self.annotate_child(f1);
            },
            Node::Kwsplat(_, f1) => {
                self.annotate_child(f1);
            },
            Node::MatchCurLine(_, f1) => {
                self.annotate_child(f1);
            },
            Node::Procarg0(_, f1) => {
                self.annotate_child(f1);
            },
            _ => {
                assert(false);
            },
        }
    }

    fn annotate_g15(&mut self, n: &Node)
        requires
            ann_group(*n) == 15u8,
            ok_node(*n),
        ensures
            final(self).state() == ann_node(old(self).state(), *n),
        decreases *n, 1int,
    {
        match n {
            Node::Case(_, f1, f2, f3) => {
                self.annotate_opt(f1);
                self.annotate_nodes(f2);
                self.annotate_opt(f3);
            },
            Node::Rescue(_, f1, f2, f3) => {
                self.annotate_opt(f1);
                self.annotate_nodes(f2);
                self.annotate_opt(f3);
            },
            _ => {
                assert(false);
            },
        }
    }

    fn annotate_g16(&mut self, n: &Node)
        requires
            ann_group(*n) == 16u8,
            ok_node(*n),
        ensures
            final(self).state() == ann_node(old(self).state(), *n),
        decreases *n, 1int,
    {
        match n {
            Node::Class(_, f1, f2, f3) => {
                self.annotate_child(f1);
                self.annotate_opt(f2);
                self.annotate_opt(f3);
            },
            Node::If(_, f1, f2, f3) => {
                self.annotate_child(f1);
                self.annotate_opt(f2);
                self.annotate_opt(f3);
            },
            _ => {
                assert(false);
            },
        }
    }

    fn annotate_g17(&mut self, n: &Node)
        requires
            ann_group(*n) == 17u8,
            ok_node(*n),
        ensures
            final(self).state() == ann_node(old(self).state(), *n),
        decreases *n, 1int,
    {
        match n {
            Node::Const(_, f1, _) => {
                self.annotate_opt(f1);
            },
            Node::ConstLhs(_, f1, _) => {
                self.annotate_opt(f1);
            },
            _ => {
                assert(false);
            },
        }
    }

    fn annotate_g18(&mut self, n: &Node)
        requires
            ann_group(*n) == 18u8,
            ok_node(*n),
        ensures
            final(self).state() == ann_node(old(self).state(), *n),
        decreases *n, 1int,
    {
        match n {
            Node::ConstAsgn(_, f1, _, f3) => {
                self.annotate_opt(f1);
                self.annotate_child(f3);
            },
            _ => {
                assert(false);
            },
        }
    }

    fn annotate_g19(&mut self, n: &Node)
        requires
            ann_group(*n) == 19u8,
            ok_node(*n),
        ensures
            final(self).state() == ann_node(old(self).state(), *n),
        decreases *n, 1int,
    {
        match n {
            Node::CSend(_, f1, _, f3) => {
                self.annotate_opt(f1);
                self.annotate_nodes(f3);
            },
            Node::Send(_, f1, _, f3) => {
                self.annotate_opt(f1);
                self.annotate_nodes(f3);
            },
            _ => {
                assert(false);
            },
        }
    }

    fn annotate_g20(&mut self, n: &Node)
        requires
            ann_group(*n) == 20u8,
            ok_node(*n),
        ensures
            final(self).state() == ann_node(old(self).state(), *n),
        decreases *n, 1int,
    {
        match n {
            Node::CvarAsgn(_, _, f2) => {
                self.annotate_child(f2);
            },
            Node::GvarAsgn(_, _, f2) => {
                self.annotate_child(f2);
            },
            Node::IvarAsgn(_, _, f2) => {
                self.annotate_child(f2);
            },
            Node::Kwoptarg(_, _, f2) => {
                self.annotate_child(f2);
            },
            Node::LvarAsgn(_, _, f2) => {
                self.annotate_child(f2);
            },
            Node::Optarg(_, _, f2) => {
                self.annotate_child(f2);
            },
            _ => {
                assert(false);
            },
        }
    }

    fn annotate_g21(&mut self, n: &Node)
        requires
            ann_group(*n) == 21u8,
            ok_node(*n),
        ensures
            final(self).state() == ann_node(old(self).state(), *n),
        decreases *n, 1int,
    {
        match n {
            Node::Def(_, name, args, body) => {
                self.annotate_def(n, name, args);
                self.annotate_opt(body);
            },
            _ => {
                assert(false);
            },
        }
    }

    fn annotate_g22(&mut self, n: &Node)
        requires
            ann_group(*n) == 22u8,
            ok_node(*n),
        ensures
            final(self).state() == ann_node(old(self).state(), *n),
        decreases *n, 1int,
    {
        match n {
            Node::Defs(_, definee, name, args, body) => {
                self.annotate_child(definee);
                self.annotate_def(n, name, args);
                self.annotate_opt(body);
            },
            _ => {
                assert(false);
            },
        }
    }

    fn annotate_g23(&mut self, n: &Node)
        requires
            ann_group(*n) == 23u8,
            ok_node(*n),
        ensures
            final(self).state() == ann_node(old(self).state(), *n),
        decreases *n, 1int,
    {
        match n {
            Node::Ensure(_, f1, f2) => {
                self.annotate_opt(f1);
                self.annotate_child(f2);
            },
            _ => {
                assert(false);
            },
        }
    }

    fn annotate_g24(&mut self, n: &Node)
        requires
            ann_group(*n) == 24u8,
            ok_node(*n),
        ensures
            final(self).state() == ann_node(old(self).state(), *n),
        decreases *n, 1int,
    {
        match n {
            Node::Module(_, f1, f2) => {
                self.annotate_child(f1);
                self.annotate_opt(f2);
            },
            Node::SClass(_, f1, f2) => {
                self.annotate_child(f1);
                self.annotate_opt(f2);
            },
            Node::Until(_, f1, f2) => {
                self.annotate_child(f1);
                self.annotate_opt(f2);
            },
            Node::While(_, f1, f2) => {
                self.annotate_child(f1);
                self.annotate_opt(f2);
            },
            _ => {
                assert(false);
            },
        }
    }

    fn annotate_g25(&mut self, n: &Node)
        requires
            ann_group(*n) == 25u8,
            ok_node(*n),
        ensures
            final(self).state() == ann_node(old(self).state(), *n),
        decreases *n, 1int,
    {
        match n {
            Node::OpAsgn(_, f1, _, f3) => {
                self.annotate_child(f1);
                self.annotate_child(f3);
            },
            _ => {
                assert(false);
            },
        }
    }

    fn annotate_g26(&mut self, n: &Node)
        requires
            ann_group(*n) == 26u8,
            ok_node(*n),
        ensures
            final(self).state() == ann_node(old(self).state(), *n),
        decreases *n, 1int,
    {
        match n {
            Node::Postexe(_, f1) => {
                self.annotate_opt(f1);
            },
            Node::Preexe(_, f1) => {
                self.annotate_opt(f1);
            },
            Node::Splat(_, f1) => {
                self.annotate_opt(f1);
            },
            Node::SplatLhs(_, f1) => {
                self.annotate_opt(f1);
            },
            _ => {
                assert(false);
            },
        }
    }

    fn annotate_g27(&mut self, n: &Node)
        requires
            ann_group(*n) == 27u8,
            ok_node(*n),
        ensures
            final(self).state() == ann_node(old(self).state(), *n),
        decreases *n, 1int,
    {
        match n {
            Node::Regexp(_, f1, _) => {
                self.annotate_nodes(f1);
            },
            _ => {
                assert(false);
            },
        }
    }

    fn annotate_g28(&mut self, n: &Node)
        requires
            ann_group(*n) == 28u8,
            ok_node(*n),
        ensures
            final(self).state() == ann_node(old(self).state(), *n),
        decreases *n, 1int,
    {
        match n {
            Node::Resbody(_, f1, f2, f3) => {
                self.annotate_opt(f1);
                self.annotate_opt(f2);
                self.annotate_opt(f3);
            },
            _ => {
                assert(false);
            },
        }
    }

    fn annotate_g29(&mut self, n: &Node)
        requires
            ann_group(*n) == 29u8,
            ok_node(*n),
        ensures
            final(self).state() == ann_node(old(self).state(), *n),
        decreases *n, 1int,
    {
        match n {
            Node::TyCast(_, f1, _) => {
                self.annotate_child(f1);
            },
            _ => {
                assert(false);
            },
        }
    }

    fn annotate_g30(&mut self, n: &Node)
        requires
            ann_group(*n) == 30u8,
            ok_node(*n),
        ensures
            final(self).state() == ann_node(old(self).state(), *n),
        decreases *n, 1int,
    {
        match n {
            Node::When(_, f1, f2) => {
                self.annotate_nodes(f1);
                self.annotate_opt(f2);
            },
            _ => {
                assert(false);
            },
        }
    }

    /// Annotates the definitions in `n`.
    fn annotate_ref(&mut self, n: &Node)
        requires
            ok_node(*n),
        ensures
            final(self).state() == ann_node(old(self).state(), *n),
        decreases *n, 2int,
    {
        let g = ann_group_of(n);
        if g == 0u8 {
            self.annotate_g0(n);
        } else if g == 1u8 {
            self.annotate_g1(n);
        } else if g == 2u8 {
            self.annotate_g2(n);
        } else if g == 3u8 {
            self.annotate_g3(n);
        } else if g == 4u8 {
            self.annotate_g4(n);
        } else if g == 5u8 {
            self.annotate_g5(n);
        } else if g == 6u8 {
            self.annotate_g6(n);
        } else if g == 7u8 {
            self.annotate_g7(n);
        } else if g == 8u8 {
            self.annotate_g8(n);
        } else if g == 9u8 {
            self.annotate_g9(n);
        } else if g == 11u8 {
            self.annotate_g11(n);
        } else if g == 12u8 {
            self.annotate_g12(n);
        } else if g == 13u8 {
            self.annotate_g13(n);
        } else if g == 14u8 {
            self.annotate_g14(n);
        } else if g == 15u8 {
            self.annotate_g15(n);
        } else if g == 16u8 {
            self.annotate_g16(n);
        } else if g == 17u8 {
            self.annotate_g17(n);
        } else if g == 18u8 {
            self.annotate_g18(n);
        } else if g == 19u8 {
            self.annotate_g19(n);
        } else if g == 20u8 {
            self.annotate_g20(n);
        } else if g == 21u8 {
            self.annotate_g21(n);
        } else if g == 22u8 {
            self.annotate_g22(n);
        } else if g == 23u8 {
            self.annotate_g23(n);
        } else if g == 24u8 {
            self.annotate_g24(n);
        } else if g == 25u8 {
            self.annotate_g25(n);
        } else if g == 26u8 {
            self.annotate_g26(n);
        } else if g == 27u8 {
            self.annotate_g27(n);
        } else if g == 28u8 {
            self.annotate_g28(n);
        } else if g == 29u8 {
            self.annotate_g29(n);
        } else if g == 30u8 {
            self.annotate_g30(n);
        } else {
            assert(false);
        }
    }
}

/// The annotator: the annotations not used yet, sorted by line with the
/// latest line first so that the next one can be popped off the end, and
/// the insertions made so far.
pub struct Annotate {
    annotations: Vec<Annotation>,
    insert: Vec<Insertion>,
}

impl Annotate {
    /// The annotations waiting and the insertions made.
    pub closed spec fn state(&self) -> AnnState {
        (self.annotations@, ins_view(self.insert@))
    }

    /// An annotator holding `annotations`, sorted by line, latest first.
    fn new(annotations: Vec<Annotation>) -> (r: Self)
        ensures
            r.state() == (sort_by_line(annotations@), Seq::<(usize, Seq<char>)>::empty()),
    {
        let sorted = sort_annotations(annotations);
        let r = Annotate { annotations: sorted, insert: Vec::new() };
        assert(ins_view(r.insert@) =~= Seq::<(usize, Seq<char>)>::empty());
        r
    }

    /// The insertions that annotate the definitions in `ast`, or the parser's
    /// diagnostics when it reported an error.
    pub fn annotate(annotations: Vec<Annotation>, ast: Ast) -> (r: Result<Vec<Insertion>, AnnotateError>)
        requires
            ok_opt(ast.node),
        ensures
            has_error(ast.diagnostics@) ==> (r matches Err(AnnotateError::Syntax(d)) && d@ == ast.diagnostics@),
            !has_error(ast.diagnostics@) ==> (r matches Ok(v)
                && ins_view(v@) == ann_opt((sort_by_line(annotations@), Seq::empty()), ast.node).1),
    {
        let Ast { node, diagnostics } = ast;
        let mut i: usize = 0;
        while i < diagnostics.len()
            invariant
                i <= diagnostics@.len(),
                diagnostics@ == ast.diagnostics@,
                forall|j: int| 0 <= j < i ==> !(diagnostics@[j].level is Error),
            decreases diagnostics@.len() - i,
        {
            match diagnostics[i].level {
                Level::Error => {
                    assert(ast.diagnostics@[i as int].level is Error);
                    assert(has_error(ast.diagnostics@));
                    return Err(AnnotateError::Syntax(diagnostics));
                },
                _ => {},
            }
            i = i + 1;
        }
        assert(!has_error(ast.diagnostics@));
        let mut anno = Self::new(annotations);
        anno.annotate_node(&node);
        Ok(anno.insert)
    }

    /// Appends an insertion of `s` at `pos`.
    fn push_insertion(&mut self, pos: usize, s: String)
        ensures
            final(self).state() == (old(self).state().0, old(self).state().1.push((pos, s@))),
    {
        let ghost before = self.state();
        self.insert.push(Insertion { byte_pos: pos, string: s });
        assert(ins_view(self.insert@) =~= before.1.push((pos, s@)));
    }

    /// Takes the annotation of method `name` defined on `line`, dropping on
    /// the way the annotations of earlier lines, which no later definition
    /// can match.
    fn annotation_for_def(&mut self, line: usize, name: &str) -> (r: Option<Annotation>)
        ensures
            (final(self).state().0, r) == take_def(old(self).state().0, line, name@),
            final(self).state().1 == old(self).state().1,
    {
        while self.annotations.len() > 0 && self.annotations[self.annotations.len() - 1].line < line
            invariant
                trim_before(self.annotations@, line) == trim_before(old(self).annotations@, line),
                self.insert@ == old(self).insert@,
            decreases self.annotations@.len(),
        {
            self.annotations.pop();
        }
        match find_def_in(&self.annotations, line, name) {
            Some(index) => Some(self.annotations.swap_remove(index)),
            None => None,
        }
    }

    /// Annotates the definition `def` named `name` with arguments `args`.
    fn annotate_def(&mut self, def: &Node, name: &Id, args: &Option<Rc<Node>>)
        requires
            def_ok(def.spec_loc(), *args),
        ensures
            final(self).state() == ann_def(old(self).state(), def.spec_loc(), *name, *args),
    {
        let loc = def.loc();
        let line = loc.file.line_for_pos(loc.begin_pos).number;
        let anno = match self.annotation_for_def(line, name.1.as_str()) {
            Some(anno) => anno,
            None => return,
        };
        let ghost rest = self.state().0;
        let ghost ins0 = self.state().1;
        match args {
            None => {
                let pos = name.0.end_pos;
                self.push_insertion(pos, " => ".to_owned());
                self.push_insertion(pos, anno.retn);
                assert(self.state().1 =~= ins0 + ret_ins(pos, anno.retn@));
            },
            Some(a) => match &**a {
                Node::Args(args_loc, arg_nodes) => {
                    let tys = anno.args;
                    let mut i: usize = 0;
                    while i < arg_nodes.len() && i < tys.len()
                        invariant
                            i <= arg_nodes@.len(),
                            i <= tys@.len(),
                            self.state().0 == rest,
                            self.state().1 == ins0 + arg_ins_upto(arg_nodes@, tys@, i as int),
                        decreases arg_nodes@.len() - i,
                    {
                        let pos = arg_nodes[i].loc().begin_pos;
                        self.push_insertion(pos, tys[i].clone());
                        self.push_insertion(pos, " ".to_owned());
                        i = i + 1;
                        assert(self.state().1 =~= ins0 + arg_ins_upto(arg_nodes@, tys@, i as int));
                    }
                    let pos = args_loc.end_pos;
                    self.push_insertion(pos, " => ".to_owned());
                    self.push_insertion(pos, anno.retn);
                    assert(self.state().1 =~= ins0 + arg_ins(arg_nodes@, tys@) + ret_ins(pos, anno.retn@));
                },
                _ => {},
            },
        }
    }

    /// Annotates a child node.
    fn annotate_child(&mut self, r: &Rc<Node>)
        requires
            ok_node(**r),
        ensures
            final(self).state() == ann_rc(old(self).state(), *r),
        decreases **r, 3int,
    {
        self.annotate_ref(&**r)
    }

    /// Annotates an optional child node.
    fn annotate_opt(&mut self, o: &Option<Rc<Node>>)
        requires
            ok_opt(*o),
        ensures
            final(self).state() == ann_opt(old(self).state(), *o),
        decreases *o, 0int,
    {
        match o {
            Some(x) => self.annotate_child(x),
            None => {},
        }
    }

    /// Annotates the nodes `nodes` one after the other.
    fn annotate_nodes(&mut self, nodes: &Vec<Rc<Node>>)
        requires
            ok_list(nodes@),
        ensures
            final(self).state() == ann_list(old(self).state(), nodes@),
        decreases nodes@, 0int,
    {
        let mut i: usize = 0;
        while i < nodes.len()
            invariant
                i <= nodes@.len(),
                ok_list(nodes@),
                self.state() == ann_list(old(self).state(), nodes@.take(i as int)),
            decreases nodes@.len() - i,
        {
            proof {
                assert(nodes@.take(i + 1).drop_last() =~= nodes@.take(i as int));
                lemma_ok_list_member(nodes@, i as int);
                assert(decreases_to!(nodes@ => nodes@[i as int]));
            }
            self.annotate_child(&nodes[i]);
            i = i + 1;
        }
        assert(nodes@.take(nodes@.len() as int) =~= nodes@);
    }

    /// Annotates the definitions in `node`, if there is one.
    fn annotate_node<'n, T: IntoNode<'n>>(&mut self, node: T)
        requires
            match node.held() {
                Some(n) => ok_node(*n),
                None => true,
            },
        ensures
            final(self).state() == match node.held() {
                Some(n) => ann_node(old(self).state(), *n),
                None => old(self).state(),
            },
    {
        match node.into_node() {
            Some(n) => self.annotate_ref(n),
            None => {},
        }
    }
}

/// Whether the parser reported an error among `ds`.
pub open spec fn has_error(ds: Seq<Diagnostic>) -> bool {
    exists|i: int| 0 <= i < ds.len() && (#[trigger] ds[i]).level is Error
}

/// The insertions for the first `i` arguments of `nodes` with the types
/// `tys`.
pub open spec fn arg_ins_upto(nodes: Seq<Rc<Node>>, tys: Seq<String>, i: int) -> Seq<(usize, Seq<char>)>
    decreases i,
{
    if i <= 0 {
        seq![]
    } else {
        let pos = nodes[i - 1].spec_loc().begin_pos;
        arg_ins_upto(nodes, tys, i - 1) + seq![(pos, tys[i - 1]@), (pos, " "@)]
    }
}

/// Looks for the annotation of method `name` on `line` among the last
/// annotations of `a`.
fn find_def_in(a: &Vec<Annotation>, line: usize, name: &str) -> (r: Option<usize>)
    ensures
        match r {
            Some(i) => find_def(a@, line, name@, a@.len() as int) == Some(i as int) && i < a@.len(),
            None => find_def(a@, line, name@, a@.len() as int) is None,
        },
{
    let mut k: usize = a.len();
    while k > 0
        invariant
            k <= a@.len(),
            find_def(a@, line, name@, k as int) == find_def(a@, line, name@, a@.len() as int),
        decreases k,
    {
        if a[k - 1].line != line {
            return None;
        }
        if str_eq(a[k - 1].method.as_str(), name) {
            return Some(k - 1);
        }
        k = k - 1;
    }
    None
}

proof fn lemma_insert_by_line_at(s: Seq<Annotation>, x: Annotation, j: int)
    requires
        0 <= j <= s.len(),
        j == 0 || s[j - 1].line >= x.line,
        forall|k: int| j <= k < s.len() ==> #[trigger] s[k].line < x.line,
    ensures
        insert_by_line(s, x) == s.take(j).push(x) + s.skip(j),
    decreases s.len(),
{
    if s.len() == 0 {
        assert(s.take(j).push(x) + s.skip(j) =~= seq![x]);
    } else if j == s.len() {
        assert(s.take(j).push(x) + s.skip(j) =~= s.push(x));
    } else {
        lemma_insert_by_line_at(s.drop_last(), x, j);
        assert(s.drop_last().take(j).push(x) + s.drop_last().skip(j) + seq![s.last()] =~= s.take(j).push(x) + s.skip(j));
    }
}

/// `v` sorted by line, latest line first, stably.
fn sort_annotations(v: Vec<Annotation>) -> (r: Vec<Annotation>)
    ensures
        r@ == sort_by_line(v@),
{
    let ghost orig = v@;
    let mut v = v;
    let mut rev: Vec<Annotation> = Vec::new();
    while v.len() > 0
        invariant
            orig == v@ + rev@.reverse(),
        decreases v@.len(),
    {
        let x = v.pop().unwrap();
        rev.push(x);
        assert(orig =~= v@ + rev@.reverse());
    }
    assert(orig =~= rev@.reverse());
    let mut r: Vec<Annotation> = Vec::new();
    let ghost mut i: int = 0;
    while rev.len() > 0
        invariant
            0 <= i <= orig.len(),
            rev@.reverse() == orig.skip(i),
            r@ == sort_by_line(orig.take(i)),
        decreases rev@.len(),
    {
        let ghost before = rev@;
        let x = rev.pop().unwrap();
        proof {
            assert(before.reverse().len() == before.len());
            assert(orig.skip(i).len() == orig.len() - i);
            assert(i < orig.len());
            assert(before.reverse()[0] == x);
            assert(orig.skip(i)[0] == orig[i]);
            assert(x == orig[i]);
            assert forall|k: int| 0 <= k < rev@.len() implies #[trigger] rev@.reverse()[k] == orig.skip(i + 1)[k] by {
                assert(rev@.reverse()[k] == before.reverse()[k + 1]);
                assert(before.reverse()[k + 1] == orig.skip(i)[k + 1]);
                assert(orig.skip(i)[k + 1] == orig[i + 1 + k]);
                assert(orig.skip(i + 1)[k] == orig[i + 1 + k]);
            }
            assert(rev@.reverse() =~= orig.skip(i + 1));
        }
        let mut j: usize = r.len();
        while j > 0 && r[j - 1].line < x.line
            invariant
                j <= r@.len(),
                forall|k: int| j <= k < r@.len() ==> #[trigger] r@[k].line < x.line,
            decreases j,
        {
            j = j - 1;
        }
        proof {
            lemma_insert_by_line_at(r@, x, j as int);
            assert(orig.take(i + 1).drop_last() =~= orig.take(i));
        }
        r.insert(j, x);
        proof {
            i = i + 1;
        }
        assert(r@ =~= sort_by_line(orig.take(i)));
    }
    assert(orig.take(orig.len() as int) =~= orig);
    r
}

/// The elements of `a` and `b` taken in turn, starting with `a`; once one
/// runs out, the rest of the other.
pub open spec fn interleaved<T>(a: Seq<T>, b: Seq<T>) -> Seq<T>
    decreases a.len(),
{
    if a.len() == 0 {
        b
    } else if b.len() == 0 {
        a
    } else {
        seq![a[0], b[0]] + interleaved(a.drop_first(), b.drop_first())
    }
}

/// `Itertools::interleave` of itertools: alternates the elements of `a` and
/// `b`, starting with `a`, until both have run out.
#[verifier::external_body]
fn interleave_strs<'a>(a: Vec<&'a str>, b: Vec<&'a str>) -> (r: Vec<&'a str>)
    ensures
        r@ == interleaved(a@, b@),
{
    a.into_iter().interleave(b).collect()
}

/// `Itertools::tuple_windows` of itertools, taken by pairs: each element of
/// `v` paired with the one after it.
#[verifier::external_body]
fn pair_windows(v: Vec<usize>) -> (r: Vec<(usize, usize)>)
    ensures
        r@.len() == if v@.len() == 0 { 0 } else { v@.len() - 1 },
        forall|k: int| 0 <= k < r@.len() ==> #[trigger] r@[k] == (v@[k], v@[k + 1]),
{
    v.into_iter().tuple_windows::<(usize, usize)>().collect()
}

/// The bytes of `b` with the insertions `ins`, taken from offset `from`:
/// what lies before each insertion's offset, then its text.
pub open spec fn spliced(b: Seq<u8>, ins: Seq<(usize, Seq<char>)>, from: int) -> Seq<u8>
    decreases ins.len(),
{
    if ins.len() == 0 {
        b.subrange(from, b.len() as int)
    } else {
        b.subrange(from, ins[0].0 as int) + encode_utf8(ins[0].1) + spliced(b, ins.drop_first(), ins[0].0 as int)
    }
}

/// Insertions that can be made into the text `b`: their offsets fall on
/// character boundaries and do not go down.
pub open spec fn insertable(b: Seq<u8>, ins: Seq<(usize, Seq<char>)>) -> bool {
    &&& forall|i: int| 0 <= i < ins.len() ==> (#[trigger] ins[i]).0 <= b.len() && is_char_boundary(b, ins[i].0 as int)
    &&& forall|i: int, j: int| 0 <= i < j < ins.len() ==> (#[trigger] ins[i]).0 <= (#[trigger] ins[j]).0
}

/// The bytes of the strings `s`, one after the other.
pub open spec fn concat_bytes(s: Seq<&str>) -> Seq<u8>
    decreases s.len(),
{
    if s.len() == 0 {
        seq![]
    } else {
        s[0].spec_bytes() + concat_bytes(s.drop_first())
    }
}

proof fn lemma_concat_bytes_push(s: Seq<&str>, x: &str)
    ensures
        concat_bytes(s.push(x)) == concat_bytes(s) + x.spec_bytes(),
    decreases s.len(),
{
    if s.len() == 0 {
        let t = s.push(x);
        assert(t[0] == x);
        assert(t.drop_first() =~= Seq::<&str>::empty());
        assert(concat_bytes(t.drop_first()) == Seq::<u8>::empty());
        assert(concat_bytes(t) == x.spec_bytes() + Seq::<u8>::empty());
        assert(concat_bytes(s) == Seq::<u8>::empty());
        assert(concat_bytes(t) =~= concat_bytes(s) + x.spec_bytes());
    } else {
        lemma_concat_bytes_push(s.drop_first(), x);
        assert(s.push(x).drop_first() =~= s.drop_first().push(x));
        assert(concat_bytes(s.push(x)) =~= concat_bytes(s) + x.spec_bytes());
    }
}

proof fn lemma_encode_concat(a: Seq<char>, b: Seq<char>)
    ensures
        encode_utf8(a + b) == encode_utf8(a) + encode_utf8(b),
    decreases a.len(),
{
    if a.len() == 0 {
        assert(a + b =~= b);
        assert(encode_utf8(a) =~= Seq::<u8>::empty());
        assert(encode_utf8(a + b) =~= encode_utf8(a) + encode_utf8(b));
    } else {
        lemma_encode_concat(a.drop_first(), b);
        assert((a + b).drop_first() =~= a.drop_first() + b);
        assert(encode_utf8(a + b) =~= encode_utf8(a) + encode_utf8(b));
    }
}

/// The offset where chunk `k` of the text begins: the start, then each
/// insertion's offset, then the end.
pub open spec fn cut(len: int, ins: Seq<(usize, Seq<char>)>, k: int) -> int {
    if k == 0 { 0 } else if k <= ins.len() { ins[k - 1].0 as int } else { len }
}

proof fn lemma_spliced_parts(b: Seq<u8>, ins: Seq<(usize, Seq<char>)>, chunks: Seq<&str>, texts: Seq<&str>, k: int)
    requires
        0 <= k <= ins.len(),
        chunks.len() == ins.len() + 1,
        texts.len() == ins.len(),
        forall|j: int| 0 <= j < chunks.len() ==> (#[trigger] chunks[j]).spec_bytes()
            == b.subrange(cut(b.len() as int, ins, j), cut(b.len() as int, ins, j + 1)),
        forall|j: int| 0 <= j < texts.len() ==> (#[trigger] texts[j])@ == ins[j].1,
    ensures
        concat_bytes(interleaved(chunks.skip(k), texts.skip(k))) == spliced(b, ins.skip(k), cut(b.len() as int, ins, k)),
    decreases ins.len() - k,
{
    let n = ins.len() as int;
    if k == n {
        let a = chunks.skip(k);
        assert(texts.skip(k).len() == 0);
        assert(a =~= seq![chunks[n]]);
        assert(interleaved(a, texts.skip(k)) == a);
        assert(a[0] == chunks[n]);
        assert(a.drop_first() =~= Seq::<&str>::empty());
        assert(concat_bytes(a.drop_first()) == Seq::<u8>::empty());
        assert(concat_bytes(a) == chunks[n].spec_bytes() + Seq::<u8>::empty());
        assert(concat_bytes(a) =~= chunks[n].spec_bytes());
        assert(ins.skip(k).len() == 0);
    } else {
        lemma_spliced_parts(b, ins, chunks, texts, k + 1);
        let a = chunks.skip(k);
        let t = texts.skip(k);
        assert(a.drop_first() =~= chunks.skip(k + 1));
        assert(t.drop_first() =~= texts.skip(k + 1));
        assert(ins.skip(k).drop_first() =~= ins.skip(k + 1));
        let rest = interleaved(chunks.skip(k + 1), texts.skip(k + 1));
        let s1 = seq![a[0], t[0]] + rest;
        assert(interleaved(a, t) == s1);
        assert(s1[0] == a[0]);
        assert(concat_bytes(s1) == a[0].spec_bytes() + concat_bytes(s1.drop_first()));
        let s2 = s1.drop_first();
        assert(s2 =~= seq![t[0]] + rest);
        assert(s2[0] == t[0]);
        assert(concat_bytes(s2) == t[0].spec_bytes() + concat_bytes(s2.drop_first()));
        assert(s2.drop_first() =~= rest);
        assert(a[0] == chunks[k]);
        assert(t[0] == texts[k]);
        assert(ins.skip(k)[0] == ins[k]);
        assert(cut(b.len() as int, ins, k + 1) == ins[k].0);
        assert(concat_bytes(interleaved(a, t)) =~= chunks[k].spec_bytes() + (texts[k].spec_bytes() + concat_bytes(rest)));
    }
}

/// The bytes of `s` from offset `begin` to offset `end`.
fn str_between(s: &str, begin: usize, end: usize) -> (r: &str)
    requires
        begin <= end <= s.spec_bytes().len(),
        is_char_boundary(s.spec_bytes(), begin as int),
        is_char_boundary(s.spec_bytes(), end as int),
    ensures
        r.spec_bytes() == s.spec_bytes().subrange(begin as int, end as int),
{
    let (head, _) = s.split_at(end);
    assert(head.spec_bytes() =~= s.spec_bytes().subrange(0, end as int));
    proof {
        let sb = s.spec_bytes();
        let hb = head.spec_bytes();
        vstd::utf8::encode_utf8_valid_utf8(s@);
        vstd::utf8::valid_utf8_split(sb, end as int);
        vstd::utf8::is_char_boundary_start_end_of_seq(hb);
        if begin < end {
            assert(hb[begin as int] == sb[begin as int]);
            vstd::utf8::is_char_boundary_iff_not_is_continuation_byte(sb, begin as int);
            vstd::utf8::is_char_boundary_iff_not_is_continuation_byte(hb, begin as int);
        }
    }
    let (_, mid) = head.split_at(begin);
    assert(mid.spec_bytes() =~= s.spec_bytes().subrange(begin as int, end as int));
    mid
}

/// The text of `buffer` with each insertion's text put in at its offset.
pub fn insert(buffer: &str, insertions: &[Insertion]) -> (r: String)
    requires
        insertable(buffer.spec_bytes(), ins_view(insertions@)),
        buffer.spec_bytes().len() <= usize::MAX,
    ensures
        encode_utf8(r@) == spliced(buffer.spec_bytes(), ins_view(insertions@), 0),
{
    let ghost b = buffer.spec_bytes();
    let ghost ins = ins_view(insertions@);
    let n = insertions.len();
    let mut positions: Vec<usize> = Vec::new();
    positions.push(0);
    let mut i: usize = 0;
    while i < n
        invariant
            n == insertions@.len(),
            ins == ins_view(insertions@),
            i <= n,
            positions@.len() == i + 1,
            forall|k: int| 0 <= k <= i ==> #[trigger] positions@[k] == cut(b.len() as int, ins, k),
        decreases n - i,
    {
        positions.push(insertions[i].byte_pos);
        i = i + 1;
    }
    positions.push(buffer.len());
    assert(ins.len() == n);
    assert(positions@[n as int + 1] == cut(b.len() as int, ins, n + 1));
    let ghost ps = positions@;
    let windows = pair_windows(positions);
    let mut chunks: Vec<&str> = Vec::new();
    let mut k: usize = 0;
    while k < windows.len()
        invariant
            b == buffer.spec_bytes(),
            ins == ins_view(insertions@),
            insertable(b, ins),
            n == insertions@.len(),
            b.len() <= usize::MAX,
            ps.len() == n + 2,
            forall|j: int| 0 <= j < ps.len() ==> #[trigger] ps[j] as int == cut(b.len() as int, ins, j),
            windows@.len() == n + 1,
            forall|j: int| 0 <= j < windows@.len() ==> #[trigger] windows@[j] == (ps[j], ps[j + 1]),
            k <= windows@.len(),
            chunks@.len() == k,
            forall|j: int| 0 <= j < k ==> (#[trigger] chunks@[j]).spec_bytes()
                == b.subrange(cut(b.len() as int, ins, j), cut(b.len() as int, ins, j + 1)),
        decreases windows@.len() - k,
    {
        let (begin, end) = windows[k];
        proof {
            vstd::utf8::encode_utf8_valid_utf8(buffer@);
            vstd::utf8::is_char_boundary_start_end_of_seq(b);
            assert(windows@[k as int] == (ps[k as int], ps[k + 1]));
            assert(ps[k as int] as int == cut(b.len() as int, ins, k as int));
            assert(ps[k + 1] as int == cut(b.len() as int, ins, k + 1));
            if 0 < k && k < n {
                assert(ins[k - 1].0 <= ins[k as int].0);
            }
            if k < n {
                assert(ins[k as int].0 <= b.len() && is_char_boundary(b, ins[k as int].0 as int));
            }
            if 0 < k && k <= n {
                assert(ins[k - 1].0 <= b.len() && is_char_boundary(b, ins[k - 1].0 as int));
            }
        }
        chunks.push(str_between(buffer, begin, end));
        k = k + 1;
    }
    let mut texts: Vec<&str> = Vec::new();
    let mut k: usize = 0;
    while k < n
        invariant
            n == insertions@.len(),
            ins == ins_view(insertions@),
            k <= n,
            texts@.len() == k,
            forall|j: int| 0 <= j < k ==> (#[trigger] texts@[j])@ == ins[j].1,
        decreases n - k,
    {
        texts.push(insertions[k].string.as_str());
        k = k + 1;
    }
    proof {
        lemma_spliced_parts(b, ins, chunks@, texts@, 0);
        assert(chunks@.skip(0) =~= chunks@);
        assert(texts@.skip(0) =~= texts@);
        assert(ins.skip(0) =~= ins);
    }
    let parts = interleave_strs(chunks, texts);
    let mut out = String::new();
    let mut k: usize = 0;
    while k < parts.len()
        invariant
            k <= parts@.len(),
            encode_utf8(out@) == concat_bytes(parts@.take(k as int)),
        decreases parts@.len() - k,
    {
        proof {
            lemma_concat_bytes_push(parts@.take(k as int), parts@[k as int]);
            lemma_encode_concat(out@, parts@[k as int]@);
            assert(parts@.take(k + 1) =~= parts@.take(k as int).push(parts@[k as int]));
        }
        push_str(&mut out, parts[k]);
        k = k + 1;
    }
    assert(parts@.take(parts@.len() as int) =~= parts@);
    out
}

} // verus!
