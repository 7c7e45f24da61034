//! The syntax tree of a Ruby source file and the locations it refers to.

use std::rc::Rc;
use vstd::prelude::*;

verus! {

/// Number of newline bytes in `b`.
pub open spec fn count_newlines(b: Seq<u8>) -> nat
    decreases b.len(),
{
    if b.len() == 0 {
        0
    } else {
        count_newlines(b.drop_last()) + if b.last() == 10u8 { 1nat } else { 0nat }
    }
}

/// Byte offset at which the line holding byte offset `pos` begins.
pub open spec fn line_start(b: Seq<u8>, pos: int) -> int
    decreases pos,
{
    if pos <= 0 {
        0
    } else if b[pos - 1] == 10u8 {
        pos
    } else {
        line_start(b, pos - 1)
    }
}

/// Byte offset of the newline that ends the line holding byte offset `pos`,
/// or the length of `b` when that line is the last one.
pub open spec fn line_end(b: Seq<u8>, pos: int) -> int
    decreases b.len() - pos,
{
    if pos >= b.len() {
        b.len() as int
    } else if b[pos] == 10u8 {
        pos
    } else {
        line_end(b, pos + 1)
    }
}

/// A source file: its name and its contents.
#[derive(Debug)]
pub struct SourceFile {
    pub filename: String,
    pub source: String,
}

/// One line of a source file: its 1-based number and the byte range it spans
/// (without the terminating newline).
#[derive(Debug, Clone, Copy, PartialEq, Eq)]
pub struct SourceLine {
    pub number: usize,
    pub begin_pos: usize,
    pub end_pos: usize,
}

impl SourceFile {
    pub fn new(filename: String, source: String) -> (r: SourceFile)
        ensures
            r.filename@ == filename@,
            r.source@ == source@,
    {
        SourceFile { filename, source }
    }

    pub fn filename(&self) -> (r: &str)
        ensures
            r@ == self.filename@,
    {
        self.filename.as_str()
    }

    pub fn source(&self) -> (r: &str)
        ensures
            r@ == self.source@,
    {
        self.source.as_str()
    }

    /// The bytes of the source text.
    pub open spec fn bytes(&self) -> Seq<u8> {
        vstd::utf8::encode_utf8(self.source@)
    }

    /// The line that holds byte offset `pos`.
    pub fn line_for_pos(&self, pos: usize) -> (r: SourceLine)
        requires
            pos <= self.bytes().len(),
            pos < usize::MAX,
        ensures
            r.number == 1 + count_newlines(self.bytes().take(pos as int)),
            r.begin_pos == line_start(self.bytes(), pos as int),
            r.end_pos == line_end(self.bytes(), pos as int),
    {
        let b = self.source.as_str().as_bytes();
        let ghost bs = self.bytes();
        let mut number: usize = 1;
        let mut i: usize = 0;
        let mut begin: usize = 0;
        while i < pos
            invariant
                b@ == bs,
                pos <= b@.len(),
                i <= pos,
                pos < usize::MAX,
                number == 1 + count_newlines(bs.take(i as int)),
                begin == line_start(bs, i as int),
                count_newlines(bs.take(i as int)) <= i,
            decreases pos - i,
        {
            assert(bs.take(i + 1).drop_last() =~= bs.take(i as int));
            if b[i] == 10u8 {
                number = number + 1;
                begin = i + 1;
            }
            i = i + 1;
        }
        let mut end: usize = pos;
        while end < b.len() && b[end] != 10u8
            invariant
                b@ == bs,
                pos <= end <= b@.len(),
                line_end(bs, end as int) == line_end(bs, pos as int),
            decreases b@.len() - end,
        {
            end = end + 1;
        }
        SourceLine { number, begin_pos: begin, end_pos: end }
    }
}

/// A byte range of a source file.
#[derive(Debug)]
pub struct Loc {
    pub file: Rc<SourceFile>,
    pub begin_pos: usize,
    pub end_pos: usize,
}

impl Clone for Loc {
    fn clone(&self) -> (r: Self)
        ensures
            r == *self,
    {
        Loc { file: Rc::clone(&self.file), begin_pos: self.begin_pos, end_pos: self.end_pos }
    }
}

/// The smallest range that covers both `a` and `b`, in the file of `a`.
pub open spec fn join_locs(a: Loc, b: Loc) -> Loc {
    Loc {
        file: a.file,
        begin_pos: if a.begin_pos <= b.begin_pos { a.begin_pos } else { b.begin_pos },
        end_pos: if a.end_pos >= b.end_pos { a.end_pos } else { b.end_pos },
    }
}

impl Loc {
    /// The smallest location that covers both `self` and `other`.
    pub fn join(&self, other: &Loc) -> (r: Loc)
        ensures
            r == join_locs(*self, *other),
    {
        let begin_pos = if self.begin_pos <= other.begin_pos { self.begin_pos } else { other.begin_pos };
        let end_pos = if self.end_pos >= other.end_pos { self.end_pos } else { other.end_pos };
        Loc { file: Rc::clone(&self.file), begin_pos, end_pos }
    }
}

/// An identifier together with the location where it is written.
#[derive(Debug)]
pub struct Id(pub Loc, pub String);

impl Clone for Id {
    fn clone(&self) -> (r: Self)
        ensures
            r == *self,
    {
        Id(self.0.clone(), self.1.clone())
    }
}

/// Severity of a parser diagnostic.
#[derive(Debug, Clone, Copy, PartialEq, Eq)]
pub enum Level {
    Note,
    Warning,
    Error,
    Fatal,
}

/// A message reported by the parser.
#[derive(Debug)]
pub struct Diagnostic {
    pub level: Level,
    pub message: String,
    pub loc: Loc,
}

/// A comment in the source text.
#[derive(Debug)]
pub struct Comment {
    pub loc: Loc,
    pub contents: String,
}

/// The result of parsing a file: the tree, if there was any code, and the
/// diagnostics reported on the way.
#[derive(Debug)]
pub struct Ast {
    pub node: Option<Rc<Node>>,
    pub diagnostics: Vec<Diagnostic>,
}

/// A node of the Ruby syntax tree. The first field of every variant is the
/// source location that the node covers.
#[derive(Debug)]
pub enum Node {
    Alias(Loc, Rc<Node>, Rc<Node>),
    And(Loc, Rc<Node>, Rc<Node>),
    AndAsgn(Loc, Rc<Node>, Rc<Node>),
    Arg(Loc, String),
    Args(Loc, Vec<Rc<Node>>),
    Array(Loc, Vec<Rc<Node>>),
    Backref(Loc, String),
    Begin(Loc, Vec<Rc<Node>>),
    Block(Loc, Rc<Node>, Rc<Node>, Option<Rc<Node>>),
    Blockarg(Loc, Option<Id>),
    BlockPass(Loc, Rc<Node>),
    Break(Loc, Vec<Rc<Node>>),
    Case(Loc, Option<Rc<Node>>, Vec<Rc<Node>>, Option<Rc<Node>>),
    Cbase(Loc),
    Class(Loc, Rc<Node>, Option<Rc<Node>>, Option<Rc<Node>>),
    Complex(Loc, String),
    Const(Loc, Option<Rc<Node>>, Id),
    ConstAsgn(Loc, Option<Rc<Node>>, Id, Rc<Node>),
    ConstLhs(Loc, Option<Rc<Node>>, Id),
    CSend(Loc, Option<Rc<Node>>, Id, Vec<Rc<Node>>),
    Cvar(Loc, String),
    CvarAsgn(Loc, Id, Rc<Node>),
    CvarLhs(Loc, Id),
    Def(Loc, Id, Option<Rc<Node>>, Option<Rc<Node>>),
    Defined(Loc, Rc<Node>),
    Defs(Loc, Rc<Node>, Id, Option<Rc<Node>>, Option<Rc<Node>>),
    DString(Loc, Vec<Rc<Node>>),
    DSymbol(Loc, Vec<Rc<Node>>),
    EFlipflop(Loc, Rc<Node>, Rc<Node>),
    EncodingLiteral(Loc),
    Ensure(Loc, Option<Rc<Node>>, Rc<Node>),
    ERange(Loc, Rc<Node>, Rc<Node>),
    False(Loc),
    FileLiteral(Loc),
    Float(Loc, String),
    For(Loc, Rc<Node>, Rc<Node>, Option<Rc<Node>>),
    Gvar(Loc, String),
    GvarAsgn(Loc, Id, Rc<Node>),
    GvarLhs(Loc, Id),
    Hash(Loc, Vec<Rc<Node>>),
    Ident(Loc, String),
    If(Loc, Rc<Node>, Option<Rc<Node>>, Option<Rc<Node>>),
    IFlipflop(Loc, Rc<Node>, Rc<Node>),
    Integer(Loc, String),
    IRange(Loc, Rc<Node>, Rc<Node>),
    Ivar(Loc, String),
    IvarAsgn(Loc, Id, Rc<Node>),
    IvarLhs(Loc, Id),
    Kwarg(Loc, String),
    Kwbegin(Loc, Vec<Rc<Node>>),
    Kwoptarg(Loc, Id, Rc<Node>),
    Kwrestarg(Loc, Option<Id>),
    Kwsplat(Loc, Rc<Node>),
    Lambda(Loc),
    LineLiteral(Loc),
    Lvar(Loc, String),
    LvarAsgn(Loc, Id, Rc<Node>),
    LvarLhs(Loc, Id),
    Masgn(Loc, Rc<Node>, Rc<Node>),
    MatchAsgn(Loc, Rc<Node>, Rc<Node>),
    MatchCurLine(Loc, Rc<Node>),
    Mlhs(Loc, Vec<Rc<Node>>),
    Module(Loc, Rc<Node>, Option<Rc<Node>>),
    Next(Loc, Vec<Rc<Node>>),
    Nil(Loc),
    NthRef(Loc, usize),
    OpAsgn(Loc, Rc<Node>, Id, Rc<Node>),
    Optarg(Loc, Id, Rc<Node>),
    Or(Loc, Rc<Node>, Rc<Node>),
    OrAsgn(Loc, Rc<Node>, Rc<Node>),
    Pair(Loc, Rc<Node>, Rc<Node>),
    Postexe(Loc, Option<Rc<Node>>),
    Preexe(Loc, Option<Rc<Node>>),
    Procarg0(Loc, Rc<Node>),
    Rational(Loc, String),
    Redo(Loc),
    Regexp(Loc, Vec<Rc<Node>>, Option<Rc<Node>>),
    Regopt(Loc, Vec<char>),
    Resbody(Loc, Option<Rc<Node>>, Option<Rc<Node>>, Option<Rc<Node>>),
    Rescue(Loc, Option<Rc<Node>>, Vec<Rc<Node>>, Option<Rc<Node>>),
    Restarg(Loc, Option<Id>),
    Retry(Loc),
    Return(Loc, Vec<Rc<Node>>),
    SClass(Loc, Rc<Node>, Option<Rc<Node>>),
    Self_(Loc),
    Send(Loc, Option<Rc<Node>>, Id, Vec<Rc<Node>>),
    ShadowArg(Loc, Id),
    Splat(Loc, Option<Rc<Node>>),
    SplatLhs(Loc, Option<Rc<Node>>),
    String(Loc, String),
    Super(Loc, Vec<Rc<Node>>),
    Symbol(Loc, String),
    True(Loc),
    TyAny(Loc),
    TyArray(Loc, Rc<Node>),
    TyCast(Loc, Rc<Node>, Rc<Node>),
    TyClass(Loc),
    TyConSubtype(Loc, Rc<Node>, Rc<Node>),
    TyConUnify(Loc, Rc<Node>, Rc<Node>),
    TyConstInstance(Loc, Rc<Node>, Vec<Rc<Node>>),
    TyCpath(Loc, Rc<Node>),
    TyGenargs(Loc, Vec<Rc<Node>>),
    TyGendecl(Loc, Rc<Node>, Vec<Rc<Node>>),
    TyGendeclarg(Loc, String, Option<Rc<Node>>),
    TyGeninst(Loc, Rc<Node>, Vec<Rc<Node>>),
    TyHash(Loc, Rc<Node>, Rc<Node>),
    TyInstance(Loc),
    TyIvardecl(Loc, Id, Rc<Node>),
    TyNil(Loc),
    TyNillable(Loc, Rc<Node>),
    TyOr(Loc, Rc<Node>, Rc<Node>),
    TyParen(Loc, Rc<Node>),
    TyProc(Loc, Rc<Node>),
    TyPrototype(Loc, Option<Rc<Node>>, Rc<Node>, Option<Rc<Node>>),
    TyReturnSig(Loc, Rc<Node>),
    TySelf(Loc),
    TyTuple(Loc, Vec<Rc<Node>>),
    TyTypedArg(Loc, Rc<Node>, Rc<Node>),
    Undef(Loc, Vec<Rc<Node>>),
    Until(Loc, Rc<Node>, Option<Rc<Node>>),
    UntilPost(Loc, Rc<Node>, Rc<Node>),
    When(Loc, Vec<Rc<Node>>, Option<Rc<Node>>),
    While(Loc, Rc<Node>, Option<Rc<Node>>),
    WhilePost(Loc, Rc<Node>, Rc<Node>),
    XString(Loc, Vec<Rc<Node>>),
    Yield(Loc, Vec<Rc<Node>>),
    ZSuper(Loc),
}

impl Node {
    /// The location of a node: the first field of its variant.
    pub open spec fn spec_loc(&self) -> Loc {
        match self {
            Node::Alias(loc, ..) => *loc,
            Node::And(loc, ..) => *loc,
            Node::AndAsgn(loc, ..) => *loc,
            Node::Arg(loc, ..) => *loc,
            Node::Args(loc, ..) => *loc,
            Node::Array(loc, ..) => *loc,
            Node::Backref(loc, ..) => *loc,
            Node::Begin(loc, ..) => *loc,
            Node::Block(loc, ..) => *loc,
            Node::Blockarg(loc, ..) => *loc,
            Node::BlockPass(loc, ..) => *loc,
            Node::Break(loc, ..) => *loc,
            Node::Case(loc, ..) => *loc,
            Node::Cbase(loc) => *loc,
            Node::Class(loc, ..) => *loc,
            Node::Complex(loc, ..) => *loc,
            Node::Const(loc, ..) => *loc,
            Node::ConstAsgn(loc, ..) => *loc,
            Node::ConstLhs(loc, ..) => *loc,
            Node::CSend(loc, ..) => *loc,
            Node::Cvar(loc, ..) => *loc,
            Node::CvarAsgn(loc, ..) => *loc,
            Node::CvarLhs(loc, ..) => *loc,
            Node::Def(loc, ..) => *loc,
            Node::Defined(loc, ..) => *loc,
            Node::Defs(loc, ..) => *loc,
            Node::DString(loc, ..) => *loc,
            Node::DSymbol(loc, ..) => *loc,
            Node::EFlipflop(loc, ..) => *loc,
            Node::EncodingLiteral(loc) => *loc,
            Node::Ensure(loc, ..) => *loc,
            Node::ERange(loc, ..) => *loc,
            Node::False(loc) => *loc,
            Node::FileLiteral(loc) => *loc,
            Node::Float(loc, ..) => *loc,
            Node::For(loc, ..) => *loc,
            Node::Gvar(loc, ..) => *loc,
            Node::GvarAsgn(loc, ..) => *loc,
            Node::GvarLhs(loc, ..) => *loc,
            Node::Hash(loc, ..) => *loc,
            Node::Ident(loc, ..) => *loc,
            Node::If(loc, ..) => *loc,
            Node::IFlipflop(loc, ..) => *loc,
            Node::Integer(loc, ..) => *loc,
            Node::IRange(loc, ..) => *loc,
            Node::Ivar(loc, ..) => *loc,
            Node::IvarAsgn(loc, ..) => *loc,
            Node::IvarLhs(loc, ..) => *loc,
            Node::Kwarg(loc, ..) => *loc,
            Node::Kwbegin(loc, ..) => *loc,
            Node::Kwoptarg(loc, ..) => *loc,
            Node::Kwrestarg(loc, ..) => *loc,
            Node::Kwsplat(loc, ..) => *loc,
            Node::Lambda(loc) => *loc,
            Node::LineLiteral(loc) => *loc,
            Node::Lvar(loc, ..) => *loc,
            Node::LvarAsgn(loc, ..) => *loc,
            Node::LvarLhs(loc, ..) => *loc,
            Node::Masgn(loc, ..) => *loc,
            Node::MatchAsgn(loc, ..) => *loc,
            Node::MatchCurLine(loc, ..) => *loc,
            Node::Mlhs(loc, ..) => *loc,
            Node::Module(loc, ..) => *loc,
            Node::Next(loc, ..) => *loc,
            Node::Nil(loc) => *loc,
            Node::NthRef(loc, ..) => *loc,
            Node::OpAsgn(loc, ..) => *loc,
            Node::Optarg(loc, ..) => *loc,
            Node::Or(loc, ..) => *loc,
            Node::OrAsgn(loc, ..) => *loc,
            Node::Pair(loc, ..) => *loc,
            Node::Postexe(loc, ..) => *loc,
            Node::Preexe(loc, ..) => *loc,
            Node::Procarg0(loc, ..) => *loc,
            Node::Rational(loc, ..) => *loc,
            Node::Redo(loc) => *loc,
            Node::Regexp(loc, ..) => *loc,
            Node::Regopt(loc, ..) => *loc,
            Node::Resbody(loc, ..) => *loc,
            Node::Rescue(loc, ..) => *loc,
            Node::Restarg(loc, ..) => *loc,
            Node::Retry(loc) => *loc,
            Node::Return(loc, ..) => *loc,
            Node::SClass(loc, ..) => *loc,
            Node::Self_(loc) => *loc,
            Node::Send(loc, ..) => *loc,
            Node::ShadowArg(loc, ..) => *loc,
            Node::Splat(loc, ..) => *loc,
            Node::SplatLhs(loc, ..) => *loc,
            Node::String(loc, ..) => *loc,
            Node::Super(loc, ..) => *loc,
            Node::Symbol(loc, ..) => *loc,
            Node::True(loc) => *loc,
            Node::TyAny(loc) => *loc,
            Node::TyArray(loc, ..) => *loc,
            Node::TyCast(loc, ..) => *loc,
            Node::TyClass(loc) => *loc,
            Node::TyConSubtype(loc, ..) => *loc,
            Node::TyConUnify(loc, ..) => *loc,
            Node::TyConstInstance(loc, ..) => *loc,
            Node::TyCpath(loc, ..) => *loc,
            Node::TyGenargs(loc, ..) => *loc,
            Node::TyGendecl(loc, ..) => *loc,
            Node::TyGendeclarg(loc, ..) => *loc,
            Node::TyGeninst(loc, ..) => *loc,
            Node::TyHash(loc, ..) => *loc,
            Node::TyInstance(loc) => *loc,
            Node::TyIvardecl(loc, ..) => *loc,
            Node::TyNil(loc) => *loc,
            Node::TyNillable(loc, ..) => *loc,
            Node::TyOr(loc, ..) => *loc,
            Node::TyParen(loc, ..) => *loc,
            Node::TyProc(loc, ..) => *loc,
            Node::TyPrototype(loc, ..) => *loc,
            Node::TyReturnSig(loc, ..) => *loc,
            Node::TySelf(loc) => *loc,
            Node::TyTuple(loc, ..) => *loc,
            Node::TyTypedArg(loc, ..) => *loc,
            Node::Undef(loc, ..) => *loc,
            Node::Until(loc, ..) => *loc,
            Node::UntilPost(loc, ..) => *loc,
            Node::When(loc, ..) => *loc,
            Node::While(loc, ..) => *loc,
            Node::WhilePost(loc, ..) => *loc,
            Node::XString(loc, ..) => *loc,
            Node::Yield(loc, ..) => *loc,
            Node::ZSuper(loc) => *loc,
        }
    }

    /// Returns the location of this node.
    pub fn loc(&self) -> (r: &Loc)
        ensures
            *r == self.spec_loc(),
    {
        match self {
            Node::Alias(loc, ..) => loc,
            Node::And(loc, ..) => loc,
            Node::AndAsgn(loc, ..) => loc,
            Node::Arg(loc, ..) => loc,
            Node::Args(loc, ..) => loc,
            Node::Array(loc, ..) => loc,
            Node::Backref(loc, ..) => loc,
            Node::Begin(loc, ..) => loc,
            Node::Block(loc, ..) => loc,
            Node::Blockarg(loc, ..) => loc,
            Node::BlockPass(loc, ..) => loc,
            Node::Break(loc, ..) => loc,
            Node::Case(loc, ..) => loc,
            Node::Cbase(loc) => loc,
            Node::Class(loc, ..) => loc,
            Node::Complex(loc, ..) => loc,
            Node::Const(loc, ..) => loc,
            Node::ConstAsgn(loc, ..) => loc,
            Node::ConstLhs(loc, ..) => loc,
            Node::CSend(loc, ..) => loc,
            Node::Cvar(loc, ..) => loc,
            Node::CvarAsgn(loc, ..) => loc,
            Node::CvarLhs(loc, ..) => loc,
            Node::Def(loc, ..) => loc,
            Node::Defined(loc, ..) => loc,
            Node::Defs(loc, ..) => loc,
            Node::DString(loc, ..) => loc,
            Node::DSymbol(loc, ..) => loc,
            Node::EFlipflop(loc, ..) => loc,
            Node::EncodingLiteral(loc) => loc,
            Node::Ensure(loc, ..) => loc,
            Node::ERange(loc, ..) => loc,
            Node::False(loc) => loc,
            Node::FileLiteral(loc) => loc,
            Node::Float(loc, ..) => loc,
            Node::For(loc, ..) => loc,
            Node::Gvar(loc, ..) => loc,
            Node::GvarAsgn(loc, ..) => loc,
            Node::GvarLhs(loc, ..) => loc,
            Node::Hash(loc, ..) => loc,
            Node::Ident(loc, ..) => loc,
            Node::If(loc, ..) => loc,
            Node::IFlipflop(loc, ..) => loc,
            Node::Integer(loc, ..) => loc,
            Node::IRange(loc, ..) => loc,
            Node::Ivar(loc, ..) => loc,
            Node::IvarAsgn(loc, ..) => loc,
            Node::IvarLhs(loc, ..) => loc,
            Node::Kwarg(loc, ..) => loc,
            Node::Kwbegin(loc, ..) => loc,
            Node::Kwoptarg(loc, ..) => loc,
            Node::Kwrestarg(loc, ..) => loc,
            Node::Kwsplat(loc, ..) => loc,
            Node::Lambda(loc) => loc,
            Node::LineLiteral(loc) => loc,
            Node::Lvar(loc, ..) => loc,
            Node::LvarAsgn(loc, ..) => loc,
            Node::LvarLhs(loc, ..) => loc,
            Node::Masgn(loc, ..) => loc,
            Node::MatchAsgn(loc, ..) => loc,
            Node::MatchCurLine(loc, ..) => loc,
            Node::Mlhs(loc, ..) => loc,
            Node::Module(loc, ..) => loc,
            Node::Next(loc, ..) => loc,
            Node::Nil(loc) => loc,
            Node::NthRef(loc, ..) => loc,
            Node::OpAsgn(loc, ..) => loc,
            Node::Optarg(loc, ..) => loc,
            Node::Or(loc, ..) => loc,
            Node::OrAsgn(loc, ..) => loc,
            Node::Pair(loc, ..) => loc,
            Node::Postexe(loc, ..) => loc,
            Node::Preexe(loc, ..) => loc,
            Node::Procarg0(loc, ..) => loc,
            Node::Rational(loc, ..) => loc,
            Node::Redo(loc) => loc,
            Node::Regexp(loc, ..) => loc,
            Node::Regopt(loc, ..) => loc,
            Node::Resbody(loc, ..) => loc,
            Node::Rescue(loc, ..) => loc,
            Node::Restarg(loc, ..) => loc,
            Node::Retry(loc) => loc,
            Node::Return(loc, ..) => loc,
            Node::SClass(loc, ..) => loc,
            Node::Self_(loc) => loc,
            Node::Send(loc, ..) => loc,
            Node::ShadowArg(loc, ..) => loc,
            Node::Splat(loc, ..) => loc,
            Node::SplatLhs(loc, ..) => loc,
            Node::String(loc, ..) => loc,
            Node::Super(loc, ..) => loc,
            Node::Symbol(loc, ..) => loc,
            Node::True(loc) => loc,
            Node::TyAny(loc) => loc,
            Node::TyArray(loc, ..) => loc,
            Node::TyCast(loc, ..) => loc,
            Node::TyClass(loc) => loc,
            Node::TyConSubtype(loc, ..) => loc,
            Node::TyConUnify(loc, ..) => loc,
            Node::TyConstInstance(loc, ..) => loc,
            Node::TyCpath(loc, ..) => loc,
            Node::TyGenargs(loc, ..) => loc,
            Node::TyGendecl(loc, ..) => loc,
            Node::TyGendeclarg(loc, ..) => loc,
            Node::TyGeninst(loc, ..) => loc,
            Node::TyHash(loc, ..) => loc,
            Node::TyInstance(loc) => loc,
            Node::TyIvardecl(loc, ..) => loc,
            Node::TyNil(loc) => loc,
            Node::TyNillable(loc, ..) => loc,
            Node::TyOr(loc, ..) => loc,
            Node::TyParen(loc, ..) => loc,
            Node::TyProc(loc, ..) => loc,
            Node::TyPrototype(loc, ..) => loc,
            Node::TyReturnSig(loc, ..) => loc,
            Node::TySelf(loc) => loc,
            Node::TyTuple(loc, ..) => loc,
            Node::TyTypedArg(loc, ..) => loc,
            Node::Undef(loc, ..) => loc,
            Node::Until(loc, ..) => loc,
            Node::UntilPost(loc, ..) => loc,
            Node::When(loc, ..) => loc,
            Node::While(loc, ..) => loc,
            Node::WhilePost(loc, ..) => loc,
            Node::XString(loc, ..) => loc,
            Node::Yield(loc, ..) => loc,
            Node::ZSuper(loc) => loc,
        }
    }
}


/// Something that may hold a node: a node, or an optional node.
pub trait IntoNode<'a>: Sized {
    /// The node held, if any.
    spec fn held(self) -> Option<&'a Node>;

    fn into_node(self) -> (r: Option<&'a Node>)
        ensures
            r == self.held();
}

impl<'a> IntoNode<'a> for &'a Rc<Node> {
    open spec fn held(self) -> Option<&'a Node> {
        Some(&**self)
    }

    fn into_node(self) -> (r: Option<&'a Node>) {
        Some(&**self)
    }
}

impl<'a> IntoNode<'a> for &'a Option<Rc<Node>> {
    open spec fn held(self) -> Option<&'a Node> {
        match self {
            Some(n) => Some(&**n),
            None => None,
        }
    }

    fn into_node(self) -> (r: Option<&'a Node>) {
        match self {
            Some(n) => Some(&**n),
            None => None,
        }
    }
}

/// The node, if there is one, as a sequence.
pub open spec fn opt_nodes(o: Option<Rc<Node>>) -> Seq<Rc<Node>> {
    match o {
        Some(n) => seq![n],
        None => Seq::empty(),
    }
}

/// The child nodes of a node, in the order of its fields: a child field
/// gives its node, an optional one its node where present, a list field
/// its nodes in order.
pub open spec fn children(n: Node) -> Seq<Rc<Node>> {
    match n {
        Node::Alias(_, f1, f2) => seq![f1] + seq![f2],
        Node::And(_, f1, f2) => seq![f1] + seq![f2],
        Node::AndAsgn(_, f1, f2) => seq![f1] + seq![f2],
        Node::Arg(..) => Seq::empty(),
        Node::Args(_, f1) => f1@,
        Node::Array(_, f1) => f1@,
        Node::Backref(..) => Seq::empty(),
        Node::Begin(_, f1) => f1@,
        Node::Block(_, f1, f2, f3) => seq![f1] + seq![f2] + opt_nodes(f3),
        Node::Blockarg(..) => Seq::empty(),
        Node::BlockPass(_, f1) => seq![f1],
        Node::Break(_, f1) => f1@,
        Node::Case(_, f1, f2, f3) => opt_nodes(f1) + f2@ + opt_nodes(f3),
        Node::Cbase(..) => Seq::empty(),
        Node::Class(_, f1, f2, f3) => seq![f1] + opt_nodes(f2) + opt_nodes(f3),
        Node::Complex(..) => Seq::empty(),
        Node::Const(_, f1, _) => opt_nodes(f1),
        Node::ConstAsgn(_, f1, _, f3) => opt_nodes(f1) + seq![f3],
        Node::ConstLhs(_, f1, _) => opt_nodes(f1),
        Node::CSend(_, f1, _, f3) => opt_nodes(f1) + f3@,
        Node::Cvar(..) => Seq::empty(),
        Node::CvarAsgn(_, _, f2) => seq![f2],
        Node::CvarLhs(..) => Seq::empty(),
        Node::Def(_, _, f2, f3) => opt_nodes(f2) + opt_nodes(f3),
        Node::Defined(_, f1) => seq![f1],
        Node::Defs(_, f1, _, f3, f4) => seq![f1] + opt_nodes(f3) + opt_nodes(f4),
        Node::DString(_, f1) => f1@,
        Node::DSymbol(_, f1) => f1@,
        Node::EFlipflop(_, f1, f2) => seq![f1] + seq![f2],
        Node::EncodingLiteral(..) => Seq::empty(),
        Node::Ensure(_, f1, f2) => opt_nodes(f1) + seq![f2],
        Node::ERange(_, f1, f2) => seq![f1] + seq![f2],
        Node::False(..) => Seq::empty(),
        Node::FileLiteral(..) => Seq::empty(),
        Node::Float(..) => Seq::empty(),
        Node::For(_, f1, f2, f3) => seq![f1] + seq![f2] + opt_nodes(f3),
        Node::Gvar(..) => Seq::empty(),
        Node::GvarAsgn(_, _, f2) => seq![f2],
        Node::GvarLhs(..) => Seq::empty(),
        Node::Hash(_, f1) => f1@,
        Node::Ident(..) => Seq::empty(),
        Node::If(_, f1, f2, f3) => seq![f1] + opt_nodes(f2) + opt_nodes(f3),
        Node::IFlipflop(_, f1, f2) => seq![f1] + seq![f2],
        Node::Integer(..) => Seq::empty(),
        Node::IRange(_, f1, f2) => seq![f1] + seq![f2],
        Node::Ivar(..) => Seq::empty(),
        Node::IvarAsgn(_, _, f2) => seq![f2],
        Node::IvarLhs(..) => Seq::empty(),
        Node::Kwarg(..) => Seq::empty(),
        Node::Kwbegin(_, f1) => f1@,
        Node::Kwoptarg(_, _, f2) => seq![f2],
        Node::Kwrestarg(..) => Seq::empty(),
        Node::Kwsplat(_, f1) => seq![f1],
        Node::Lambda(..) => Seq::empty(),
        Node::LineLiteral(..) => Seq::empty(),
        Node::Lvar(..) => Seq::empty(),
        Node::LvarAsgn(_, _, f2) => seq![f2],
        Node::LvarLhs(..) => Seq::empty(),
        Node::Masgn(_, f1, f2) => seq![f1] + seq![f2],
        Node::MatchAsgn(_, f1, f2) => seq![f1] + seq![f2],
        Node::MatchCurLine(_, f1) => seq![f1],
        Node::Mlhs(_, f1) => f1@,
        Node::Module(_, f1, f2) => seq![f1] + opt_nodes(f2),
        Node::Next(_, f1) => f1@,
        Node::Nil(..) => Seq::empty(),
        Node::NthRef(..) => Seq::empty(),
        Node::OpAsgn(_, f1, _, f3) => seq![f1] + seq![f3],
        Node::Optarg(_, _, f2) => seq![f2],
        Node::Or(_, f1, f2) => seq![f1] + seq![f2],
        Node::OrAsgn(_, f1, f2) => seq![f1] + seq![f2],
        Node::Pair(_, f1, f2) => seq![f1] + seq![f2],
        Node::Postexe(_, f1) => opt_nodes(f1),
        Node::Preexe(_, f1) => opt_nodes(f1),
        Node::Procarg0(_, f1) => seq![f1],
        Node::Rational(..) => Seq::empty(),
        Node::Redo(..) => Seq::empty(),
        Node::Regexp(_, f1, f2) => f1@ + opt_nodes(f2),
        Node::Regopt(..) => Seq::empty(),
        Node::Resbody(_, f1, f2, f3) => opt_nodes(f1) + opt_nodes(f2) + opt_nodes(f3),
        Node::Rescue(_, f1, f2, f3) => opt_nodes(f1) + f2@ + opt_nodes(f3),
        Node::Restarg(..) => Seq::empty(),
        Node::Retry(..) => Seq::empty(),
        Node::Return(_, f1) => f1@,
        Node::SClass(_, f1, f2) => seq![f1] + opt_nodes(f2),
        Node::Self_(..) => Seq::empty(),
        Node::Send(_, f1, _, f3) => opt_nodes(f1) + f3@,
        Node::ShadowArg(..) => Seq::empty(),
        Node::Splat(_, f1) => opt_nodes(f1),
        Node::SplatLhs(_, f1) => opt_nodes(f1),
        Node::String(..) => Seq::empty(),
        Node::Super(_, f1) => f1@,
        Node::Symbol(..) => Seq::empty(),
        Node::True(..) => Seq::empty(),
        Node::TyAny(..) => Seq::empty(),
        Node::TyArray(_, f1) => seq![f1],
        Node::TyCast(_, f1, f2) => seq![f1] + seq![f2],
        Node::TyClass(..) => Seq::empty(),
        Node::TyConSubtype(_, f1, f2) => seq![f1] + seq![f2],
        Node::TyConUnify(_, f1, f2) => seq![f1] + seq![f2],
        Node::TyConstInstance(_, f1, f2) => seq![f1] + f2@,
        Node::TyCpath(_, f1) => seq![f1],
        Node::TyGenargs(_, f1) => f1@,
        Node::TyGendecl(_, f1, f2) => seq![f1] + f2@,
        Node::TyGendeclarg(_, _, f2) => opt_nodes(f2),
        Node::TyGeninst(_, f1, f2) => seq![f1] + f2@,
        Node::TyHash(_, f1, f2) => seq![f1] + seq![f2],
        Node::TyInstance(..) => Seq::empty(),
        Node::TyIvardecl(_, _, f2) => seq![f2],
        Node::TyNil(..) => Seq::empty(),
        Node::TyNillable(_, f1) => seq![f1],
        Node::TyOr(_, f1, f2) => seq![f1] + seq![f2],
        Node::TyParen(_, f1) => seq![f1],
        Node::TyProc(_, f1) => seq![f1],
        Node::TyPrototype(_, f1, f2, f3) => opt_nodes(f1) + seq![f2] + opt_nodes(f3),
        Node::TyReturnSig(_, f1) => seq![f1],
        Node::TySelf(..) => Seq::empty(),
        Node::TyTuple(_, f1) => f1@,
        Node::TyTypedArg(_, f1, f2) => seq![f1] + seq![f2],
        Node::Undef(_, f1) => f1@,
        Node::Until(_, f1, f2) => seq![f1] + opt_nodes(f2),
        Node::UntilPost(_, f1, f2) => seq![f1] + seq![f2],
        Node::When(_, f1, f2) => f1@ + opt_nodes(f2),
        Node::While(_, f1, f2) => seq![f1] + opt_nodes(f2),
        Node::WhilePost(_, f1, f2) => seq![f1] + seq![f2],
        Node::XString(_, f1) => f1@,
        Node::Yield(_, f1) => f1@,
        Node::ZSuper(..) => Seq::empty(),
    }
}

/// Whether a node is a type annotation.
pub open spec fn is_type_node(n: Node) -> bool {
    match n {
        Node::TyAny(..) => true,
        Node::TyArray(..) => true,
        Node::TyCast(..) => true,
        Node::TyClass(..) => true,
        Node::TyConSubtype(..) => true,
        Node::TyConUnify(..) => true,
        Node::TyConstInstance(..) => true,
        Node::TyCpath(..) => true,
        Node::TyGenargs(..) => true,
        Node::TyGendecl(..) => true,
        Node::TyGendeclarg(..) => true,
        Node::TyGeninst(..) => true,
        Node::TyHash(..) => true,
        Node::TyInstance(..) => true,
        Node::TyIvardecl(..) => true,
        Node::TyNil(..) => true,
        Node::TyNillable(..) => true,
        Node::TyOr(..) => true,
        Node::TyParen(..) => true,
        Node::TyProc(..) => true,
        Node::TyPrototype(..) => true,
        Node::TyReturnSig(..) => true,
        Node::TySelf(..) => true,
        Node::TyTuple(..) => true,
        Node::TyTypedArg(..) => true,
        _ => false,
    }
}

} // verus!
