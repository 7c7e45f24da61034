//! Printing syntax trees as s-expressions.

use std::rc::Rc;
use vstd::prelude::*;
use crate::ast::{children, opt_nodes, Ast, Id, Node};
use crate::text::{all_ascii, ascii_lowercase, decimal, decimal_string, lowercase, push_char, push_str, chars_of, to_lowercase};

verus! {

broadcast use vstd::string::group_string_axioms;

pub open spec fn max_nat(a: nat, b: nat) -> nat {
    if a >= b { a } else { b }
}

/// The depth of an optional node; zero for none.
pub open spec fn depth_opt(o: Option<Rc<Node>>) -> nat
    decreases o, 0int,
{
    match o {
        Some(x) => depth(*x),
        None => 0,
    }
}

/// The greatest depth of the nodes `s`; zero for none.
pub open spec fn depth_list(s: Seq<Rc<Node>>) -> nat
    decreases s, 0int,
{
    if s.len() == 0 {
        0
    } else {
        max_nat(depth_list(s.drop_last()), depth(*s.last()))
    }
}

/// The nesting depth of a node: one more than that of its deepest child.
pub open spec fn depth(n: Node) -> nat
    decreases n, 1int,
{
    match n {
        Node::Alias(_, f0, f1) => 1 + max_nat(max_nat(0nat, depth(*f0)), depth(*f1)),
        Node::And(_, f0, f1) => 1 + max_nat(max_nat(0nat, depth(*f0)), depth(*f1)),
        Node::AndAsgn(_, f0, f1) => 1 + max_nat(max_nat(0nat, depth(*f0)), depth(*f1)),
        Node::Arg(_, _) => 1 + 0nat,
        Node::Args(_, f0) => 1 + max_nat(0nat, depth_list(f0@)),
        Node::Array(_, f0) => 1 + max_nat(0nat, depth_list(f0@)),
        Node::Backref(_, _) => 1 + 0nat,
        Node::Begin(_, f0) => 1 + max_nat(0nat, depth_list(f0@)),
        Node::Block(_, f0, f1, f2) => 1 + max_nat(max_nat(max_nat(0nat, depth(*f0)), depth(*f1)), depth_opt(f2)),
        Node::Blockarg(_, _) => 1 + 0nat,
        Node::BlockPass(_, f0) => 1 + max_nat(0nat, depth(*f0)),
        Node::Break(_, f0) => 1 + max_nat(0nat, depth_list(f0@)),
        Node::Case(_, f0, f1, f2) => 1 + max_nat(max_nat(max_nat(0nat, depth_opt(f0)), depth_list(f1@)), depth_opt(f2)),
        Node::Cbase(_) => 1 + 0nat,
        Node::Class(_, f0, f1, f2) => 1 + max_nat(max_nat(max_nat(0nat, depth(*f0)), depth_opt(f1)), depth_opt(f2)),
        Node::Complex(_, _) => 1 + 0nat,
        Node::Const(_, f0, _) => 1 + max_nat(0nat, depth_opt(f0)),
        Node::ConstAsgn(_, f0, _, f2) => 1 + max_nat(max_nat(0nat, depth_opt(f0)), depth(*f2)),
        Node::ConstLhs(_, f0, _) => 1 + max_nat(0nat, depth_opt(f0)),
        Node::CSend(_, f0, _, f2) => 1 + max_nat(max_nat(0nat, depth_opt(f0)), depth_list(f2@)),
        Node::Cvar(_, _) => 1 + 0nat,
        Node::CvarAsgn(_, _, f1) => 1 + max_nat(0nat, depth(*f1)),
        Node::CvarLhs(_, _) => 1 + 0nat,
        Node::Def(_, _, f1, f2) => 1 + max_nat(max_nat(0nat, depth_opt(f1)), depth_opt(f2)),
        Node::Defined(_, f0) => 1 + max_nat(0nat, depth(*f0)),
        Node::Defs(_, f0, _, f2, f3) => 1 + max_nat(max_nat(max_nat(0nat, depth(*f0)), depth_opt(f2)), depth_opt(f3)),
        Node::DString(_, f0) => 1 + max_nat(0nat, depth_list(f0@)),
        Node::DSymbol(_, f0) => 1 + max_nat(0nat, depth_list(f0@)),
        Node::EFlipflop(_, f0, f1) => 1 + max_nat(max_nat(0nat, depth(*f0)), depth(*f1)),
        Node::EncodingLiteral(_) => 1 + 0nat,
        Node::Ensure(_, f0, f1) => 1 + max_nat(max_nat(0nat, depth_opt(f0)), depth(*f1)),
        Node::ERange(_, f0, f1) => 1 + max_nat(max_nat(0nat, depth(*f0)), depth(*f1)),
        Node::False(_) => 1 + 0nat,
        Node::FileLiteral(_) => 1 + 0nat,
        Node::Float(_, _) => 1 + 0nat,
        Node::For(_, f0, f1, f2) => 1 + max_nat(max_nat(max_nat(0nat, depth(*f0)), depth(*f1)), depth_opt(f2)),
        Node::Gvar(_, _) => 1 + 0nat,
        Node::GvarAsgn(_, _, f1) => 1 + max_nat(0nat, depth(*f1)),
        Node::GvarLhs(_, _) => 1 + 0nat,
        Node::Hash(_, f0) => 1 + max_nat(0nat, depth_list(f0@)),
        Node::Ident(_, _) => 1 + 0nat,
        Node::If(_, f0, f1, f2) => 1 + max_nat(max_nat(max_nat(0nat, depth(*f0)), depth_opt(f1)), depth_opt(f2)),
        Node::IFlipflop(_, f0, f1) => 1 + max_nat(max_nat(0nat, depth(*f0)), depth(*f1)),
        Node::Integer(_, _) => 1 + 0nat,
        Node::IRange(_, f0, f1) => 1 + max_nat(max_nat(0nat, depth(*f0)), depth(*f1)),
        Node::Ivar(_, _) => 1 + 0nat,
        Node::IvarAsgn(_, _, f1) => 1 + max_nat(0nat, depth(*f1)),
        Node::IvarLhs(_, _) => 1 + 0nat,
        Node::Kwarg(_, _) => 1 + 0nat,
        Node::Kwbegin(_, f0) => 1 + max_nat(0nat, depth_list(f0@)),
        Node::Kwoptarg(_, _, f1) => 1 + max_nat(0nat, depth(*f1)),
        Node::Kwrestarg(_, _) => 1 + 0nat,
        Node::Kwsplat(_, f0) => 1 + max_nat(0nat, depth(*f0)),
        Node::Lambda(_) => 1 + 0nat,
        Node::LineLiteral(_) => 1 + 0nat,
        Node::Lvar(_, _) => 1 + 0nat,
        Node::LvarAsgn(_, _, f1) => 1 + max_nat(0nat, depth(*f1)),
        Node::LvarLhs(_, _) => 1 + 0nat,
        Node::Masgn(_, f0, f1) => 1 + max_nat(max_nat(0nat, depth(*f0)), depth(*f1)),
        Node::MatchAsgn(_, f0, f1) => 1 + max_nat(max_nat(0nat, depth(*f0)), depth(*f1)),
        Node::MatchCurLine(_, f0) => 1 + max_nat(0nat, depth(*f0)),
        Node::Mlhs(_, f0) => 1 + max_nat(0nat, depth_list(f0@)),
        Node::Module(_, f0, f1) => 1 + max_nat(max_nat(0nat, depth(*f0)), depth_opt(f1)),
        Node::Next(_, f0) => 1 + max_nat(0nat, depth_list(f0@)),
        Node::Nil(_) => 1 + 0nat,
        Node::NthRef(_, _) => 1 + 0nat,
        Node::OpAsgn(_, f0, _, f2) => 1 + max_nat(max_nat(0nat, depth(*f0)), depth(*f2)),
        Node::Optarg(_, _, f1) => 1 + max_nat(0nat, depth(*f1)),
        Node::Or(_, f0, f1) => 1 + max_nat(max_nat(0nat, depth(*f0)), depth(*f1)),
        Node::OrAsgn(_, f0, f1) => 1 + max_nat(max_nat(0nat, depth(*f0)), depth(*f1)),
        Node::Pair(_, f0, f1) => 1 + max_nat(max_nat(0nat, depth(*f0)), depth(*f1)),
        Node::Postexe(_, f0) => 1 + max_nat(0nat, depth_opt(f0)),
        Node::Preexe(_, f0) => 1 + max_nat(0nat, depth_opt(f0)),
        Node::Procarg0(_, f0) => 1 + max_nat(0nat, depth(*f0)),
        Node::Rational(_, _) => 1 + 0nat,
        Node::Redo(_) => 1 + 0nat,
        Node::Regexp(_, f0, f1) => 1 + max_nat(max_nat(0nat, depth_list(f0@)), depth_opt(f1)),
        Node::Regopt(_, _) => 1 + 0nat,
        Node::Resbody(_, f0, f1, f2) => 1 + max_nat(max_nat(max_nat(0nat, depth_opt(f0)), depth_opt(f1)), depth_opt(f2)),
        Node::Rescue(_, f0, f1, f2) => 1 + max_nat(max_nat(max_nat(0nat, depth_opt(f0)), depth_list(f1@)), depth_opt(f2)),
        Node::Restarg(_, _) => 1 + 0nat,
        Node::Retry(_) => 1 + 0nat,
        Node::Return(_, f0) => 1 + max_nat(0nat, depth_list(f0@)),
        Node::SClass(_, f0, f1) => 1 + max_nat(max_nat(0nat, depth(*f0)), depth_opt(f1)),
        Node::Self_(_) => 1 + 0nat,
        Node::Send(_, f0, _, f2) => 1 + max_nat(max_nat(0nat, depth_opt(f0)), depth_list(f2@)),
        Node::ShadowArg(_, _) => 1 + 0nat,
        Node::Splat(_, f0) => 1 + max_nat(0nat, depth_opt(f0)),
        Node::SplatLhs(_, f0) => 1 + max_nat(0nat, depth_opt(f0)),
        Node::String(_, _) => 1 + 0nat,
        Node::Super(_, f0) => 1 + max_nat(0nat, depth_list(f0@)),
        Node::Symbol(_, _) => 1 + 0nat,
        Node::True(_) => 1 + 0nat,
        Node::TyAny(_) => 1 + 0nat,
        Node::TyArray(_, f0) => 1 + max_nat(0nat, depth(*f0)),
        Node::TyCast(_, f0, f1) => 1 + max_nat(max_nat(0nat, depth(*f0)), depth(*f1)),
        Node::TyClass(_) => 1 + 0nat,
        Node::TyConSubtype(_, f0, f1) => 1 + max_nat(max_nat(0nat, depth(*f0)), depth(*f1)),
        Node::TyConUnify(_, f0, f1) => 1 + max_nat(max_nat(0nat, depth(*f0)), depth(*f1)),
        Node::TyConstInstance(_, f0, f1) => 1 + max_nat(max_nat(0nat, depth(*f0)), depth_list(f1@)),
        Node::TyCpath(_, f0) => 1 + max_nat(0nat, depth(*f0)),
        Node::TyGenargs(_, f0) => 1 + max_nat(0nat, depth_list(f0@)),
        Node::TyGendecl(_, f0, f1) => 1 + max_nat(max_nat(0nat, depth(*f0)), depth_list(f1@)),
        Node::TyGendeclarg(_, _, f1) => 1 + max_nat(0nat, depth_opt(f1)),
        Node::TyGeninst(_, f0, f1) => 1 + max_nat(max_nat(0nat, depth(*f0)), depth_list(f1@)),
        Node::TyHash(_, f0, f1) => 1 + max_nat(max_nat(0nat, depth(*f0)), depth(*f1)),
        Node::TyInstance(_) => 1 + 0nat,
        Node::TyIvardecl(_, _, f1) => 1 + max_nat(0nat, depth(*f1)),
        Node::TyNil(_) => 1 + 0nat,
        Node::TyNillable(_, f0) => 1 + max_nat(0nat, depth(*f0)),
        Node::TyOr(_, f0, f1) => 1 + max_nat(max_nat(0nat, depth(*f0)), depth(*f1)),
        Node::TyParen(_, f0) => 1 + max_nat(0nat, depth(*f0)),
        Node::TyProc(_, f0) => 1 + max_nat(0nat, depth(*f0)),
        Node::TyPrototype(_, f0, f1, f2) => 1 + max_nat(max_nat(max_nat(0nat, depth_opt(f0)), depth(*f1)), depth_opt(f2)),
        Node::TyReturnSig(_, f0) => 1 + max_nat(0nat, depth(*f0)),
        Node::TySelf(_) => 1 + 0nat,
        Node::TyTuple(_, f0) => 1 + max_nat(0nat, depth_list(f0@)),
        Node::TyTypedArg(_, f0, f1) => 1 + max_nat(max_nat(0nat, depth(*f0)), depth(*f1)),
        Node::Undef(_, f0) => 1 + max_nat(0nat, depth_list(f0@)),
        Node::Until(_, f0, f1) => 1 + max_nat(max_nat(0nat, depth(*f0)), depth_opt(f1)),
        Node::UntilPost(_, f0, f1) => 1 + max_nat(max_nat(0nat, depth(*f0)), depth(*f1)),
        Node::When(_, f0, f1) => 1 + max_nat(max_nat(0nat, depth_list(f0@)), depth_opt(f1)),
        Node::While(_, f0, f1) => 1 + max_nat(max_nat(0nat, depth(*f0)), depth_opt(f1)),
        Node::WhilePost(_, f0, f1) => 1 + max_nat(max_nat(0nat, depth(*f0)), depth(*f1)),
        Node::XString(_, f0) => 1 + max_nat(0nat, depth_list(f0@)),
        Node::Yield(_, f0) => 1 + max_nat(0nat, depth_list(f0@)),
        Node::ZSuper(_) => 1 + 0nat,
    }
}

/// `n` spaces.
pub open spec fn spaces(n: nat) -> Seq<char>
    decreases n,
{
    if n == 0 { seq![] } else { spaces((n - 1) as nat).push(' ') }
}

/// The lowercase hexadecimal digits of `n`, without leading zeros.
pub open spec fn hex(n: nat) -> Seq<char>
    decreases n,
{
    if n < 16 {
        seq![hex_digit(n as int)]
    } else {
        hex(n / 16).push(hex_digit((n % 16) as int))
    }
}

/// The lowercase hexadecimal digit of `d`.
pub open spec fn hex_digit(d: int) -> char {
    if d < 10 { crate::text::digit_char(d) }
    else if d == 10 { 'a' } else if d == 11 { 'b' } else if d == 12 { 'c' }
    else if d == 13 { 'd' } else if d == 14 { 'e' } else { 'f' }
}

/// What `char::escape_default` gives: tab, return and newline as `\t`,
/// `\r`, `\n`; quotes and backslash behind a backslash; printable ASCII as
/// itself; anything else as `\u{...}` with its code in hexadecimal.
pub open spec fn escape_default(c: char) -> Seq<char> {
    if c == '\t' {
        seq!['\\', 't']
    } else if c == '\r' {
        seq!['\\', 'r']
    } else if c == '\n' {
        seq!['\\', 'n']
    } else if c == '\'' || c == '"' || c == '\\' {
        seq!['\\', c]
    } else if 0x20 <= (c as u32) <= 0x7e {
        seq![c]
    } else {
        seq!['\\', 'u', '{'] + hex(c as nat) + seq!['}']
    }
}

/// The escaped characters of `s`, one after the other.
pub open spec fn escaped(s: Seq<char>) -> Seq<char>
    decreases s.len(),
{
    if s.len() == 0 { seq![] } else { escaped(s.drop_last()) + escape_default(s.last()) }
}

/// A string literal as Ruby would write it: in double quotes, escaped.
pub open spec fn quoted(s: Seq<char>) -> Seq<char> {
    seq!['"'] + escaped(s) + seq!['"']
}

/// A name or string field: ` :` and the text.
pub open spec fn symbol_text(s: Seq<char>) -> Seq<char> {
    seq![' ', ':'] + s
}

/// A numeric literal field: a space and the text.
pub open spec fn numeric_text(s: Seq<char>) -> Seq<char> {
    seq![' '] + s
}

/// A number field: a space and the number.
pub open spec fn number_text(n: usize) -> Seq<char> {
    seq![' '] + decimal(n as nat)
}

/// A string literal field: quoted, or a placeholder when strings are not
/// printed.
pub open spec fn string_text(s: Seq<char>, ps: bool) -> Seq<char> {
    if ps { seq![' '] + quoted(s) } else { " [STRING]"@ }
}

/// An optional name: ` :name`, or nothing.
pub open spec fn opt_id_text(o: Option<Id>) -> Seq<char> {
    match o {
        Some(id) => symbol_text(id.1@),
        None => seq![],
    }
}

/// Regexp option letters: ` :c` for each.
pub open spec fn chars_text(s: Seq<char>) -> Seq<char>
    decreases s.len(),
{
    if s.len() == 0 { seq![] } else { chars_text(s.drop_last()) + seq![' ', ':', s.last()] }
}

/// A node printed at indentation `indent`: indented by two spaces a level,
/// its name in parentheses followed by its fields one level deeper.
pub open spec fn show_node(n: Node, indent: nat, ps: bool) -> Seq<char>
    decreases n, 2int,
{
    spaces(2 * indent) + seq!['('] + node_name(n) + show_fields(n, indent + 1, ps) + seq![')']
}

/// A child node: on a line of its own.
pub open spec fn show_child(n: Rc<Node>, fi: nat, ps: bool) -> Seq<char>
    decreases n, 3int,
{
    seq!['\n'] + show_node(*n, fi, ps)
}

/// An optional child node: ` nil` when absent.
pub open spec fn show_opt(o: Option<Rc<Node>>, fi: nat, ps: bool) -> Seq<char>
    decreases o, 0int,
{
    match o {
        Some(x) => show_child(x, fi, ps),
        None => " nil"@,
    }
}

/// A list of child nodes, one after the other.
pub open spec fn show_list(s: Seq<Rc<Node>>, fi: nat, ps: bool) -> Seq<char>
    decreases s, 0int,
{
    if s.len() == 0 { seq![] } else { show_list(s.drop_last(), fi, ps) + show_child(s.last(), fi, ps) }
}

/// The name a node is printed under.
pub open spec fn node_name(n: Node) -> Seq<char> {
    match n {
        Node::Alias(..) => "alias"@,
        Node::And(..) => "and"@,
        Node::AndAsgn(..) => "and-asgn"@,
        Node::Arg(..) => "arg"@,
        Node::Args(..) => "args"@,
        Node::Array(..) => "array"@,
        Node::Backref(..) => "back-ref"@,
        Node::Begin(..) => "begin"@,
        Node::Block(..) => "block"@,
        Node::Blockarg(..) => "blockarg"@,
        Node::BlockPass(..) => "block-pass"@,
        Node::Break(..) => "break"@,
        Node::Case(..) => "case"@,
        Node::Cbase(..) => "cbase"@,
        Node::Class(..) => "class"@,
        Node::Complex(..) => "complex"@,
        Node::Const(..) => "const"@,
        Node::ConstAsgn(..) => "casgn"@,
        Node::ConstLhs(..) => "constlhs"@,
        Node::CSend(..) => "csend"@,
        Node::Cvar(..) => "cvar"@,
        Node::CvarAsgn(..) => "cvasgn"@,
        Node::CvarLhs(..) => "cvarlhs"@,
        Node::Def(..) => "def"@,
        Node::Defined(..) => "defined?"@,
        Node::Defs(..) => "defs"@,
        Node::DString(..) => "dstr"@,
        Node::DSymbol(..) => "dsym"@,
        Node::EFlipflop(..) => "eflipflop"@,
        Node::EncodingLiteral(..) => "encodingliteral"@,
        Node::Ensure(..) => "ensure"@,
        Node::ERange(..) => "erange"@,
        Node::False(..) => "false"@,
        Node::FileLiteral(..) => "fileliteral"@,
        Node::Float(..) => "float"@,
        Node::For(..) => "for"@,
        Node::Gvar(..) => "gvar"@,
        Node::GvarAsgn(..) => "gvasgn"@,
        Node::GvarLhs(..) => "gvarlhs"@,
        Node::Hash(..) => "hash"@,
        Node::Ident(..) => "ident"@,
        Node::If(..) => "if"@,
        Node::IFlipflop(..) => "iflipflop"@,
        Node::Integer(..) => "int"@,
        Node::IRange(..) => "irange"@,
        Node::Ivar(..) => "ivar"@,
        Node::IvarAsgn(..) => "ivasgn"@,
        Node::IvarLhs(..) => "ivarlhs"@,
        Node::Kwarg(..) => "kwarg"@,
        Node::Kwbegin(..) => "kwbegin"@,
        Node::Kwoptarg(..) => "kwoptarg"@,
        Node::Kwrestarg(..) => "kwrestarg"@,
        Node::Kwsplat(..) => "kwsplat"@,
        Node::Lambda(..) => "lambda"@,
        Node::LineLiteral(..) => "lineliteral"@,
        Node::Lvar(..) => "lvar"@,
        Node::LvarAsgn(..) => "lvasgn"@,
        Node::LvarLhs(..) => "lvarlhs"@,
        Node::Masgn(..) => "masgn"@,
        Node::MatchAsgn(..) => "matchasgn"@,
        Node::MatchCurLine(..) => "matchcurline"@,
        Node::Mlhs(..) => "mlhs"@,
        Node::Module(..) => "module"@,
        Node::Next(..) => "next"@,
        Node::Nil(..) => "nil"@,
        Node::NthRef(..) => "nth-ref"@,
        Node::OpAsgn(..) => "op-asgn"@,
        Node::Optarg(..) => "optarg"@,
        Node::Or(..) => "or"@,
        Node::OrAsgn(..) => "or-asgn"@,
        Node::Pair(..) => "pair"@,
        Node::Postexe(..) => "postexe"@,
        Node::Preexe(..) => "preexe"@,
        Node::Procarg0(..) => "procarg0"@,
        Node::Rational(..) => "rational"@,
        Node::Redo(..) => "redo"@,
        Node::Regexp(..) => "regexp"@,
        Node::Regopt(..) => "regopt"@,
        Node::Resbody(..) => "resbody"@,
        Node::Rescue(..) => "rescue"@,
        Node::Restarg(..) => "restarg"@,
        Node::Retry(..) => "retry"@,
        Node::Return(..) => "return"@,
        Node::SClass(..) => "sclass"@,
        Node::Self_(..) => "self"@,
        Node::Send(..) => "send"@,
        Node::ShadowArg(..) => "shadowarg"@,
        Node::Splat(..) => "splat"@,
        Node::SplatLhs(..) => "splatlhs"@,
        Node::String(..) => "str"@,
        Node::Super(..) => "super"@,
        Node::Symbol(..) => "sym"@,
        Node::True(..) => "true"@,
        Node::TyAny(..) => "tyany"@,
        Node::TyArray(..) => "tyarray"@,
        Node::TyCast(..) => "tycast"@,
        Node::TyClass(..) => "tyclass"@,
        Node::TyConSubtype(..) => "tyconsubtype"@,
        Node::TyConUnify(..) => "tyconunify"@,
        Node::TyConstInstance(..) => "tyconstinstance"@,
        Node::TyCpath(..) => "tycpath"@,
        Node::TyGenargs(..) => "tygenargs"@,
        Node::TyGendecl(..) => "tygendecl"@,
        Node::TyGendeclarg(..) => "tygendeclarg"@,
        Node::TyGeninst(..) => "tygeninst"@,
        Node::TyHash(..) => "tyhash"@,
        Node::TyInstance(..) => "tyinstance"@,
        Node::TyIvardecl(..) => "tyivardecl"@,
        Node::TyNil(..) => "tynil"@,
        Node::TyNillable(..) => "tynillable"@,
        Node::TyOr(..) => "tyor"@,
        Node::TyParen(..) => "typaren"@,
        Node::TyProc(..) => "typroc"@,
        Node::TyPrototype(..) => "prototype"@,
        Node::TyReturnSig(..) => "tyreturnsig"@,
        Node::TySelf(..) => "tyself"@,
        Node::TyTuple(..) => "tytuple"@,
        Node::TyTypedArg(..) => "typedarg"@,
        Node::Undef(..) => "undef"@,
        Node::Until(..) => "until"@,
        Node::UntilPost(..) => "untilpost"@,
        Node::When(..) => "when"@,
        Node::While(..) => "while"@,
        Node::WhilePost(..) => "whilepost"@,
        Node::XString(..) => "xstr"@,
        Node::Yield(..) => "yield"@,
        Node::ZSuper(..) => "zsuper"@,
    }
}

fn node_name_of(n: &Node) -> (r: &'static str)
    ensures
        r@ == node_name(*n),
{
    match n {
        Node::Alias(..) => "alias",
        Node::And(..) => "and",
        Node::AndAsgn(..) => "and-asgn",
        Node::Arg(..) => "arg",
        Node::Args(..) => "args",
        Node::Array(..) => "array",
        Node::Backref(..) => "back-ref",
        Node::Begin(..) => "begin",
        Node::Block(..) => "block",
        Node::Blockarg(..) => "blockarg",
        Node::BlockPass(..) => "block-pass",
        Node::Break(..) => "break",
        Node::Case(..) => "case",
        Node::Cbase(..) => "cbase",
        Node::Class(..) => "class",
        Node::Complex(..) => "complex",
        Node::Const(..) => "const",
        Node::ConstAsgn(..) => "casgn",
        Node::ConstLhs(..) => "constlhs",
        Node::CSend(..) => "csend",
        Node::Cvar(..) => "cvar",
        Node::CvarAsgn(..) => "cvasgn",
        Node::CvarLhs(..) => "cvarlhs",
        Node::Def(..) => "def",
        Node::Defined(..) => "defined?",
        Node::Defs(..) => "defs",
        Node::DString(..) => "dstr",
        Node::DSymbol(..) => "dsym",
        Node::EFlipflop(..) => "eflipflop",
        Node::EncodingLiteral(..) => "encodingliteral",
        Node::Ensure(..) => "ensure",
        Node::ERange(..) => "erange",
        Node::False(..) => "false",
        Node::FileLiteral(..) => "fileliteral",
        Node::Float(..) => "float",
        Node::For(..) => "for",
        Node::Gvar(..) => "gvar",
        Node::GvarAsgn(..) => "gvasgn",
        Node::GvarLhs(..) => "gvarlhs",
        Node::Hash(..) => "hash",
        Node::Ident(..) => "ident",
        Node::If(..) => "if",
        Node::IFlipflop(..) => "iflipflop",
        Node::Integer(..) => "int",
        Node::IRange(..) => "irange",
        Node::Ivar(..) => "ivar",
        Node::IvarAsgn(..) => "ivasgn",
        Node::IvarLhs(..) => "ivarlhs",
        Node::Kwarg(..) => "kwarg",
        Node::Kwbegin(..) => "kwbegin",
        Node::Kwoptarg(..) => "kwoptarg",
        Node::Kwrestarg(..) => "kwrestarg",
        Node::Kwsplat(..) => "kwsplat",
        Node::Lambda(..) => "lambda",
        Node::LineLiteral(..) => "lineliteral",
        Node::Lvar(..) => "lvar",
        Node::LvarAsgn(..) => "lvasgn",
        Node::LvarLhs(..) => "lvarlhs",
        Node::Masgn(..) => "masgn",
        Node::MatchAsgn(..) => "matchasgn",
        Node::MatchCurLine(..) => "matchcurline",
        Node::Mlhs(..) => "mlhs",
        Node::Module(..) => "module",
        Node::Next(..) => "next",
        Node::Nil(..) => "nil",
        Node::NthRef(..) => "nth-ref",
        Node::OpAsgn(..) => "op-asgn",
        Node::Optarg(..) => "optarg",
        Node::Or(..) => "or",
        Node::OrAsgn(..) => "or-asgn",
        Node::Pair(..) => "pair",
        Node::Postexe(..) => "postexe",
        Node::Preexe(..) => "preexe",
        Node::Procarg0(..) => "procarg0",
        Node::Rational(..) => "rational",
        Node::Redo(..) => "redo",
        Node::Regexp(..) => "regexp",
        Node::Regopt(..) => "regopt",
        Node::Resbody(..) => "resbody",
        Node::Rescue(..) => "rescue",
        Node::Restarg(..) => "restarg",
        Node::Retry(..) => "retry",
        Node::Return(..) => "return",
        Node::SClass(..) => "sclass",
        Node::Self_(..) => "self",
        Node::Send(..) => "send",
        Node::ShadowArg(..) => "shadowarg",
        Node::Splat(..) => "splat",
        Node::SplatLhs(..) => "splatlhs",
        Node::String(..) => "str",
        Node::Super(..) => "super",
        Node::Symbol(..) => "sym",
        Node::True(..) => "true",
        Node::TyAny(..) => "tyany",
        Node::TyArray(..) => "tyarray",
        Node::TyCast(..) => "tycast",
        Node::TyClass(..) => "tyclass",
        Node::TyConSubtype(..) => "tyconsubtype",
        Node::TyConUnify(..) => "tyconunify",
        Node::TyConstInstance(..) => "tyconstinstance",
        Node::TyCpath(..) => "tycpath",
        Node::TyGenargs(..) => "tygenargs",
        Node::TyGendecl(..) => "tygendecl",
        Node::TyGendeclarg(..) => "tygendeclarg",
        Node::TyGeninst(..) => "tygeninst",
        Node::TyHash(..) => "tyhash",
        Node::TyInstance(..) => "tyinstance",
        Node::TyIvardecl(..) => "tyivardecl",
        Node::TyNil(..) => "tynil",
        Node::TyNillable(..) => "tynillable",
        Node::TyOr(..) => "tyor",
        Node::TyParen(..) => "typaren",
        Node::TyProc(..) => "typroc",
        Node::TyPrototype(..) => "prototype",
        Node::TyReturnSig(..) => "tyreturnsig",
        Node::TySelf(..) => "tyself",
        Node::TyTuple(..) => "tytuple",
        Node::TyTypedArg(..) => "typedarg",
        Node::Undef(..) => "undef",
        Node::Until(..) => "until",
        Node::UntilPost(..) => "untilpost",
        Node::When(..) => "when",
        Node::While(..) => "while",
        Node::WhilePost(..) => "whilepost",
        Node::XString(..) => "xstr",
        Node::Yield(..) => "yield",
        Node::ZSuper(..) => "zsuper",
    }
}

/// The printed fields of `n`, each at indentation `fi`.
pub open spec fn show_fields(n: Node, fi: nat, ps: bool) -> Seq<char>
    decreases n, 1int,
{
    match n {
        Node::Alias(_, f1, f2) => show_child(f1, fi, ps) + show_child(f2, fi, ps),
        Node::And(_, f1, f2) => show_child(f1, fi, ps) + show_child(f2, fi, ps),
        Node::AndAsgn(_, f1, f2) => show_child(f1, fi, ps) + show_child(f2, fi, ps),
        Node::Arg(_, f1) => symbol_text(f1@),
        Node::Args(_, f1) => show_list(f1@, fi, ps),
        Node::Array(_, f1) => show_list(f1@, fi, ps),
        Node::Backref(_, f1) => symbol_text(f1@),
        Node::Begin(_, f1) => show_list(f1@, fi, ps),
        Node::Block(_, f1, f2, f3) => show_child(f1, fi, ps) + show_child(f2, fi, ps) + show_opt(f3, fi, ps),
        Node::Blockarg(_, f1) => opt_id_text(f1),
        Node::BlockPass(_, f1) => show_child(f1, fi, ps),
        Node::Break(_, f1) => show_list(f1@, fi, ps),
        Node::Case(_, f1, f2, f3) => show_opt(f1, fi, ps) + show_list(f2@, fi, ps) + show_opt(f3, fi, ps),
        Node::Cbase(_) => Seq::<char>::empty(),
        Node::Class(_, f1, f2, f3) => show_child(f1, fi, ps) + show_opt(f2, fi, ps) + show_opt(f3, fi, ps),
        Node::Complex(_, f1) => numeric_text(f1@),
        Node::Const(_, f1, f2) => show_opt(f1, fi, ps) + symbol_text(f2.1@),
        Node::ConstAsgn(_, f1, f2, f3) => show_opt(f1, fi, ps) + symbol_text(f2.1@) + show_child(f3, fi, ps),
        Node::ConstLhs(_, f1, f2) => show_opt(f1, fi, ps) + symbol_text(f2.1@),
        Node::CSend(_, f1, f2, f3) => show_opt(f1, fi, ps) + symbol_text(f2.1@) + show_list(f3@, fi, ps),
        Node::Cvar(_, f1) => symbol_text(f1@),
        Node::CvarAsgn(_, f1, f2) => symbol_text(f1.1@) + show_child(f2, fi, ps),
        Node::CvarLhs(_, f1) => symbol_text(f1.1@),
        Node::Def(_, f1, f2, f3) => symbol_text(f1.1@) + show_opt(f2, fi, ps) + show_opt(f3, fi, ps),
        Node::Defined(_, f1) => show_child(f1, fi, ps),
        Node::Defs(_, f1, f2, f3, f4) => show_child(f1, fi, ps) + symbol_text(f2.1@) + show_opt(f3, fi, ps) + show_opt(f4, fi, ps),
        Node::DString(_, f1) => show_list(f1@, fi, ps),
        Node::DSymbol(_, f1) => show_list(f1@, fi, ps),
        Node::EFlipflop(_, f1, f2) => show_child(f1, fi, ps) + show_child(f2, fi, ps),
        Node::EncodingLiteral(_) => Seq::<char>::empty(),
        Node::Ensure(_, f1, f2) => show_opt(f1, fi, ps) + show_child(f2, fi, ps),
        Node::ERange(_, f1, f2) => show_child(f1, fi, ps) + show_child(f2, fi, ps),
        Node::False(_) => Seq::<char>::empty(),
        Node::FileLiteral(_) => Seq::<char>::empty(),
        Node::Float(_, f1) => numeric_text(f1@),
        Node::For(_, f1, f2, f3) => show_child(f1, fi, ps) + show_child(f2, fi, ps) + show_opt(f3, fi, ps),
        Node::Gvar(_, f1) => symbol_text(f1@),
        Node::GvarAsgn(_, f1, f2) => symbol_text(f1.1@) + show_child(f2, fi, ps),
        Node::GvarLhs(_, f1) => symbol_text(f1.1@),
        Node::Hash(_, f1) => show_list(f1@, fi, ps),
        Node::Ident(_, f1) => symbol_text(f1@),
        Node::If(_, f1, f2, f3) => show_child(f1, fi, ps) + show_opt(f2, fi, ps) + show_opt(f3, fi, ps),
        Node::IFlipflop(_, f1, f2) => show_child(f1, fi, ps) + show_child(f2, fi, ps),
        Node::Integer(_, f1) => numeric_text(f1@),
        Node::IRange(_, f1, f2) => show_child(f1, fi, ps) + show_child(f2, fi, ps),
        Node::Ivar(_, f1) => symbol_text(f1@),
        Node::IvarAsgn(_, f1, f2) => symbol_text(f1.1@) + show_child(f2, fi, ps),
        Node::IvarLhs(_, f1) => symbol_text(f1.1@),
        Node::Kwarg(_, f1) => symbol_text(f1@),
        Node::Kwbegin(_, f1) => show_list(f1@, fi, ps),
        Node::Kwoptarg(_, f1, f2) => symbol_text(f1.1@) + show_child(f2, fi, ps),
        Node::Kwrestarg(_, f1) => opt_id_text(f1),
        Node::Kwsplat(_, f1) => show_child(f1, fi, ps),
        Node::Lambda(_) => Seq::<char>::empty(),
        Node::LineLiteral(_) => Seq::<char>::empty(),
        Node::Lvar(_, f1) => symbol_text(f1@),
        Node::LvarAsgn(_, f1, f2) => symbol_text(f1.1@) + show_child(f2, fi, ps),
        Node::LvarLhs(_, f1) => symbol_text(f1.1@),
        Node::Masgn(_, f1, f2) => show_child(f1, fi, ps) + show_child(f2, fi, ps),
        Node::MatchAsgn(_, f1, f2) => show_child(f1, fi, ps) + show_child(f2, fi, ps),
        Node::MatchCurLine(_, f1) => show_child(f1, fi, ps),
        Node::Mlhs(_, f1) => show_list(f1@, fi, ps),
        Node::Module(_, f1, f2) => show_child(f1, fi, ps) + show_opt(f2, fi, ps),
        Node::Next(_, f1) => show_list(f1@, fi, ps),
        Node::Nil(_) => Seq::<char>::empty(),
        Node::NthRef(_, f1) => number_text(f1),
        Node::OpAsgn(_, f1, f2, f3) => show_child(f1, fi, ps) + symbol_text(f2.1@) + show_child(f3, fi, ps),
        Node::Optarg(_, f1, f2) => symbol_text(f1.1@) + show_child(f2, fi, ps),
        Node::Or(_, f1, f2) => show_child(f1, fi, ps) + show_child(f2, fi, ps),
        Node::OrAsgn(_, f1, f2) => show_child(f1, fi, ps) + show_child(f2, fi, ps),
        Node::Pair(_, f1, f2) => show_child(f1, fi, ps) + show_child(f2, fi, ps),
        Node::Postexe(_, f1) => show_opt(f1, fi, ps),
        Node::Preexe(_, f1) => show_opt(f1, fi, ps),
        Node::Procarg0(_, f1) => show_child(f1, fi, ps),
        Node::Rational(_, f1) => numeric_text(f1@),
        Node::Redo(_) => Seq::<char>::empty(),
        Node::Regexp(_, f1, f2) => show_list(f1@, fi, ps) + show_opt(f2, fi, ps),
        Node::Regopt(_, f1) => chars_text(f1@),
        Node::Resbody(_, f1, f2, f3) => show_opt(f1, fi, ps) + show_opt(f2, fi, ps) + show_opt(f3, fi, ps),
        Node::Rescue(_, f1, f2, f3) => show_opt(f1, fi, ps) + show_list(f2@, fi, ps) + show_opt(f3, fi, ps),
        Node::Restarg(_, f1) => opt_id_text(f1),
        Node::Retry(_) => Seq::<char>::empty(),
        Node::Return(_, f1) => show_list(f1@, fi, ps),
        Node::SClass(_, f1, f2) => show_child(f1, fi, ps) + show_opt(f2, fi, ps),
        Node::Self_(_) => Seq::<char>::empty(),
        Node::Send(_, f1, f2, f3) => show_opt(f1, fi, ps) + symbol_text(f2.1@) + show_list(f3@, fi, ps),
        Node::ShadowArg(_, f1) => symbol_text(f1.1@),
        Node::Splat(_, f1) => show_opt(f1, fi, ps),
        Node::SplatLhs(_, f1) => show_opt(f1, fi, ps),
        Node::String(_, f1) => string_text(f1@, ps),
        Node::Super(_, f1) => show_list(f1@, fi, ps),
        Node::Symbol(_, f1) => symbol_text(f1@),
        Node::True(_) => Seq::<char>::empty(),
        Node::TyAny(_) => Seq::<char>::empty(),
        Node::TyArray(_, f1) => show_child(f1, fi, ps),
        Node::TyCast(_, f1, f2) => show_child(f1, fi, ps) + show_child(f2, fi, ps),
        Node::TyClass(_) => Seq::<char>::empty(),
        Node::TyConSubtype(_, f1, f2) => show_child(f1, fi, ps) + show_child(f2, fi, ps),
        Node::TyConUnify(_, f1, f2) => show_child(f1, fi, ps) + show_child(f2, fi, ps),
        Node::TyConstInstance(_, f1, f2) => show_child(f1, fi, ps) + show_list(f2@, fi, ps),
        Node::TyCpath(_, f1) => show_child(f1, fi, ps),
        Node::TyGenargs(_, f1) => show_list(f1@, fi, ps),
        Node::TyGendecl(_, f1, f2) => show_child(f1, fi, ps) + show_list(f2@, fi, ps),
        Node::TyGendeclarg(_, f1, f2) => symbol_text(f1@) + show_opt(f2, fi, ps),
        Node::TyGeninst(_, f1, f2) => show_child(f1, fi, ps) + show_list(f2@, fi, ps),
        Node::TyHash(_, f1, f2) => show_child(f1, fi, ps) + show_child(f2, fi, ps),
        Node::TyInstance(_) => Seq::<char>::empty(),
        Node::TyIvardecl(_, f1, f2) => symbol_text(f1.1@) + show_child(f2, fi, ps),
        Node::TyNil(_) => Seq::<char>::empty(),
        Node::TyNillable(_, f1) => show_child(f1, fi, ps),
        Node::TyOr(_, f1, f2) => show_child(f1, fi, ps) + show_child(f2, fi, ps),
        Node::TyParen(_, f1) => show_child(f1, fi, ps),
        Node::TyProc(_, f1) => show_child(f1, fi, ps),
        Node::TyPrototype(_, f1, f2, f3) => show_opt(f1, fi, ps) + show_child(f2, fi, ps) + show_opt(f3, fi, ps),
        Node::TyReturnSig(_, f1) => show_child(f1, fi, ps),
        Node::TySelf(_) => Seq::<char>::empty(),
        Node::TyTuple(_, f1) => show_list(f1@, fi, ps),
        Node::TyTypedArg(_, f1, f2) => show_child(f1, fi, ps) + show_child(f2, fi, ps),
        Node::Undef(_, f1) => show_list(f1@, fi, ps),
        Node::Until(_, f1, f2) => show_child(f1, fi, ps) + show_opt(f2, fi, ps),
        Node::UntilPost(_, f1, f2) => show_child(f1, fi, ps) + show_child(f2, fi, ps),
        Node::When(_, f1, f2) => show_list(f1@, fi, ps) + show_opt(f2, fi, ps),
        Node::While(_, f1, f2) => show_child(f1, fi, ps) + show_opt(f2, fi, ps),
        Node::WhilePost(_, f1, f2) => show_child(f1, fi, ps) + show_child(f2, fi, ps),
        Node::XString(_, f1) => show_list(f1@, fi, ps),
        Node::Yield(_, f1) => show_list(f1@, fi, ps),
        Node::ZSuper(_) => Seq::<char>::empty(),
    }
}

/// The group of node kinds whose fields are printed alike.
pub open spec fn sexp_group(n: Node) -> u8 {
    match n {
        Node::Alias(..) => 0u8,
        Node::And(..) => 0u8,
        Node::AndAsgn(..) => 0u8,
        Node::EFlipflop(..) => 0u8,
        Node::ERange(..) => 0u8,
        Node::IFlipflop(..) => 0u8,
        Node::IRange(..) => 1u8,
        Node::Masgn(..) => 1u8,
        Node::MatchAsgn(..) => 1u8,
        Node::Or(..) => 1u8,
        Node::OrAsgn(..) => 1u8,
        Node::Pair(..) => 1u8,
        Node::TyCast(..) => 2u8,
        Node::TyConSubtype(..) => 2u8,
        Node::TyConUnify(..) => 2u8,
        Node::TyHash(..) => 2u8,
        Node::TyOr(..) => 2u8,
        Node::TyTypedArg(..) => 2u8,
        Node::UntilPost(..) => 3u8,
        Node::WhilePost(..) => 3u8,
        Node::Arg(..) => 4u8,
        Node::Backref(..) => 4u8,
        Node::Cvar(..) => 4u8,
        Node::Gvar(..) => 4u8,
        Node::Ident(..) => 4u8,
        Node::Ivar(..) => 4u8,
        Node::Kwarg(..) => 5u8,
        Node::Lvar(..) => 5u8,
        Node::Symbol(..) => 5u8,
        Node::Args(..) => 6u8,
        Node::Array(..) => 6u8,
        Node::Begin(..) => 6u8,
        Node::Break(..) => 6u8,
        Node::DString(..) => 6u8,
        Node::DSymbol(..) => 6u8,
        Node::Hash(..) => 7u8,
        Node::Kwbegin(..) => 7u8,
        Node::Mlhs(..) => 7u8,
        Node::Next(..) => 7u8,
        Node::Return(..) => 7u8,
        Node::Super(..) => 7u8,
        Node::TyGenargs(..) => 8u8,
        Node::TyTuple(..) => 8u8,
        Node::Undef(..) => 8u8,
        Node::XString(..) => 8u8,
        Node::Yield(..) => 8u8,
        Node::Block(..) => 9u8,
        Node::For(..) => 9u8,
        Node::Blockarg(..) => 10u8,
        Node::Kwrestarg(..) => 10u8,
        Node::Restarg(..) => 10u8,
        Node::BlockPass(..) => 11u8,
        Node::Defined(..) => 11u8,
        Node::Kwsplat(..) => 11u8,
        Node::MatchCurLine(..) => 11u8,
        Node::Procarg0(..) => 11u8,
        Node::TyArray(..) => 11u8,
        Node::TyCpath(..) => 12u8,
        Node::TyNillable(..) => 12u8,
        Node::TyParen(..) => 12u8,
        Node::TyProc(..) => 12u8,
        Node::TyReturnSig(..) => 12u8,
        Node::Case(..) => 13u8,
        Node::Rescue(..) => 13u8,
        Node::Cbase(..) => 14u8,
        Node::EncodingLiteral(..) => 14u8,
        Node::False(..) => 14u8,
        Node::FileLiteral(..) => 14u8,
        Node::Lambda(..) => 14u8,
        Node::LineLiteral(..) => 14u8,
        Node::Nil(..) => 15u8,
        Node::Redo(..) => 15u8,
        Node::Retry(..) => 15u8,
        Node::Self_(..) => 15u8,
        Node::True(..) => 15u8,
        Node::TyAny(..) => 15u8,
        Node::TyClass(..) => 16u8,
        Node::TyInstance(..) => 16u8,
        Node::TyNil(..) => 16u8,
        Node::TySelf(..) => 16u8,
        Node::ZSuper(..) => 16u8,
        Node::Class(..) => 17u8,
        Node::If(..) => 17u8,
        Node::Complex(..) => 18u8,
        Node::Float(..) => 18u8,
        Node::Integer(..) => 18u8,
        Node::Rational(..) => 18u8,
        Node::Const(..) => 19u8,
        Node::ConstLhs(..) => 19u8,
        Node::ConstAsgn(..) => 20u8,
        Node::CSend(..) => 21u8,
        Node::Send(..) => 21u8,
        Node::CvarAsgn(..) => 22u8,
        Node::GvarAsgn(..) => 22u8,
        Node::IvarAsgn(..) => 22u8,
        Node::Kwoptarg(..) => 22u8,
        Node::LvarAsgn(..) => 22u8,
        Node::Optarg(..) => 22u8,
        Node::TyIvardecl(..) => 23u8,
        Node::CvarLhs(..) => 24u8,
        Node::GvarLhs(..) => 24u8,
        Node::IvarLhs(..) => 24u8,
        Node::LvarLhs(..) => 24u8,
        Node::ShadowArg(..) => 24u8,
        Node::Def(..) => 25u8,
        Node::Defs(..) => 26u8,
        Node::Ensure(..) => 27u8,
        Node::Module(..) => 28u8,
        Node::SClass(..) => 28u8,
        Node::Until(..) => 28u8,
        Node::While(..) => 28u8,
        Node::NthRef(..) => 29u8,
        Node::OpAsgn(..) => 30u8,
        Node::Postexe(..) => 31u8,
        Node::Preexe(..) => 31u8,
        Node::Splat(..) => 31u8,
        Node::SplatLhs(..) => 31u8,
        Node::Regexp(..) => 32u8,
        Node::When(..) => 32u8,
        Node::Regopt(..) => 33u8,
        Node::Resbody(..) => 34u8,
        Node::String(..) => 35u8,
        Node::TyConstInstance(..) => 36u8,
        Node::TyGendecl(..) => 36u8,
        Node::TyGeninst(..) => 36u8,
        Node::TyGendeclarg(..) => 37u8,
        Node::TyPrototype(..) => 38u8,
    }
}

fn sexp_group_of(n: &Node) -> (r: u8)
    ensures
        r == sexp_group(*n),
{
    match n {
        Node::Alias(..) => 0u8,
        Node::And(..) => 0u8,
        Node::AndAsgn(..) => 0u8,
        Node::EFlipflop(..) => 0u8,
        Node::ERange(..) => 0u8,
        Node::IFlipflop(..) => 0u8,
        Node::IRange(..) => 1u8,
        Node::Masgn(..) => 1u8,
        Node::MatchAsgn(..) => 1u8,
        Node::Or(..) => 1u8,
        Node::OrAsgn(..) => 1u8,
        Node::Pair(..) => 1u8,
        Node::TyCast(..) => 2u8,
        Node::TyConSubtype(..) => 2u8,
        Node::TyConUnify(..) => 2u8,
        Node::TyHash(..) => 2u8,
        Node::TyOr(..) => 2u8,
        Node::TyTypedArg(..) => 2u8,
        Node::UntilPost(..) => 3u8,
        Node::WhilePost(..) => 3u8,
        Node::Arg(..) => 4u8,
        Node::Backref(..) => 4u8,
        Node::Cvar(..) => 4u8,
        Node::Gvar(..) => 4u8,
        Node::Ident(..) => 4u8,
        Node::Ivar(..) => 4u8,
        Node::Kwarg(..) => 5u8,
        Node::Lvar(..) => 5u8,
        Node::Symbol(..) => 5u8,
        Node::Args(..) => 6u8,
        Node::Array(..) => 6u8,
        Node::Begin(..) => 6u8,
        Node::Break(..) => 6u8,
        Node::DString(..) => 6u8,
        Node::DSymbol(..) => 6u8,
        Node::Hash(..) => 7u8,
        Node::Kwbegin(..) => 7u8,
        Node::Mlhs(..) => 7u8,
        Node::Next(..) => 7u8,
        Node::Return(..) => 7u8,
        Node::Super(..) => 7u8,
        Node::TyGenargs(..) => 8u8,
        Node::TyTuple(..) => 8u8,
        Node::Undef(..) => 8u8,
        Node::XString(..) => 8u8,
        Node::Yield(..) => 8u8,
        Node::Block(..) => 9u8,
        Node::For(..) => 9u8,
        Node::Blockarg(..) => 10u8,
        Node::Kwrestarg(..) => 10u8,
        Node::Restarg(..) => 10u8,
        Node::BlockPass(..) => 11u8,
        Node::Defined(..) => 11u8,
        Node::Kwsplat(..) => 11u8,
        Node::MatchCurLine(..) => 11u8,
        Node::Procarg0(..) => 11u8,
        Node::TyArray(..) => 11u8,
        Node::TyCpath(..) => 12u8,
        Node::TyNillable(..) => 12u8,
        Node::TyParen(..) => 12u8,
        Node::TyProc(..) => 12u8,
        Node::TyReturnSig(..) => 12u8,
        Node::Case(..) => 13u8,
        Node::Rescue(..) => 13u8,
        Node::Cbase(..) => 14u8,
        Node::EncodingLiteral(..) => 14u8,
        Node::False(..) => 14u8,
        Node::FileLiteral(..) => 14u8,
        Node::Lambda(..) => 14u8,
        Node::LineLiteral(..) => 14u8,
        Node::Nil(..) => 15u8,
        Node::Redo(..) => 15u8,
        Node::Retry(..) => 15u8,
        Node::Self_(..) => 15u8,
        Node::True(..) => 15u8,
        Node::TyAny(..) => 15u8,
        Node::TyClass(..) => 16u8,
        Node::TyInstance(..) => 16u8,
        Node::TyNil(..) => 16u8,
        Node::TySelf(..) => 16u8,
        Node::ZSuper(..) => 16u8,
        Node::Class(..) => 17u8,
        Node::If(..) => 17u8,
        Node::Complex(..) => 18u8,
        Node::Float(..) => 18u8,
        Node::Integer(..) => 18u8,
        Node::Rational(..) => 18u8,
        Node::Const(..) => 19u8,
        Node::ConstLhs(..) => 19u8,
        Node::ConstAsgn(..) => 20u8,
        Node::CSend(..) => 21u8,
        Node::Send(..) => 21u8,
        Node::CvarAsgn(..) => 22u8,
        Node::GvarAsgn(..) => 22u8,
        Node::IvarAsgn(..) => 22u8,
        Node::Kwoptarg(..) => 22u8,
        Node::LvarAsgn(..) => 22u8,
        Node::Optarg(..) => 22u8,
        Node::TyIvardecl(..) => 23u8,
        Node::CvarLhs(..) => 24u8,
        Node::GvarLhs(..) => 24u8,
        Node::IvarLhs(..) => 24u8,
        Node::LvarLhs(..) => 24u8,
        Node::ShadowArg(..) => 24u8,
        Node::Def(..) => 25u8,
        Node::Defs(..) => 26u8,
        Node::Ensure(..) => 27u8,
        Node::Module(..) => 28u8,
        Node::SClass(..) => 28u8,
        Node::Until(..) => 28u8,
        Node::While(..) => 28u8,
        Node::NthRef(..) => 29u8,
        Node::OpAsgn(..) => 30u8,
        Node::Postexe(..) => 31u8,
        Node::Preexe(..) => 31u8,
        Node::Splat(..) => 31u8,
        Node::SplatLhs(..) => 31u8,
        Node::Regexp(..) => 32u8,
        Node::When(..) => 32u8,
        Node::Regopt(..) => 33u8,
        Node::Resbody(..) => 34u8,
        Node::String(..) => 35u8,
        Node::TyConstInstance(..) => 36u8,
        Node::TyGendecl(..) => 36u8,
        Node::TyGeninst(..) => 36u8,
        Node::TyGendeclarg(..) => 37u8,
        Node::TyPrototype(..) => 38u8,
    }
}

fn write_fields_g0(f: &mut SexpFormatter, n: &Node)
    requires
        sexp_group(*n) == 0u8,
        old(f).indent >= 1,
        old(f).indent <= usize::MAX / 2 - depth(*n),
    ensures
        final(f).buf@ == old(f).buf@ + show_fields(*n, old(f).indent as nat, old(f).print_str),
        final(f).indent == old(f).indent,
        final(f).print_str == old(f).print_str,
    decreases *n, 1int,
{
    let ghost b0 = f.buf@;
    match n {
        Node::Alias(_, f1, f2) => {
            write_child(f, f1);
            write_child(f, f2);
        },
        Node::And(_, f1, f2) => {
            write_child(f, f1);
            write_child(f, f2);
        },
        Node::AndAsgn(_, f1, f2) => {
            write_child(f, f1);
            write_child(f, f2);
        },
        Node::EFlipflop(_, f1, f2) => {
            write_child(f, f1);
            write_child(f, f2);
        },
        Node::ERange(_, f1, f2) => {
            write_child(f, f1);
            write_child(f, f2);
        },
        Node::IFlipflop(_, f1, f2) => {
            write_child(f, f1);
            write_child(f, f2);
        },
        _ => {
            assert(false);
        },
    }
    assert(f.buf@ =~= b0 + show_fields(*n, f.indent as nat, f.print_str));
}

fn write_fields_g1(f: &mut SexpFormatter, n: &Node)
    requires
        sexp_group(*n) == 1u8,
        old(f).indent >= 1,
        old(f).indent <= usize::MAX / 2 - depth(*n),
    ensures
        final(f).buf@ == old(f).buf@ + show_fields(*n, old(f).indent as nat, old(f).print_str),
        final(f).indent == old(f).indent,
        final(f).print_str == old(f).print_str,
    decreases *n, 1int,
{
    let ghost b0 = f.buf@;
    match n {
        Node::IRange(_, f1, f2) => {
            write_child(f, f1);
            write_child(f, f2);
        },
        Node::Masgn(_, f1, f2) => {
            write_child(f, f1);
            write_child(f, f2);
        },
        Node::MatchAsgn(_, f1, f2) => {
            write_child(f, f1);
            write_child(f, f2);
        },
        Node::Or(_, f1, f2) => {
            write_child(f, f1);
            write_child(f, f2);
        },
        Node::OrAsgn(_, f1, f2) => {
            write_child(f, f1);
            write_child(f, f2);
        },
        Node::Pair(_, f1, f2) => {
            write_child(f, f1);
            write_child(f, f2);
        },
        _ => {
            assert(false);
        },
    }
    assert(f.buf@ =~= b0 + show_fields(*n, f.indent as nat, f.print_str));
}

fn write_fields_g2(f: &mut SexpFormatter, n: &Node)
    requires
        sexp_group(*n) == 2u8,
        old(f).indent >= 1,
        old(f).indent <= usize::MAX / 2 - depth(*n),
    ensures
        final(f).buf@ == old(f).buf@ + show_fields(*n, old(f).indent as nat, old(f).print_str),
        final(f).indent == old(f).indent,
        final(f).print_str == old(f).print_str,
    decreases *n, 1int,
{
    let ghost b0 = f.buf@;
    match n {
        Node::TyCast(_, f1, f2) => {
            write_child(f, f1);
            write_child(f, f2);
        },
        Node::TyConSubtype(_, f1, f2) => {
            write_child(f, f1);
            write_child(f, f2);
        },
        Node::TyConUnify(_, f1, f2) => {
            write_child(f, f1);
            write_child(f, f2);
        },
        Node::TyHash(_, f1, f2) => {
            write_child(f, f1);
            write_child(f, f2);
        },
        Node::TyOr(_, f1, f2) => {
            write_child(f, f1);
            write_child(f, f2);
        },
        Node::TyTypedArg(_, f1, f2) => {
            write_child(f, f1);
            write_child(f, f2);
        },
        _ => {
            assert(false);
        },
    }
    assert(f.buf@ =~= b0 + show_fields(*n, f.indent as nat, f.print_str));
}

fn write_fields_g3(f: &mut SexpFormatter, n: &Node)
    requires
        sexp_group(*n) == 3u8,
        old(f).indent >= 1,
        old(f).indent <= usize::MAX / 2 - depth(*n),
    ensures
        final(f).buf@ == old(f).buf@ + show_fields(*n, old(f).indent as nat, old(f).print_str),
        final(f).indent == old(f).indent,
        final(f).print_str == old(f).print_str,
    decreases *n, 1int,
{
    let ghost b0 = f.buf@;
    match n {
        Node::UntilPost(_, f1, f2) => {
            write_child(f, f1);
            write_child(f, f2);
        },
        Node::WhilePost(_, f1, f2) => {
            write_child(f, f1);
            write_child(f, f2);
        },
        _ => {
            assert(false);
        },
    }
    assert(f.buf@ =~= b0 + show_fields(*n, f.indent as nat, f.print_str));
}

fn write_fields_g4(f: &mut SexpFormatter, n: &Node)
    requires
        sexp_group(*n) == 4u8,
        old(f).indent >= 1,
        old(f).indent <= usize::MAX / 2 - depth(*n),
    ensures
        final(f).buf@ == old(f).buf@ + show_fields(*n, old(f).indent as nat, old(f).print_str),
        final(f).indent == old(f).indent,
        final(f).print_str == old(f).print_str,
    decreases *n, 1int,
{
    let ghost b0 = f.buf@;
    match n {
        Node::Arg(_, f1) => {
            f.write_symbol(f1);
        },
        Node::Backref(_, f1) => {
            f.write_symbol(f1);
        },
        Node::Cvar(_, f1) => {
            f.write_symbol(f1);
        },
        Node::Gvar(_, f1) => {
            f.write_symbol(f1);
        },
        Node::Ident(_, f1) => {
            f.write_symbol(f1);
        },
        Node::Ivar(_, f1) => {
            f.write_symbol(f1);
        },
        _ => {
            assert(false);
        },
    }
    assert(f.buf@ =~= b0 + show_fields(*n, f.indent as nat, f.print_str));
}

fn write_fields_g5(f: &mut SexpFormatter, n: &Node)
    requires
        sexp_group(*n) == 5u8,
        old(f).indent >= 1,
        old(f).indent <= usize::MAX / 2 - depth(*n),
    ensures
        final(f).buf@ == old(f).buf@ + show_fields(*n, old(f).indent as nat, old(f).print_str),
        final(f).indent == old(f).indent,
        final(f).print_str == old(f).print_str,
    decreases *n, 1int,
{
    let ghost b0 = f.buf@;
    match n {
        Node::Kwarg(_, f1) => {
            f.write_symbol(f1);
        },
        Node::Lvar(_, f1) => {
            f.write_symbol(f1);
        },
        Node::Symbol(_, f1) => {
            f.write_symbol(f1);
        },
        _ => {
            assert(false);
        },
    }
    assert(f.buf@ =~= b0 + show_fields(*n, f.indent as nat, f.print_str));
}

fn write_fields_g6(f: &mut SexpFormatter, n: &Node)
    requires
        sexp_group(*n) == 6u8,
        old(f).indent >= 1,
        old(f).indent <= usize::MAX / 2 - depth(*n),
    ensures
        final(f).buf@ == old(f).buf@ + show_fields(*n, old(f).indent as nat, old(f).print_str),
        final(f).indent == old(f).indent,
        final(f).print_str == old(f).print_str,
    decreases *n, 1int,
{
    let ghost b0 = f.buf@;
    match n {
        Node::Args(_, f1) => {
            write_list(f, f1);
        },
        Node::Array(_, f1) => {
            write_list(f, f1);
        },
        Node::Begin(_, f1) => {
            write_list(f, f1);
        },
        Node::Break(_, f1) => {
            write_list(f, f1);
        },
        Node::DString(_, f1) => {
            write_list(f, f1);
        },
        Node::DSymbol(_, f1) => {
            write_list(f, f1);
        },
        _ => {
            assert(false);
        },
    }
    assert(f.buf@ =~= b0 + show_fields(*n, f.indent as nat, f.print_str));
}

fn write_fields_g7(f: &mut SexpFormatter, n: &Node)
    requires
        sexp_group(*n) == 7u8,
        old(f).indent >= 1,
        old(f).indent <= usize::MAX / 2 - depth(*n),
    ensures
        final(f).buf@ == old(f).buf@ + show_fields(*n, old(f).indent as nat, old(f).print_str),
        final(f).indent == old(f).indent,
        final(f).print_str == old(f).print_str,
    decreases *n, 1int,
{
    let ghost b0 = f.buf@;
    match n {
        Node::Hash(_, f1) => {
            write_list(f, f1);
        },
        Node::Kwbegin(_, f1) => {
            write_list(f, f1);
        },
        Node::Mlhs(_, f1) => {
            write_list(f, f1);
        },
        Node::Next(_, f1) => {
            write_list(f, f1);
        },
        Node::Return(_, f1) => {
            write_list(f, f1);
        },
        Node::Super(_, f1) => {
            write_list(f, f1);
        },
        _ => {
            assert(false);
        },
    }
    assert(f.buf@ =~= b0 + show_fields(*n, f.indent as nat, f.print_str));
}

fn write_fields_g8(f: &mut SexpFormatter, n: &Node)
    requires
        sexp_group(*n) == 8u8,
        old(f).indent >= 1,
        old(f).indent <= usize::MAX / 2 - depth(*n),
    ensures
        final(f).buf@ == old(f).buf@ + show_fields(*n, old(f).indent as nat, old(f).print_str),
        final(f).indent == old(f).indent,
        final(f).print_str == old(f).print_str,
    decreases *n, 1int,
{
    let ghost b0 = f.buf@;
    match n {
        Node::TyGenargs(_, f1) => {
            write_list(f, f1);
        },
        Node::TyTuple(_, f1) => {
            write_list(f, f1);
        },
        Node::Undef(_, f1) => {
            write_list(f, f1);
        },
        Node::XString(_, f1) => {
            write_list(f, f1);
        },
        Node::Yield(_, f1) => {
            write_list(f, f1);
        },
        _ => {
            assert(false);
        },
    }
    assert(f.buf@ =~= b0 + show_fields(*n, f.indent as nat, f.print_str));
}

fn write_fields_g9(f: &mut SexpFormatter, n: &Node)
    requires
        sexp_group(*n) == 9u8,
        old(f).indent >= 1,
        old(f).indent <= usize::MAX / 2 - depth(*n),
    ensures
        final(f).buf@ == old(f).buf@ + show_fields(*n, old(f).indent as nat, old(f).print_str),
        final(f).indent == old(f).indent,
        final(f).print_str == old(f).print_str,
    decreases *n, 1int,
{
    let ghost b0 = f.buf@;
    match n {
        Node::Block(_, f1, f2, f3) => {
            write_child(f, f1);
            write_child(f, f2);
            write_opt(f, f3);
        },
        Node::For(_, f1, f2, f3) => {
            write_child(f, f1);
            write_child(f, f2);
            write_opt(f, f3);
        },
        _ => {
            assert(false);
        },
    }
    assert(f.buf@ =~= b0 + show_fields(*n, f.indent as nat, f.print_str));
}

fn write_fields_g10(f: &mut SexpFormatter, n: &Node)
    requires
        sexp_group(*n) == 10u8,
        old(f).indent >= 1,
        old(f).indent <= usize::MAX / 2 - depth(*n),
    ensures
        final(f).buf@ == old(f).buf@ + show_fields(*n, old(f).indent as nat, old(f).print_str),
        final(f).indent == old(f).indent,
        final(f).print_str == old(f).print_str,
    decreases *n, 1int,
{
    let ghost b0 = f.buf@;
    match n {
        Node::Blockarg(_, f1) => {
            f.write_opt_id(f1);
        },
        Node::Kwrestarg(_, f1) => {
            f.write_opt_id(f1);
        },
        Node::Restarg(_, f1) => {
            f.write_opt_id(f1);
        },
        _ => {
            assert(false);
        },
    }
    assert(f.buf@ =~= b0 + show_fields(*n, f.indent as nat, f.print_str));
}

fn write_fields_g11(f: &mut SexpFormatter, n: &Node)
    requires
        sexp_group(*n) == 11u8,
        old(f).indent >= 1,
        old(f).indent <= usize::MAX / 2 - depth(*n),
    ensures
        final(f).buf@ == old(f).buf@ + show_fields(*n, old(f).indent as nat, old(f).print_str),
        final(f).indent == old(f).indent,
        final(f).print_str == old(f).print_str,
    decreases *n, 1int,
{
    let ghost b0 = f.buf@;
    match n {
        Node::BlockPass(_, f1) => {
            write_child(f, f1);
        },
        Node::Defined(_, f1) => {
            write_child(f, f1);
        },
        Node::Kwsplat(_, f1) => {
            write_child(f, f1);
        },
        Node::MatchCurLine(_, f1) => {
            write_child(f, f1);
        },
        Node::Procarg0(_, f1) => {
            write_child(f, f1);
        },
        Node::TyArray(_, f1) => {
            write_child(f, f1);
        },
        _ => {
            assert(false);
        },
    }
    assert(f.buf@ =~= b0 + show_fields(*n, f.indent as nat, f.print_str));
}

fn write_fields_g12(f: &mut SexpFormatter, n: &Node)
    requires
        sexp_group(*n) == 12u8,
        old(f).indent >= 1,
        old(f).indent <= usize::MAX / 2 - depth(*n),
    ensures
        final(f).buf@ == old(f).buf@ + show_fields(*n, old(f).indent as nat, old(f).print_str),
        final(f).indent == old(f).indent,
        final(f).print_str == old(f).print_str,
    decreases *n, 1int,
{
    let ghost b0 = f.buf@;
    match n {
        Node::TyCpath(_, f1) => {
            write_child(f, f1);
        },
        Node::TyNillable(_, f1) => {
            write_child(f, f1);
        },
        Node::TyParen(_, f1) => {
            write_child(f, f1);
        },
        Node::TyProc(_, f1) => {
            write_child(f, f1);
        },
        Node::TyReturnSig(_, f1) => {
            write_child(f, f1);
        },
        _ => {
            assert(false);
        },
    }
    assert(f.buf@ =~= b0 + show_fields(*n, f.indent as nat, f.print_str));
}

fn write_fields_g13(f: &mut SexpFormatter, n: &Node)
    requires
        sexp_group(*n) == 13u8,
        old(f).indent >= 1,
        old(f).indent <= usize::MAX / 2 - depth(*n),
    ensures
        final(f).buf@ == old(f).buf@ + show_fields(*n, old(f).indent as nat, old(f).print_str),
        final(f).indent == old(f).indent,
        final(f).print_str == old(f).print_str,
    decreases *n, 1int,
{
    let ghost b0 = f.buf@;
    match n {
        Node::Case(_, f1, f2, f3) => {
            write_opt(f, f1);
            write_list(f, f2);
            write_opt(f, f3);
        },
        Node::Rescue(_, f1, f2, f3) => {
            write_opt(f, f1);
            write_list(f, f2);
            write_opt(f, f3);
        },
        _ => {
            assert(false);
        },
    }
    assert(f.buf@ =~= b0 + show_fields(*n, f.indent as nat, f.print_str));
}

fn write_fields_g14(f: &mut SexpFormatter, n: &Node)
    requires
        sexp_group(*n) == 14u8,
        old(f).indent >= 1,
        old(f).indent <= usize::MAX / 2 - depth(*n),
    ensures
        final(f).buf@ == old(f).buf@ + show_fields(*n, old(f).indent as nat, old(f).print_str),
        final(f).indent == old(f).indent,
        final(f).print_str == old(f).print_str,
    decreases *n, 1int,
{
    let ghost b0 = f.buf@;
    match n {
        Node::Cbase(..) => {},
        Node::EncodingLiteral(..) => {},
        Node::False(..) => {},
        Node::FileLiteral(..) => {},
        Node::Lambda(..) => {},
        Node::LineLiteral(..) => {},
        _ => {
            assert(false);
        },
    }
    assert(f.buf@ =~= b0 + show_fields(*n, f.indent as nat, f.print_str));
}

fn write_fields_g15(f: &mut SexpFormatter, n: &Node)
    requires
        sexp_group(*n) == 15u8,
        old(f).indent >= 1,
        old(f).indent <= usize::MAX / 2 - depth(*n),
    ensures
        final(f).buf@ == old(f).buf@ + show_fields(*n, old(f).indent as nat, old(f).print_str),
        final(f).indent == old(f).indent,
        final(f).print_str == old(f).print_str,
    decreases *n, 1int,
{
    let ghost b0 = f.buf@;
    match n {
        Node::Nil(..) => {},
        Node::Redo(..) => {},
        Node::Retry(..) => {},
        Node::Self_(..) => {},
        Node::True(..) => {},
        Node::TyAny(..) => {},
        _ => {
            assert(false);
        },
    }
    assert(f.buf@ =~= b0 + show_fields(*n, f.indent as nat, f.print_str));
}

fn write_fields_g16(f: &mut SexpFormatter, n: &Node)
    requires
        sexp_group(*n) == 16u8,
        old(f).indent >= 1,
        old(f).indent <= usize::MAX / 2 - depth(*n),
    ensures
        final(f).buf@ == old(f).buf@ + show_fields(*n, old(f).indent as nat, old(f).print_str),
        final(f).indent == old(f).indent,
        final(f).print_str == old(f).print_str,
    decreases *n, 1int,
{
    let ghost b0 = f.buf@;
    match n {
        Node::TyClass(..) => {},
        Node::TyInstance(..) => {},
        Node::TyNil(..) => {},
        Node::TySelf(..) => {},
        Node::ZSuper(..) => {},
        _ => {
            assert(false);
        },
    }
    assert(f.buf@ =~= b0 + show_fields(*n, f.indent as nat, f.print_str));
}

fn write_fields_g17(f: &mut SexpFormatter, n: &Node)
    requires
        sexp_group(*n) == 17u8,
        old(f).indent >= 1,
        old(f).indent <= usize::MAX / 2 - depth(*n),
    ensures
        final(f).buf@ == old(f).buf@ + show_fields(*n, old(f).indent as nat, old(f).print_str),
        final(f).indent == old(f).indent,
        final(f).print_str == old(f).print_str,
    decreases *n, 1int,
{
    let ghost b0 = f.buf@;
    match n {
        Node::Class(_, f1, f2, f3) => {
            write_child(f, f1);
            write_opt(f, f2);
            write_opt(f, f3);
        },
        Node::If(_, f1, f2, f3) => {
            write_child(f, f1);
            write_opt(f, f2);
            write_opt(f, f3);
        },
        _ => {
            assert(false);
        },
    }
    assert(f.buf@ =~= b0 + show_fields(*n, f.indent as nat, f.print_str));
}

fn write_fields_g18(f: &mut SexpFormatter, n: &Node)
    requires
        sexp_group(*n) == 18u8,
        old(f).indent >= 1,
        old(f).indent <= usize::MAX / 2 - depth(*n),
    ensures
        final(f).buf@ == old(f).buf@ + show_fields(*n, old(f).indent as nat, old(f).print_str),
        final(f).indent == old(f).indent,
        final(f).print_str == old(f).print_str,
    decreases *n, 1int,
{
    let ghost b0 = f.buf@;
    match n {
        Node::Complex(_, f1) => {
            f.write_numeric(f1);
        },
        Node::Float(_, f1) => {
            f.write_numeric(f1);
        },
        Node::Integer(_, f1) => {
            f.write_numeric(f1);
        },
        Node::Rational(_, f1) => {
            f.write_numeric(f1);
        },
        _ => {
            assert(false);
        },
    }
    assert(f.buf@ =~= b0 + show_fields(*n, f.indent as nat, f.print_str));
}

fn write_fields_g19(f: &mut SexpFormatter, n: &Node)
    requires
        sexp_group(*n) == 19u8,
        old(f).indent >= 1,
        old(f).indent <= usize::MAX / 2 - depth(*n),
    ensures
        final(f).buf@ == old(f).buf@ + show_fields(*n, old(f).indent as nat, old(f).print_str),
        final(f).indent == old(f).indent,
        final(f).print_str == old(f).print_str,
    decreases *n, 1int,
{
    let ghost b0 = f.buf@;
    match n {
        Node::Const(_, f1, f2) => {
            write_opt(f, f1);
            f.write_symbol(&f2.1);
        },
        Node::ConstLhs(_, f1, f2) => {
            write_opt(f, f1);
            f.write_symbol(&f2.1);
        },
        _ => {
            assert(false);
        },
    }
    assert(f.buf@ =~= b0 + show_fields(*n, f.indent as nat, f.print_str));
}

fn write_fields_g20(f: &mut SexpFormatter, n: &Node)
    requires
        sexp_group(*n) == 20u8,
        old(f).indent >= 1,
        old(f).indent <= usize::MAX / 2 - depth(*n),
    ensures
        final(f).buf@ == old(f).buf@ + show_fields(*n, old(f).indent as nat, old(f).print_str),
        final(f).indent == old(f).indent,
        final(f).print_str == old(f).print_str,
    decreases *n, 1int,
{
    let ghost b0 = f.buf@;
    match n {
        Node::ConstAsgn(_, f1, f2, f3) => {
            write_opt(f, f1);
            f.write_symbol(&f2.1);
            write_child(f, f3);
        },
        _ => {
            assert(false);
        },
    }
    assert(f.buf@ =~= b0 + show_fields(*n, f.indent as nat, f.print_str));
}

fn write_fields_g21(f: &mut SexpFormatter, n: &Node)
    requires
        sexp_group(*n) == 21u8,
        old(f).indent >= 1,
        old(f).indent <= usize::MAX / 2 - depth(*n),
    ensures
        final(f).buf@ == old(f).buf@ + show_fields(*n, old(f).indent as nat, old(f).print_str),
        final(f).indent == old(f).indent,
        final(f).print_str == old(f).print_str,
    decreases *n, 1int,
{
    let ghost b0 = f.buf@;
    match n {
        Node::CSend(_, f1, f2, f3) => {
            write_opt(f, f1);
            f.write_symbol(&f2.1);
            write_list(f, f3);
        },
        Node::Send(_, f1, f2, f3) => {
            write_opt(f, f1);
            f.write_symbol(&f2.1);
            write_list(f, f3);
        },
        _ => {
            assert(false);
        },
    }
    assert(f.buf@ =~= b0 + show_fields(*n, f.indent as nat, f.print_str));
}

fn write_fields_g22(f: &mut SexpFormatter, n: &Node)
    requires
        sexp_group(*n) == 22u8,
        old(f).indent >= 1,
        old(f).indent <= usize::MAX / 2 - depth(*n),
    ensures
        final(f).buf@ == old(f).buf@ + show_fields(*n, old(f).indent as nat, old(f).print_str),
        final(f).indent == old(f).indent,
        final(f).print_str == old(f).print_str,
    decreases *n, 1int,
{
    let ghost b0 = f.buf@;
    match n {
        Node::CvarAsgn(_, f1, f2) => {
            f.write_symbol(&f1.1);
            write_child(f, f2);
        },
        Node::GvarAsgn(_, f1, f2) => {
            f.write_symbol(&f1.1);
            write_child(f, f2);
        },
        Node::IvarAsgn(_, f1, f2) => {
            f.write_symbol(&f1.1);
            write_child(f, f2);
        },
        Node::Kwoptarg(_, f1, f2) => {
            f.write_symbol(&f1.1);
            write_child(f, f2);
        },
        Node::LvarAsgn(_, f1, f2) => {
            f.write_symbol(&f1.1);
            write_child(f, f2);
        },
        Node::Optarg(_, f1, f2) => {
            f.write_symbol(&f1.1);
            write_child(f, f2);
        },
        _ => {
            assert(false);
        },
    }
    assert(f.buf@ =~= b0 + show_fields(*n, f.indent as nat, f.print_str));
}

fn write_fields_g23(f: &mut SexpFormatter, n: &Node)
    requires
        sexp_group(*n) == 23u8,
        old(f).indent >= 1,
        old(f).indent <= usize::MAX / 2 - depth(*n),
    ensures
        final(f).buf@ == old(f).buf@ + show_fields(*n, old(f).indent as nat, old(f).print_str),
        final(f).indent == old(f).indent,
        final(f).print_str == old(f).print_str,
    decreases *n, 1int,
{
    let ghost b0 = f.buf@;
    match n {
        Node::TyIvardecl(_, f1, f2) => {
            f.write_symbol(&f1.1);
            write_child(f, f2);
        },
        _ => {
            assert(false);
        },
    }
    assert(f.buf@ =~= b0 + show_fields(*n, f.indent as nat, f.print_str));
}

fn write_fields_g24(f: &mut SexpFormatter, n: &Node)
    requires
        sexp_group(*n) == 24u8,
        old(f).indent >= 1,
        old(f).indent <= usize::MAX / 2 - depth(*n),
    ensures
        final(f).buf@ == old(f).buf@ + show_fields(*n, old(f).indent as nat, old(f).print_str),
        final(f).indent == old(f).indent,
        final(f).print_str == old(f).print_str,
    decreases *n, 1int,
{
    let ghost b0 = f.buf@;
    match n {
        Node::CvarLhs(_, f1) => {
            f.write_symbol(&f1.1);
        },
        Node::GvarLhs(_, f1) => {
            f.write_symbol(&f1.1);
        },
        Node::IvarLhs(_, f1) => {
            f.write_symbol(&f1.1);
        },
        Node::LvarLhs(_, f1) => {
            f.write_symbol(&f1.1);
        },
        Node::ShadowArg(_, f1) => {
            f.write_symbol(&f1.1);
        },
        _ => {
            assert(false);
        },
    }
    assert(f.buf@ =~= b0 + show_fields(*n, f.indent as nat, f.print_str));
}

fn write_fields_g25(f: &mut SexpFormatter, n: &Node)
    requires
        sexp_group(*n) == 25u8,
        old(f).indent >= 1,
        old(f).indent <= usize::MAX / 2 - depth(*n),
    ensures
        final(f).buf@ == old(f).buf@ + show_fields(*n, old(f).indent as nat, old(f).print_str),
        final(f).indent == old(f).indent,
        final(f).print_str == old(f).print_str,
    decreases *n, 1int,
{
    let ghost b0 = f.buf@;
    match n {
        Node::Def(_, f1, f2, f3) => {
            f.write_symbol(&f1.1);
            write_opt(f, f2);
            write_opt(f, f3);
        },
        _ => {
            assert(false);
        },
    }
    assert(f.buf@ =~= b0 + show_fields(*n, f.indent as nat, f.print_str));
}

fn write_fields_g26(f: &mut SexpFormatter, n: &Node)
    requires
        sexp_group(*n) == 26u8,
        old(f).indent >= 1,
        old(f).indent <= usize::MAX / 2 - depth(*n),
    ensures
        final(f).buf@ == old(f).buf@ + show_fields(*n, old(f).indent as nat, old(f).print_str),
        final(f).indent == old(f).indent,
        final(f).print_str == old(f).print_str,
    decreases *n, 1int,
{
    let ghost b0 = f.buf@;
    match n {
        Node::Defs(_, f1, f2, f3, f4) => {
            write_child(f, f1);
            f.write_symbol(&f2.1);
            write_opt(f, f3);
            write_opt(f, f4);
        },
        _ => {
            assert(false);
        },
    }
    assert(f.buf@ =~= b0 + show_fields(*n, f.indent as nat, f.print_str));
}

fn write_fields_g27(f: &mut SexpFormatter, n: &Node)
    requires
        sexp_group(*n) == 27u8,
        old(f).indent >= 1,
        old(f).indent <= usize::MAX / 2 - depth(*n),
    ensures
        final(f).buf@ == old(f).buf@ + show_fields(*n, old(f).indent as nat, old(f).print_str),
        final(f).indent == old(f).indent,
        final(f).print_str == old(f).print_str,
    decreases *n, 1int,
{
    let ghost b0 = f.buf@;
    match n {
        Node::Ensure(_, f1, f2) => {
            write_opt(f, f1);
            write_child(f, f2);
        },
        _ => {
            assert(false);
        },
    }
    assert(f.buf@ =~= b0 + show_fields(*n, f.indent as nat, f.print_str));
}

fn write_fields_g28(f: &mut SexpFormatter, n: &Node)
    requires
        sexp_group(*n) == 28u8,
        old(f).indent >= 1,
        old(f).indent <= usize::MAX / 2 - depth(*n),
    ensures
        final(f).buf@ == old(f).buf@ + show_fields(*n, old(f).indent as nat, old(f).print_str),
        final(f).indent == old(f).indent,
        final(f).print_str == old(f).print_str,
    decreases *n, 1int,
{
    let ghost b0 = f.buf@;
    match n {
        Node::Module(_, f1, f2) => {
            write_child(f, f1);
            write_opt(f, f2);
        },
        Node::SClass(_, f1, f2) => {
            write_child(f, f1);
            write_opt(f, f2);
        },
        Node::Until(_, f1, f2) => {
            write_child(f, f1);
            write_opt(f, f2);
        },
        Node::While(_, f1, f2) => {
            write_child(f, f1);
            write_opt(f, f2);
        },
        _ => {
            assert(false);
        },
    }
    assert(f.buf@ =~= b0 + show_fields(*n, f.indent as nat, f.print_str));
}

fn write_fields_g29(f: &mut SexpFormatter, n: &Node)
    requires
        sexp_group(*n) == 29u8,
        old(f).indent >= 1,
        old(f).indent <= usize::MAX / 2 - depth(*n),
    ensures
        final(f).buf@ == old(f).buf@ + show_fields(*n, old(f).indent as nat, old(f).print_str),
        final(f).indent == old(f).indent,
        final(f).print_str == old(f).print_str,
    decreases *n, 1int,
{
    let ghost b0 = f.buf@;
    match n {
        Node::NthRef(_, f1) => {
            f.write_number(*f1);
        },
        _ => {
            assert(false);
        },
    }
    assert(f.buf@ =~= b0 + show_fields(*n, f.indent as nat, f.print_str));
}

fn write_fields_g30(f: &mut SexpFormatter, n: &Node)
    requires
        sexp_group(*n) == 30u8,
        old(f).indent >= 1,
        old(f).indent <= usize::MAX / 2 - depth(*n),
    ensures
        final(f).buf@ == old(f).buf@ + show_fields(*n, old(f).indent as nat, old(f).print_str),
        final(f).indent == old(f).indent,
        final(f).print_str == old(f).print_str,
    decreases *n, 1int,
{
    let ghost b0 = f.buf@;
    match n {
        Node::OpAsgn(_, f1, f2, f3) => {
            write_child(f, f1);
            f.write_symbol(&f2.1);
            write_child(f, f3);
        },
        _ => {
            assert(false);
        },
    }
    assert(f.buf@ =~= b0 + show_fields(*n, f.indent as nat, f.print_str));
}

fn write_fields_g31(f: &mut SexpFormatter, n: &Node)
    requires
        sexp_group(*n) == 31u8,
        old(f).indent >= 1,
        old(f).indent <= usize::MAX / 2 - depth(*n),
    ensures
        final(f).buf@ == old(f).buf@ + show_fields(*n, old(f).indent as nat, old(f).print_str),
        final(f).indent == old(f).indent,
        final(f).print_str == old(f).print_str,
    decreases *n, 1int,
{
    let ghost b0 = f.buf@;
    match n {
        Node::Postexe(_, f1) => {
            write_opt(f, f1);
        },
        Node::Preexe(_, f1) => {
            write_opt(f, f1);
        },
        Node::Splat(_, f1) => {
            write_opt(f, f1);
        },
        Node::SplatLhs(_, f1) => {
            write_opt(f, f1);
        },
        _ => {
            assert(false);
        },
    }
    assert(f.buf@ =~= b0 + show_fields(*n, f.indent as nat, f.print_str));
}

fn write_fields_g32(f: &mut SexpFormatter, n: &Node)
    requires
        sexp_group(*n) == 32u8,
        old(f).indent >= 1,
        old(f).indent <= usize::MAX / 2 - depth(*n),
    ensures
        final(f).buf@ == old(f).buf@ + show_fields(*n, old(f).indent as nat, old(f).print_str),
        final(f).indent == old(f).indent,
        final(f).print_str == old(f).print_str,
    decreases *n, 1int,
{
    let ghost b0 = f.buf@;
    match n {
        Node::Regexp(_, f1, f2) => {
            write_list(f, f1);
            write_opt(f, f2);
        },
        Node::When(_, f1, f2) => {
            write_list(f, f1);
            write_opt(f, f2);
        },
        _ => {
            assert(false);
        },
    }
    assert(f.buf@ =~= b0 + show_fields(*n, f.indent as nat, f.print_str));
}

fn write_fields_g33(f: &mut SexpFormatter, n: &Node)
    requires
        sexp_group(*n) == 33u8,
        old(f).indent >= 1,
        old(f).indent <= usize::MAX / 2 - depth(*n),
    ensures
        final(f).buf@ == old(f).buf@ + show_fields(*n, old(f).indent as nat, old(f).print_str),
        final(f).indent == old(f).indent,
        final(f).print_str == old(f).print_str,
    decreases *n, 1int,
{
    let ghost b0 = f.buf@;
    match n {
        Node::Regopt(_, f1) => {
            f.write_chars(f1);
        },
        _ => {
            assert(false);
        },
    }
    assert(f.buf@ =~= b0 + show_fields(*n, f.indent as nat, f.print_str));
}

fn write_fields_g34(f: &mut SexpFormatter, n: &Node)
    requires
        sexp_group(*n) == 34u8,
        old(f).indent >= 1,
        old(f).indent <= usize::MAX / 2 - depth(*n),
    ensures
        final(f).buf@ == old(f).buf@ + show_fields(*n, old(f).indent as nat, old(f).print_str),
        final(f).indent == old(f).indent,
        final(f).print_str == old(f).print_str,
    decreases *n, 1int,
{
    let ghost b0 = f.buf@;
    match n {
        Node::Resbody(_, f1, f2, f3) => {
            write_opt(f, f1);
            write_opt(f, f2);
            write_opt(f, f3);
        },
        _ => {
            assert(false);
        },
    }
    assert(f.buf@ =~= b0 + show_fields(*n, f.indent as nat, f.print_str));
}

fn write_fields_g35(f: &mut SexpFormatter, n: &Node)
    requires
        sexp_group(*n) == 35u8,
        old(f).indent >= 1,
        old(f).indent <= usize::MAX / 2 - depth(*n),
    ensures
        final(f).buf@ == old(f).buf@ + show_fields(*n, old(f).indent as nat, old(f).print_str),
        final(f).indent == old(f).indent,
        final(f).print_str == old(f).print_str,
    decreases *n, 1int,
{
    let ghost b0 = f.buf@;
    match n {
        Node::String(_, f1) => {
            f.write_string(f1);
        },
        _ => {
            assert(false);
        },
    }
    assert(f.buf@ =~= b0 + show_fields(*n, f.indent as nat, f.print_str));
}

fn write_fields_g36(f: &mut SexpFormatter, n: &Node)
    requires
        sexp_group(*n) == 36u8,
        old(f).indent >= 1,
        old(f).indent <= usize::MAX / 2 - depth(*n),
    ensures
        final(f).buf@ == old(f).buf@ + show_fields(*n, old(f).indent as nat, old(f).print_str),
        final(f).indent == old(f).indent,
        final(f).print_str == old(f).print_str,
    decreases *n, 1int,
{
    let ghost b0 = f.buf@;
    match n {
        Node::TyConstInstance(_, f1, f2) => {
            write_child(f, f1);
            write_list(f, f2);
        },
        Node::TyGendecl(_, f1, f2) => {
            write_child(f, f1);
            write_list(f, f2);
        },
        Node::TyGeninst(_, f1, f2) => {
            write_child(f, f1);
            write_list(f, f2);
        },
        _ => {
            assert(false);
        },
    }
    assert(f.buf@ =~= b0 + show_fields(*n, f.indent as nat, f.print_str));
}

fn write_fields_g37(f: &mut SexpFormatter, n: &Node)
    requires
        sexp_group(*n) == 37u8,
        old(f).indent >= 1,
        old(f).indent <= usize::MAX / 2 - depth(*n),
    ensures
        final(f).buf@ == old(f).buf@ + show_fields(*n, old(f).indent as nat, old(f).print_str),
        final(f).indent == old(f).indent,
        final(f).print_str == old(f).print_str,
    decreases *n, 1int,
{
    let ghost b0 = f.buf@;
    match n {
        Node::TyGendeclarg(_, f1, f2) => {
            f.write_symbol(f1);
            write_opt(f, f2);
        },
        _ => {
            assert(false);
        },
    }
    assert(f.buf@ =~= b0 + show_fields(*n, f.indent as nat, f.print_str));
}

fn write_fields_g38(f: &mut SexpFormatter, n: &Node)
    requires
        sexp_group(*n) == 38u8,
        old(f).indent >= 1,
        old(f).indent <= usize::MAX / 2 - depth(*n),
    ensures
        final(f).buf@ == old(f).buf@ + show_fields(*n, old(f).indent as nat, old(f).print_str),
        final(f).indent == old(f).indent,
        final(f).print_str == old(f).print_str,
    decreases *n, 1int,
{
    let ghost b0 = f.buf@;
    match n {
        Node::TyPrototype(_, f1, f2, f3) => {
            write_opt(f, f1);
            write_child(f, f2);
            write_opt(f, f3);
        },
        _ => {
            assert(false);
        },
    }
    assert(f.buf@ =~= b0 + show_fields(*n, f.indent as nat, f.print_str));
}

fn write_fields(f: &mut SexpFormatter, n: &Node)
    requires
        old(f).indent >= 1,
        old(f).indent <= usize::MAX / 2 - depth(*n),
    ensures
        final(f).buf@ == old(f).buf@ + show_fields(*n, old(f).indent as nat, old(f).print_str),
        final(f).indent == old(f).indent,
        final(f).print_str == old(f).print_str,
    decreases *n, 2int,
{
    let g = sexp_group_of(n);
    if g == 0u8 {
        write_fields_g0(f, n);
    } else if g == 1u8 {
        write_fields_g1(f, n);
    } else if g == 2u8 {
        write_fields_g2(f, n);
    } else if g == 3u8 {
        write_fields_g3(f, n);
    } else if g == 4u8 {
        write_fields_g4(f, n);
    } else if g == 5u8 {
        write_fields_g5(f, n);
    } else if g == 6u8 {
        write_fields_g6(f, n);
    } else if g == 7u8 {
        write_fields_g7(f, n);
    } else if g == 8u8 {
        write_fields_g8(f, n);
    } else if g == 9u8 {
        write_fields_g9(f, n);
    } else if g == 10u8 {
        write_fields_g10(f, n);
    } else if g == 11u8 {
        write_fields_g11(f, n);
    } else if g == 12u8 {
        write_fields_g12(f, n);
    } else if g == 13u8 {
        write_fields_g13(f, n);
    } else if g == 14u8 {
        write_fields_g14(f, n);
    } else if g == 15u8 {
        write_fields_g15(f, n);
    } else if g == 16u8 {
        write_fields_g16(f, n);
    } else if g == 17u8 {
        write_fields_g17(f, n);
    } else if g == 18u8 {
        write_fields_g18(f, n);
    } else if g == 19u8 {
        write_fields_g19(f, n);
    } else if g == 20u8 {
        write_fields_g20(f, n);
    } else if g == 21u8 {
        write_fields_g21(f, n);
    } else if g == 22u8 {
        write_fields_g22(f, n);
    } else if g == 23u8 {
        write_fields_g23(f, n);
    } else if g == 24u8 {
        write_fields_g24(f, n);
    } else if g == 25u8 {
        write_fields_g25(f, n);
    } else if g == 26u8 {
        write_fields_g26(f, n);
    } else if g == 27u8 {
        write_fields_g27(f, n);
    } else if g == 28u8 {
        write_fields_g28(f, n);
    } else if g == 29u8 {
        write_fields_g29(f, n);
    } else if g == 30u8 {
        write_fields_g30(f, n);
    } else if g == 31u8 {
        write_fields_g31(f, n);
    } else if g == 32u8 {
        write_fields_g32(f, n);
    } else if g == 33u8 {
        write_fields_g33(f, n);
    } else if g == 34u8 {
        write_fields_g34(f, n);
    } else if g == 35u8 {
        write_fields_g35(f, n);
    } else if g == 36u8 {
        write_fields_g36(f, n);
    } else if g == 37u8 {
        write_fields_g37(f, n);
    } else if g == 38u8 {
        write_fields_g38(f, n);
    } else {
        assert(false);
    }
}

/// Writes s-expressions into a string.
pub struct SexpFormatter {
    pub indent: usize,
    pub buf: String,
    pub print_str: bool,
}

impl SexpFormatter {
    /// Appends `data`.
    pub fn write_str(&mut self, data: &str)
        ensures
            final(self).buf@ == old(self).buf@ + data@,
            final(self).indent == old(self).indent,
            final(self).print_str == old(self).print_str,
    {
        push_str(&mut self.buf, data)
    }

    /// Starts a node: its indentation, a parenthesis and its name in
    /// lowercase.
    pub fn new_node(&mut self, name: &str) -> (r: SexpNode<'_>)
        requires
            old(self).indent <= usize::MAX / 2,
        ensures
            r.fmt.buf@ == old(self).buf@ + spaces(2 * old(self).indent as nat) + seq!['('] + lowercase(name@),
            all_ascii(name@) ==> r.fmt.buf@ == old(self).buf@ + spaces(2 * old(self).indent as nat) + seq!['('] + ascii_lowercase(name@),
            r.fmt.indent == old(self).indent,
            r.fmt.print_str == old(self).print_str,
            *final(self) == *final(r.fmt),
    {
        sexp_node_new(self, name)
    }

    fn write_spaces(&mut self, n: usize)
        ensures
            final(self).buf@ == old(self).buf@ + spaces(n as nat),
            final(self).indent == old(self).indent,
            final(self).print_str == old(self).print_str,
    {
        let mut i: usize = 0;
        while i < n
            invariant
                i <= n,
                self.buf@ == old(self).buf@ + spaces(i as nat),
                self.indent == old(self).indent,
                self.print_str == old(self).print_str,
            decreases n - i,
        {
            push_char(&mut self.buf, ' ');
            i = i + 1;
        }
    }

    fn write_symbol(&mut self, s: &String)
        ensures
            final(self).buf@ == old(self).buf@ + symbol_text(s@),
            final(self).indent == old(self).indent,
            final(self).print_str == old(self).print_str,
    {
        push_char(&mut self.buf, ' ');
        push_char(&mut self.buf, ':');
        push_str(&mut self.buf, s.as_str());
        assert(self.buf@ =~= old(self).buf@ + symbol_text(s@));
    }

    fn write_numeric(&mut self, s: &String)
        ensures
            final(self).buf@ == old(self).buf@ + numeric_text(s@),
            final(self).indent == old(self).indent,
            final(self).print_str == old(self).print_str,
    {
        push_char(&mut self.buf, ' ');
        push_str(&mut self.buf, s.as_str());
        assert(self.buf@ =~= old(self).buf@ + numeric_text(s@));
    }

    fn write_number(&mut self, n: usize)
        ensures
            final(self).buf@ == old(self).buf@ + number_text(n),
            final(self).indent == old(self).indent,
            final(self).print_str == old(self).print_str,
    {
        push_char(&mut self.buf, ' ');
        let d = decimal_string(n);
        push_str(&mut self.buf, d.as_str());
        assert(self.buf@ =~= old(self).buf@ + number_text(n));
    }

    fn write_opt_id(&mut self, o: &Option<Id>)
        ensures
            final(self).buf@ == old(self).buf@ + opt_id_text(*o),
            final(self).indent == old(self).indent,
            final(self).print_str == old(self).print_str,
    {
        match o {
            Some(id) => self.write_symbol(&id.1),
            None => {
                assert(self.buf@ =~= old(self).buf@ + opt_id_text(*o));
            },
        }
    }

    fn write_chars(&mut self, cs: &Vec<char>)
        ensures
            final(self).buf@ == old(self).buf@ + chars_text(cs@),
            final(self).indent == old(self).indent,
            final(self).print_str == old(self).print_str,
    {
        let mut i: usize = 0;
        while i < cs.len()
            invariant
                i <= cs@.len(),
                self.buf@ == old(self).buf@ + chars_text(cs@.take(i as int)),
                self.indent == old(self).indent,
                self.print_str == old(self).print_str,
            decreases cs@.len() - i,
        {
            assert(cs@.take(i + 1).drop_last() =~= cs@.take(i as int));
            push_char(&mut self.buf, ' ');
            push_char(&mut self.buf, ':');
            push_char(&mut self.buf, cs[i]);
            i = i + 1;
            assert(self.buf@ =~= old(self).buf@ + chars_text(cs@.take(i as int)));
        }
        assert(cs@.take(cs@.len() as int) =~= cs@);
    }

    fn write_string(&mut self, s: &String)
        ensures
            final(self).buf@ == old(self).buf@ + string_text(s@, old(self).print_str),
            final(self).indent == old(self).indent,
            final(self).print_str == old(self).print_str,
    {
        if self.print_str {
            push_char(&mut self.buf, ' ');
            escape_rb(self, s);
            assert(self.buf@ =~= old(self).buf@ + string_text(s@, old(self).print_str));
        } else {
            push_str(&mut self.buf, " [STRING]");
        }
    }
}

/// The escaped form of `c`, as `char::escape_default` writes it.
fn escape_char(c: char) -> (r: Vec<char>)
    ensures
        r@ == escape_default(c),
{
    let mut r: Vec<char> = Vec::new();
    if c == '\t' {
        r.push('\\');
        r.push('t');
    } else if c == '\r' {
        r.push('\\');
        r.push('r');
    } else if c == '\n' {
        r.push('\\');
        r.push('n');
    } else if c == '\'' || c == '"' || c == '\\' {
        r.push('\\');
        r.push(c);
    } else if 0x20 <= (c as u32) && (c as u32) <= 0x7e {
        r.push(c);
    } else {
        r.push('\\');
        r.push('u');
        r.push('{');
        let mut h = hex_chars(c as u32);
        r.append(&mut h);
        r.push('}');
    }
    assert(r@ =~= escape_default(c));
    r
}

fn hex_digit_char(d: u32) -> (c: char)
    requires
        d < 16,
    ensures
        c == hex_digit(d as int),
{
    if d < 10 {
        if d == 0 { '0' } else if d == 1 { '1' } else if d == 2 { '2' } else if d == 3 { '3' }
        else if d == 4 { '4' } else if d == 5 { '5' } else if d == 6 { '6' } else if d == 7 { '7' }
        else if d == 8 { '8' } else { '9' }
    } else if d == 10 { 'a' } else if d == 11 { 'b' } else if d == 12 { 'c' }
    else if d == 13 { 'd' } else if d == 14 { 'e' } else { 'f' }
}

fn hex_chars(n: u32) -> (r: Vec<char>)
    ensures
        r@ == hex(n as nat),
    decreases n,
{
    if n < 16 {
        let mut r: Vec<char> = Vec::new();
        r.push(hex_digit_char(n));
        assert(r@ =~= hex(n as nat));
        r
    } else {
        let mut r = hex_chars(n / 16);
        r.push(hex_digit_char(n % 16));
        r
    }
}

/// Writes `s` as a double-quoted literal with its characters escaped.
fn escape_rb(f: &mut SexpFormatter, s: &String)
    ensures
        final(f).buf@ == old(f).buf@ + quoted(s@),
        final(f).indent == old(f).indent,
        final(f).print_str == old(f).print_str,
{
    push_char(&mut f.buf, '"');
    let cs = chars_of(s.as_str());
    let mut i: usize = 0;
    while i < cs.len()
        invariant
            cs@ == s@,
            i <= cs@.len(),
            f.buf@ == old(f).buf@ + seq!['"'] + escaped(cs@.take(i as int)),
            f.indent == old(f).indent,
            f.print_str == old(f).print_str,
        decreases cs@.len() - i,
    {
        assert(cs@.take(i + 1).drop_last() =~= cs@.take(i as int));
        let e = escape_char(cs[i]);
        let mut j: usize = 0;
        let ghost b = f.buf@;
        while j < e.len()
            invariant
                j <= e@.len(),
                f.buf@ == b + e@.take(j as int),
                f.indent == old(f).indent,
                f.print_str == old(f).print_str,
            decreases e@.len() - j,
        {
            push_char(&mut f.buf, e[j]);
            j = j + 1;
            assert(f.buf@ =~= b + e@.take(j as int));
        }
        assert(e@.take(e@.len() as int) =~= e@);
        i = i + 1;
        assert(f.buf@ =~= old(f).buf@ + seq!['"'] + escaped(cs@.take(i as int)));
    }
    assert(cs@.take(cs@.len() as int) =~= cs@);
    push_char(&mut f.buf, '"');
    assert(f.buf@ =~= old(f).buf@ + quoted(s@));
}

/// A node being written.
pub struct SexpNode<'a> {
    pub fmt: &'a mut SexpFormatter,
}

/// Starts a node in `fmt`: its indentation, a parenthesis and its name in
/// lowercase.
pub fn sexp_node_new<'a>(fmt: &'a mut SexpFormatter, name: &str) -> (r: SexpNode<'a>)
    requires
        old(fmt).indent <= usize::MAX / 2,
    ensures
        r.fmt.buf@ == old(fmt).buf@ + spaces(2 * old(fmt).indent as nat) + seq!['('] + lowercase(name@),
        all_ascii(name@) ==> r.fmt.buf@ == old(fmt).buf@ + spaces(2 * old(fmt).indent as nat) + seq!['('] + ascii_lowercase(name@),
        r.fmt.indent == old(fmt).indent,
        r.fmt.print_str == old(fmt).print_str,
        *final(fmt) == *final(r.fmt),
{
    let lower = to_lowercase(name);
    open_node(fmt, lower.as_str())
}

/// Starts a node in `fmt` whose name is already in lowercase: its
/// indentation, a parenthesis and the name.
fn open_node<'a>(fmt: &'a mut SexpFormatter, name: &str) -> (r: SexpNode<'a>)
    requires
        old(fmt).indent <= usize::MAX / 2,
    ensures
        r.fmt.buf@ == old(fmt).buf@ + spaces(2 * old(fmt).indent as nat) + seq!['('] + name@,
        r.fmt.indent == old(fmt).indent,
        r.fmt.print_str == old(fmt).print_str,
        *final(fmt) == *final(r.fmt),
{
    let indent = fmt.indent * 2;
    fmt.write_spaces(indent);
    push_char(&mut fmt.buf, '(');
    push_str(&mut fmt.buf, name);
    assert(fmt.buf@ =~= old(fmt).buf@ + spaces(2 * old(fmt).indent as nat) + seq!['('] + name@);
    SexpNode { fmt }
}

impl<'a> SexpNode<'a> {
    /// Writes a child node one level deeper, on a line of its own.
    pub fn field(&mut self, value: &Rc<Node>)
        requires
            old(self).fmt.indent + 1 < usize::MAX / 2 - depth(**value),
        ensures
            final(self).fmt.buf@ == old(self).fmt.buf@ + show_child(*value, old(self).fmt.indent as nat + 1, old(self).fmt.print_str),
            final(self).fmt.indent == old(self).fmt.indent,
            final(self).fmt.print_str == old(self).fmt.print_str,
    {
        self.fmt.indent = self.fmt.indent + 1;
        write_child(self.fmt, value);
        self.fmt.indent = self.fmt.indent - 1;
    }

    /// Writes a string literal field.
    pub fn string(&mut self, value: &String)
        ensures
            final(self).fmt.buf@ == old(self).fmt.buf@ + string_text(value@, old(self).fmt.print_str),
            final(self).fmt.indent == old(self).fmt.indent,
            final(self).fmt.print_str == old(self).fmt.print_str,
    {
        self.fmt.write_string(value)
    }

    /// Writes a numeric literal field.
    pub fn numeric(&mut self, value: &String)
        ensures
            final(self).fmt.buf@ == old(self).fmt.buf@ + numeric_text(value@),
            final(self).fmt.indent == old(self).fmt.indent,
            final(self).fmt.print_str == old(self).fmt.print_str,
    {
        self.fmt.write_numeric(value)
    }

    /// Ends the node.
    pub fn finish(&mut self)
        ensures
            final(self).fmt.buf@ == old(self).fmt.buf@ + seq![')'],
            final(self).fmt.indent == old(self).fmt.indent,
            final(self).fmt.print_str == old(self).fmt.print_str,
    {
        push_char(&mut self.fmt.buf, ')');
    }
}

fn write_child(f: &mut SexpFormatter, n: &Rc<Node>)
    requires
        old(f).indent < usize::MAX / 2 - depth(**n),
    ensures
        final(f).buf@ == old(f).buf@ + show_child(*n, old(f).indent as nat, old(f).print_str),
        final(f).indent == old(f).indent,
        final(f).print_str == old(f).print_str,
    decreases **n, 4int,
{
    push_char(&mut f.buf, '\n');
    let ghost b = f.buf@;
    write_node(f, &**n);
    assert(f.buf@ =~= old(f).buf@ + show_child(*n, old(f).indent as nat, old(f).print_str));
}

fn write_opt(f: &mut SexpFormatter, o: &Option<Rc<Node>>)
    requires
        old(f).indent < usize::MAX / 2 - depth_opt(*o),
    ensures
        final(f).buf@ == old(f).buf@ + show_opt(*o, old(f).indent as nat, old(f).print_str),
        final(f).indent == old(f).indent,
        final(f).print_str == old(f).print_str,
    decreases *o, 0int,
{
    match o {
        Some(x) => write_child(f, x),
        None => push_str(&mut f.buf, " nil"),
    }
}

fn write_list(f: &mut SexpFormatter, v: &Vec<Rc<Node>>)
    requires
        old(f).indent < usize::MAX / 2 - depth_list(v@),
    ensures
        final(f).buf@ == old(f).buf@ + show_list(v@, old(f).indent as nat, old(f).print_str),
        final(f).indent == old(f).indent,
        final(f).print_str == old(f).print_str,
    decreases v@, 0int,
{
    let mut i: usize = 0;
    while i < v.len()
        invariant
            i <= v@.len(),
            f.indent == old(f).indent,
            f.print_str == old(f).print_str,
            f.indent < usize::MAX / 2 - depth_list(v@),
            f.buf@ == old(f).buf@ + show_list(v@.take(i as int), f.indent as nat, f.print_str),
        decreases v@.len() - i,
    {
        proof {
            assert(v@.take(i + 1).drop_last() =~= v@.take(i as int));
            lemma_depth_list_member(v@, i as int);
            assert(decreases_to!(v@ => v@[i as int]));
        }
        write_child(f, &v[i]);
        i = i + 1;
        assert(f.buf@ =~= old(f).buf@ + show_list(v@.take(i as int), f.indent as nat, f.print_str));
    }
    assert(v@.take(v@.len() as int) =~= v@);
}

proof fn lemma_depth_list_member(s: Seq<Rc<Node>>, i: int)
    requires
        0 <= i < s.len(),
    ensures
        depth(*s[i]) <= depth_list(s),
    decreases s.len(),
{
    if i < s.len() - 1 {
        lemma_depth_list_member(s.drop_last(), i);
    }
}

fn write_node(f: &mut SexpFormatter, n: &Node)
    requires
        old(f).indent < usize::MAX / 2 - depth(*n),
    ensures
        final(f).buf@ == old(f).buf@ + show_node(*n, old(f).indent as nat, old(f).print_str),
        final(f).indent == old(f).indent,
        final(f).print_str == old(f).print_str,
    decreases *n, 3int,
{
    let name = node_name_of(n);
    let indent = f.indent * 2;
    f.write_spaces(indent);
    push_char(&mut f.buf, '(');
    push_str(&mut f.buf, name);
    f.indent = f.indent + 1;
    write_fields(f, n);
    f.indent = f.indent - 1;
    push_char(&mut f.buf, ')');
    assert(f.buf@ =~= old(f).buf@ + show_node(*n, old(f).indent as nat, old(f).print_str));
}

impl Node {
    /// Writes this node at the formatter's indentation.
    pub fn sexp(&self, f: &mut SexpFormatter)
        requires
            old(f).indent < usize::MAX / 2 - depth(*self),
        ensures
            final(f).buf@ == old(f).buf@ + show_node(*self, old(f).indent as nat, old(f).print_str),
            final(f).indent == old(f).indent,
            final(f).print_str == old(f).print_str,
    {
        write_node(f, self)
    }
}

impl Ast {
    /// Writes the tree to `output` as an s-expression with strings printed;
    /// nothing for an empty file.
    pub fn to_sexp(&self, output: &mut String)
        requires
            self.node matches Some(n) ==> depth(*n) < usize::MAX / 2,
        ensures
            final(output)@ == old(output)@ + match self.node {
                Some(n) => show_node(*n, 0, true),
                None => Seq::<char>::empty(),
            },
    {
        match &self.node {
            Some(node) => {
                let mut f = SexpFormatter { indent: 0, buf: String::new(), print_str: true };
                write_node(&mut f, &**node);
                push_str(output, f.buf.as_str());
            },
            None => {
                assert(output@ + Seq::<char>::empty() =~= output@);
            },
        }
    }
}


/// Where the printed children `kids` appear in `t`, at `i` for the first.
pub open spec fn shown_at(t: Seq<char>, i: int, kids: Seq<Rc<Node>>, fi: nat, ps: bool) -> bool
    decreases kids.len(), 0int,
{
    kids.len() > 0 && {
        let c = show_child(kids[0], fi, ps);
        &&& 0 <= i
        &&& i + c.len() <= t.len()
        &&& t.subrange(i, i + c.len()) == c
        &&& shows_in_order(t.skip(i + c.len()), kids.drop_first(), fi, ps)
    }
}

/// A marker on a position where a printed child is found.
pub open spec fn found_at(i: int) -> bool {
    true
}

/// Whether the printed forms of `kids`, each at indentation `fi`, appear
/// in `t` one after the other, without overlapping, in their order.
pub open spec fn shows_in_order(t: Seq<char>, kids: Seq<Rc<Node>>, fi: nat, ps: bool) -> bool
    decreases kids.len(), 1int,
{
    kids.len() == 0 || exists|i: int| #[trigger] found_at(i) && shown_at(t, i, kids, fi, ps)
}

proof fn lemma_shows_gap(g: Seq<char>, t: Seq<char>, kids: Seq<Rc<Node>>, fi: nat, ps: bool)
    requires
        shows_in_order(t, kids, fi, ps),
    ensures
        shows_in_order(g + t, kids, fi, ps),
{
    if kids.len() > 0 {
        let i = choose|i: int| #[trigger] found_at(i) && shown_at(t, i, kids, fi, ps);
        let c = show_child(kids[0], fi, ps);
        let j = i + g.len();
        assert((g + t).subrange(j, j + c.len()) =~= t.subrange(i, i + c.len()));
        assert((g + t).skip(j + c.len()) =~= t.skip(i + c.len()));
        assert(found_at(j));
        assert(shown_at(g + t, j, kids, fi, ps));
    }
}

proof fn lemma_shows_join(a: Seq<char>, k1: Seq<Rc<Node>>, b: Seq<char>, k2: Seq<Rc<Node>>, fi: nat, ps: bool)
    requires
        shows_in_order(a, k1, fi, ps),
        shows_in_order(b, k2, fi, ps),
    ensures
        shows_in_order(a + b, k1 + k2, fi, ps),
    decreases k1.len(),
{
    if k1.len() == 0 {
        assert(k1 + k2 =~= k2);
        lemma_shows_gap(a, b, k2, fi, ps);
    } else {
        let i = choose|i: int| #[trigger] found_at(i) && shown_at(a, i, k1, fi, ps);
        let c = show_child(k1[0], fi, ps);
        let rest = a.skip(i + c.len());
        lemma_shows_join(rest, k1.drop_first(), b, k2, fi, ps);
        assert((a + b).subrange(i, i + c.len()) =~= a.subrange(i, i + c.len()));
        assert((a + b).skip(i + c.len()) =~= rest + b);
        assert((k1 + k2).drop_first() =~= k1.drop_first() + k2);
        assert((k1 + k2)[0] == k1[0]);
        assert(found_at(i));
        assert(shown_at(a + b, i, k1 + k2, fi, ps));
    }
}

proof fn lemma_shows_child(c: Rc<Node>, fi: nat, ps: bool)
    ensures
        shows_in_order(show_child(c, fi, ps), seq![c], fi, ps),
{
    let t = show_child(c, fi, ps);
    assert(t.subrange(0, t.len() as int) =~= t);
    assert(seq![c].drop_first() =~= Seq::<Rc<Node>>::empty());
    assert(found_at(0));
    assert(shown_at(t, 0, seq![c], fi, ps));
}

proof fn lemma_shows_opt(o: Option<Rc<Node>>, fi: nat, ps: bool)
    ensures
        shows_in_order(show_opt(o, fi, ps), opt_nodes(o), fi, ps),
{
    if let Some(c) = o {
        lemma_shows_child(c, fi, ps);
    }
}

proof fn lemma_shows_list(s: Seq<Rc<Node>>, fi: nat, ps: bool)
    ensures
        shows_in_order(show_list(s, fi, ps), s, fi, ps),
    decreases s.len(),
{
    if s.len() > 0 {
        lemma_shows_list(s.drop_last(), fi, ps);
        lemma_shows_child(s.last(), fi, ps);
        lemma_shows_join(show_list(s.drop_last(), fi, ps), s.drop_last(), show_child(s.last(), fi, ps), seq![s.last()], fi, ps);
        assert(s.drop_last() + seq![s.last()] =~= s);
    }
}

/// The printed fields of a node hold the printed forms of its child nodes
/// in the order of its fields.
proof fn lemma_fields_in_order(n: Node, fi: nat, ps: bool)
    ensures
        shows_in_order(show_fields(n, fi, ps), children(n), fi, ps),
{
    match n {
        Node::Alias(_, f1, f2) => {
            lemma_shows_child(f1, fi, ps);
            lemma_shows_child(f2, fi, ps);
            lemma_shows_join(show_child(f1, fi, ps), seq![f1], show_child(f2, fi, ps), seq![f2], fi, ps);
            assert(children(n) =~= seq![f1] + seq![f2]);
        },
        Node::And(_, f1, f2) => {
            lemma_shows_child(f1, fi, ps);
            lemma_shows_child(f2, fi, ps);
            lemma_shows_join(show_child(f1, fi, ps), seq![f1], show_child(f2, fi, ps), seq![f2], fi, ps);
            assert(children(n) =~= seq![f1] + seq![f2]);
        },
        Node::AndAsgn(_, f1, f2) => {
            lemma_shows_child(f1, fi, ps);
            lemma_shows_child(f2, fi, ps);
            lemma_shows_join(show_child(f1, fi, ps), seq![f1], show_child(f2, fi, ps), seq![f2], fi, ps);
            assert(children(n) =~= seq![f1] + seq![f2]);
        },
        Node::Arg(_, f1) => {
            assert(children(n) =~= Seq::<Rc<Node>>::empty());
        },
        Node::Args(_, f1) => {
            lemma_shows_list(f1@, fi, ps);
            assert(children(n) =~= f1@);
        },
        Node::Array(_, f1) => {
            lemma_shows_list(f1@, fi, ps);
            assert(children(n) =~= f1@);
        },
        Node::Backref(_, f1) => {
            assert(children(n) =~= Seq::<Rc<Node>>::empty());
        },
        Node::Begin(_, f1) => {
            lemma_shows_list(f1@, fi, ps);
            assert(children(n) =~= f1@);
        },
        Node::Block(_, f1, f2, f3) => {
            lemma_shows_child(f1, fi, ps);
            lemma_shows_child(f2, fi, ps);
            lemma_shows_opt(f3, fi, ps);
            lemma_shows_join(show_child(f1, fi, ps), seq![f1], show_child(f2, fi, ps), seq![f2], fi, ps);
            lemma_shows_join(show_child(f1, fi, ps) + show_child(f2, fi, ps), seq![f1] + seq![f2], show_opt(f3, fi, ps), opt_nodes(f3), fi, ps);
            assert(children(n) =~= seq![f1] + seq![f2] + opt_nodes(f3));
        },
        Node::Blockarg(_, f1) => {
            assert(children(n) =~= Seq::<Rc<Node>>::empty());
        },
        Node::BlockPass(_, f1) => {
            lemma_shows_child(f1, fi, ps);
            assert(children(n) =~= seq![f1]);
        },
        Node::Break(_, f1) => {
            lemma_shows_list(f1@, fi, ps);
            assert(children(n) =~= f1@);
        },
        Node::Case(_, f1, f2, f3) => {
            lemma_shows_opt(f1, fi, ps);
            lemma_shows_list(f2@, fi, ps);
            lemma_shows_opt(f3, fi, ps);
            lemma_shows_join(show_opt(f1, fi, ps), opt_nodes(f1), show_list(f2@, fi, ps), f2@, fi, ps);
            lemma_shows_join(show_opt(f1, fi, ps) + show_list(f2@, fi, ps), opt_nodes(f1) + f2@, show_opt(f3, fi, ps), opt_nodes(f3), fi, ps);
            assert(children(n) =~= opt_nodes(f1) + f2@ + opt_nodes(f3));
        },
        Node::Cbase(_) => {
            assert(children(n) =~= Seq::<Rc<Node>>::empty());
        },
        Node::Class(_, f1, f2, f3) => {
            lemma_shows_child(f1, fi, ps);
            lemma_shows_opt(f2, fi, ps);
            lemma_shows_opt(f3, fi, ps);
            lemma_shows_join(show_child(f1, fi, ps), seq![f1], show_opt(f2, fi, ps), opt_nodes(f2), fi, ps);
            lemma_shows_join(show_child(f1, fi, ps) + show_opt(f2, fi, ps), seq![f1] + opt_nodes(f2), show_opt(f3, fi, ps), opt_nodes(f3), fi, ps);
            assert(children(n) =~= seq![f1] + opt_nodes(f2) + opt_nodes(f3));
        },
        Node::Complex(_, f1) => {
            assert(children(n) =~= Seq::<Rc<Node>>::empty());
        },
        Node::Const(_, f1, f2) => {
            lemma_shows_opt(f1, fi, ps);
            lemma_shows_join(show_opt(f1, fi, ps), opt_nodes(f1), symbol_text(f2.1@), Seq::<Rc<Node>>::empty(), fi, ps);
            assert(children(n) =~= opt_nodes(f1) + Seq::<Rc<Node>>::empty());
        },
        Node::ConstAsgn(_, f1, f2, f3) => {
            lemma_shows_opt(f1, fi, ps);
            lemma_shows_child(f3, fi, ps);
            lemma_shows_join(show_opt(f1, fi, ps), opt_nodes(f1), symbol_text(f2.1@), Seq::<Rc<Node>>::empty(), fi, ps);
            lemma_shows_join(show_opt(f1, fi, ps) + symbol_text(f2.1@), opt_nodes(f1) + Seq::<Rc<Node>>::empty(), show_child(f3, fi, ps), seq![f3], fi, ps);
            assert(children(n) =~= opt_nodes(f1) + Seq::<Rc<Node>>::empty() + seq![f3]);
        },
        Node::ConstLhs(_, f1, f2) => {
            lemma_shows_opt(f1, fi, ps);
            lemma_shows_join(show_opt(f1, fi, ps), opt_nodes(f1), symbol_text(f2.1@), Seq::<Rc<Node>>::empty(), fi, ps);
            assert(children(n) =~= opt_nodes(f1) + Seq::<Rc<Node>>::empty());
        },
        Node::CSend(_, f1, f2, f3) => {
            lemma_shows_opt(f1, fi, ps);
            lemma_shows_list(f3@, fi, ps);
            lemma_shows_join(show_opt(f1, fi, ps), opt_nodes(f1), symbol_text(f2.1@), Seq::<Rc<Node>>::empty(), fi, ps);
            lemma_shows_join(show_opt(f1, fi, ps) + symbol_text(f2.1@), opt_nodes(f1) + Seq::<Rc<Node>>::empty(), show_list(f3@, fi, ps), f3@, fi, ps);
            assert(children(n) =~= opt_nodes(f1) + Seq::<Rc<Node>>::empty() + f3@);
        },
        Node::Cvar(_, f1) => {
            assert(children(n) =~= Seq::<Rc<Node>>::empty());
        },
        Node::CvarAsgn(_, f1, f2) => {
            lemma_shows_child(f2, fi, ps);
            lemma_shows_join(symbol_text(f1.1@), Seq::<Rc<Node>>::empty(), show_child(f2, fi, ps), seq![f2], fi, ps);
            assert(children(n) =~= Seq::<Rc<Node>>::empty() + seq![f2]);
        },
        Node::CvarLhs(_, f1) => {
            assert(children(n) =~= Seq::<Rc<Node>>::empty());
        },
        Node::Def(_, f1, f2, f3) => {
            lemma_shows_opt(f2, fi, ps);
            lemma_shows_opt(f3, fi, ps);
            lemma_shows_join(symbol_text(f1.1@), Seq::<Rc<Node>>::empty(), show_opt(f2, fi, ps), opt_nodes(f2), fi, ps);
            lemma_shows_join(symbol_text(f1.1@) + show_opt(f2, fi, ps), Seq::<Rc<Node>>::empty() + opt_nodes(f2), show_opt(f3, fi, ps), opt_nodes(f3), fi, ps);
            assert(children(n) =~= Seq::<Rc<Node>>::empty() + opt_nodes(f2) + opt_nodes(f3));
        },
        Node::Defined(_, f1) => {
            lemma_shows_child(f1, fi, ps);
            assert(children(n) =~= seq![f1]);
        },
        Node::Defs(_, f1, f2, f3, f4) => {
            lemma_shows_child(f1, fi, ps);
            lemma_shows_opt(f3, fi, ps);
            lemma_shows_opt(f4, fi, ps);
            lemma_shows_join(show_child(f1, fi, ps), seq![f1], symbol_text(f2.1@), Seq::<Rc<Node>>::empty(), fi, ps);
            lemma_shows_join(show_child(f1, fi, ps) + symbol_text(f2.1@), seq![f1] + Seq::<Rc<Node>>::empty(), show_opt(f3, fi, ps), opt_nodes(f3), fi, ps);
            lemma_shows_join(show_child(f1, fi, ps) + symbol_text(f2.1@) + show_opt(f3, fi, ps), seq![f1] + Seq::<Rc<Node>>::empty() + opt_nodes(f3), show_opt(f4, fi, ps), opt_nodes(f4), fi, ps);
            assert(children(n) =~= seq![f1] + Seq::<Rc<Node>>::empty() + opt_nodes(f3) + opt_nodes(f4));
        },
        Node::DString(_, f1) => {
            lemma_shows_list(f1@, fi, ps);
            assert(children(n) =~= f1@);
        },
        Node::DSymbol(_, f1) => {
            lemma_shows_list(f1@, fi, ps);
            assert(children(n) =~= f1@);
        },
        Node::EFlipflop(_, f1, f2) => {
            lemma_shows_child(f1, fi, ps);
            lemma_shows_child(f2, fi, ps);
            lemma_shows_join(show_child(f1, fi, ps), seq![f1], show_child(f2, fi, ps), seq![f2], fi, ps);
            assert(children(n) =~= seq![f1] + seq![f2]);
        },
        Node::EncodingLiteral(_) => {
            assert(children(n) =~= Seq::<Rc<Node>>::empty());
        },
        Node::Ensure(_, f1, f2) => {
            lemma_shows_opt(f1, fi, ps);
            lemma_shows_child(f2, fi, ps);
            lemma_shows_join(show_opt(f1, fi, ps), opt_nodes(f1), show_child(f2, fi, ps), seq![f2], fi, ps);
            assert(children(n) =~= opt_nodes(f1) + seq![f2]);
        },
        Node::ERange(_, f1, f2) => {
            lemma_shows_child(f1, fi, ps);
            lemma_shows_child(f2, fi, ps);
            lemma_shows_join(show_child(f1, fi, ps), seq![f1], show_child(f2, fi, ps), seq![f2], fi, ps);
            assert(children(n) =~= seq![f1] + seq![f2]);
        },
        Node::False(_) => {
            assert(children(n) =~= Seq::<Rc<Node>>::empty());
        },
        Node::FileLiteral(_) => {
            assert(children(n) =~= Seq::<Rc<Node>>::empty());
        },
        Node::Float(_, f1) => {
            assert(children(n) =~= Seq::<Rc<Node>>::empty());
        },
        Node::For(_, f1, f2, f3) => {
            lemma_shows_child(f1, fi, ps);
            lemma_shows_child(f2, fi, ps);
            lemma_shows_opt(f3, fi, ps);
            lemma_shows_join(show_child(f1, fi, ps), seq![f1], show_child(f2, fi, ps), seq![f2], fi, ps);
            lemma_shows_join(show_child(f1, fi, ps) + show_child(f2, fi, ps), seq![f1] + seq![f2], show_opt(f3, fi, ps), opt_nodes(f3), fi, ps);
            assert(children(n) =~= seq![f1] + seq![f2] + opt_nodes(f3));
        },
        Node::Gvar(_, f1) => {
            assert(children(n) =~= Seq::<Rc<Node>>::empty());
        },
        Node::GvarAsgn(_, f1, f2) => {
            lemma_shows_child(f2, fi, ps);
            lemma_shows_join(symbol_text(f1.1@), Seq::<Rc<Node>>::empty(), show_child(f2, fi, ps), seq![f2], fi, ps);
            assert(children(n) =~= Seq::<Rc<Node>>::empty() + seq![f2]);
        },
        Node::GvarLhs(_, f1) => {
            assert(children(n) =~= Seq::<Rc<Node>>::empty());
        },
        Node::Hash(_, f1) => {
            lemma_shows_list(f1@, fi, ps);
            assert(children(n) =~= f1@);
        },
        Node::Ident(_, f1) => {
            assert(children(n) =~= Seq::<Rc<Node>>::empty());
        },
        Node::If(_, f1, f2, f3) => {
            lemma_shows_child(f1, fi, ps);
            lemma_shows_opt(f2, fi, ps);
            lemma_shows_opt(f3, fi, ps);
            lemma_shows_join(show_child(f1, fi, ps), seq![f1], show_opt(f2, fi, ps), opt_nodes(f2), fi, ps);
            lemma_shows_join(show_child(f1, fi, ps) + show_opt(f2, fi, ps), seq![f1] + opt_nodes(f2), show_opt(f3, fi, ps), opt_nodes(f3), fi, ps);
            assert(children(n) =~= seq![f1] + opt_nodes(f2) + opt_nodes(f3));
        },
        Node::IFlipflop(_, f1, f2) => {
            lemma_shows_child(f1, fi, ps);
            lemma_shows_child(f2, fi, ps);
            lemma_shows_join(show_child(f1, fi, ps), seq![f1], show_child(f2, fi, ps), seq![f2], fi, ps);
            assert(children(n) =~= seq![f1] + seq![f2]);
        },
        Node::Integer(_, f1) => {
            assert(children(n) =~= Seq::<Rc<Node>>::empty());
        },
        Node::IRange(_, f1, f2) => {
            lemma_shows_child(f1, fi, ps);
            lemma_shows_child(f2, fi, ps);
            lemma_shows_join(show_child(f1, fi, ps), seq![f1], show_child(f2, fi, ps), seq![f2], fi, ps);
            assert(children(n) =~= seq![f1] + seq![f2]);
        },
        Node::Ivar(_, f1) => {
            assert(children(n) =~= Seq::<Rc<Node>>::empty());
        },
        Node::IvarAsgn(_, f1, f2) => {
            lemma_shows_child(f2, fi, ps);
            lemma_shows_join(symbol_text(f1.1@), Seq::<Rc<Node>>::empty(), show_child(f2, fi, ps), seq![f2], fi, ps);
            assert(children(n) =~= Seq::<Rc<Node>>::empty() + seq![f2]);
        },
        Node::IvarLhs(_, f1) => {
            assert(children(n) =~= Seq::<Rc<Node>>::empty());
        },
        Node::Kwarg(_, f1) => {
            assert(children(n) =~= Seq::<Rc<Node>>::empty());
        },
        Node::Kwbegin(_, f1) => {
            lemma_shows_list(f1@, fi, ps);
            assert(children(n) =~= f1@);
        },
        Node::Kwoptarg(_, f1, f2) => {
            lemma_shows_child(f2, fi, ps);
            lemma_shows_join(symbol_text(f1.1@), Seq::<Rc<Node>>::empty(), show_child(f2, fi, ps), seq![f2], fi, ps);
            assert(children(n) =~= Seq::<Rc<Node>>::empty() + seq![f2]);
        },
        Node::Kwrestarg(_, f1) => {
            assert(children(n) =~= Seq::<Rc<Node>>::empty());
        },
        Node::Kwsplat(_, f1) => {
            lemma_shows_child(f1, fi, ps);
            assert(children(n) =~= seq![f1]);
        },
        Node::Lambda(_) => {
            assert(children(n) =~= Seq::<Rc<Node>>::empty());
        },
        Node::LineLiteral(_) => {
            assert(children(n) =~= Seq::<Rc<Node>>::empty());
        },
        Node::Lvar(_, f1) => {
            assert(children(n) =~= Seq::<Rc<Node>>::empty());
        },
        Node::LvarAsgn(_, f1, f2) => {
            lemma_shows_child(f2, fi, ps);
            lemma_shows_join(symbol_text(f1.1@), Seq::<Rc<Node>>::empty(), show_child(f2, fi, ps), seq![f2], fi, ps);
            assert(children(n) =~= Seq::<Rc<Node>>::empty() + seq![f2]);
        },
        Node::LvarLhs(_, f1) => {
            assert(children(n) =~= Seq::<Rc<Node>>::empty());
        },
        Node::Masgn(_, f1, f2) => {
            lemma_shows_child(f1, fi, ps);
            lemma_shows_child(f2, fi, ps);
            lemma_shows_join(show_child(f1, fi, ps), seq![f1], show_child(f2, fi, ps), seq![f2], fi, ps);
            assert(children(n) =~= seq![f1] + seq![f2]);
        },
        Node::MatchAsgn(_, f1, f2) => {
            lemma_shows_child(f1, fi, ps);
            lemma_shows_child(f2, fi, ps);
            lemma_shows_join(show_child(f1, fi, ps), seq![f1], show_child(f2, fi, ps), seq![f2], fi, ps);
            assert(children(n) =~= seq![f1] + seq![f2]);
        },
        Node::MatchCurLine(_, f1) => {
            lemma_shows_child(f1, fi, ps);
            assert(children(n) =~= seq![f1]);
        },
        Node::Mlhs(_, f1) => {
            lemma_shows_list(f1@, fi, ps);
            assert(children(n) =~= f1@);
        },
        Node::Module(_, f1, f2) => {
            lemma_shows_child(f1, fi, ps);
            lemma_shows_opt(f2, fi, ps);
            lemma_shows_join(show_child(f1, fi, ps), seq![f1], show_opt(f2, fi, ps), opt_nodes(f2), fi, ps);
            assert(children(n) =~= seq![f1] + opt_nodes(f2));
        },
        Node::Next(_, f1) => {
            lemma_shows_list(f1@, fi, ps);
            assert(children(n) =~= f1@);
        },
        Node::Nil(_) => {
            assert(children(n) =~= Seq::<Rc<Node>>::empty());
        },
        Node::NthRef(_, f1) => {
            assert(children(n) =~= Seq::<Rc<Node>>::empty());
        },
        Node::OpAsgn(_, f1, f2, f3) => {
            lemma_shows_child(f1, fi, ps);
            lemma_shows_child(f3, fi, ps);
            lemma_shows_join(show_child(f1, fi, ps), seq![f1], symbol_text(f2.1@), Seq::<Rc<Node>>::empty(), fi, ps);
            lemma_shows_join(show_child(f1, fi, ps) + symbol_text(f2.1@), seq![f1] + Seq::<Rc<Node>>::empty(), show_child(f3, fi, ps), seq![f3], fi, ps);
            assert(children(n) =~= seq![f1] + Seq::<Rc<Node>>::empty() + seq![f3]);
        },
        Node::Optarg(_, f1, f2) => {
            lemma_shows_child(f2, fi, ps);
            lemma_shows_join(symbol_text(f1.1@), Seq::<Rc<Node>>::empty(), show_child(f2, fi, ps), seq![f2], fi, ps);
            assert(children(n) =~= Seq::<Rc<Node>>::empty() + seq![f2]);
        },
        Node::Or(_, f1, f2) => {
            lemma_shows_child(f1, fi, ps);
            lemma_shows_child(f2, fi, ps);
            lemma_shows_join(show_child(f1, fi, ps), seq![f1], show_child(f2, fi, ps), seq![f2], fi, ps);
            assert(children(n) =~= seq![f1] + seq![f2]);
        },
        Node::OrAsgn(_, f1, f2) => {
            lemma_shows_child(f1, fi, ps);
            lemma_shows_child(f2, fi, ps);
            lemma_shows_join(show_child(f1, fi, ps), seq![f1], show_child(f2, fi, ps), seq![f2], fi, ps);
            assert(children(n) =~= seq![f1] + seq![f2]);
        },
        Node::Pair(_, f1, f2) => {
            lemma_shows_child(f1, fi, ps);
            lemma_shows_child(f2, fi, ps);
            lemma_shows_join(show_child(f1, fi, ps), seq![f1], show_child(f2, fi, ps), seq![f2], fi, ps);
            assert(children(n) =~= seq![f1] + seq![f2]);
        },
        Node::Postexe(_, f1) => {
            lemma_shows_opt(f1, fi, ps);
            assert(children(n) =~= opt_nodes(f1));
        },
        Node::Preexe(_, f1) => {
            lemma_shows_opt(f1, fi, ps);
            assert(children(n) =~= opt_nodes(f1));
        },
        Node::Procarg0(_, f1) => {
            lemma_shows_child(f1, fi, ps);
            assert(children(n) =~= seq![f1]);
        },
        Node::Rational(_, f1) => {
            assert(children(n) =~= Seq::<Rc<Node>>::empty());
        },
        Node::Redo(_) => {
            assert(children(n) =~= Seq::<Rc<Node>>::empty());
        },
        Node::Regexp(_, f1, f2) => {
            lemma_shows_list(f1@, fi, ps);
            lemma_shows_opt(f2, fi, ps);
            lemma_shows_join(show_list(f1@, fi, ps), f1@, show_opt(f2, fi, ps), opt_nodes(f2), fi, ps);
            assert(children(n) =~= f1@ + opt_nodes(f2));
        },
        Node::Regopt(_, f1) => {
            assert(children(n) =~= Seq::<Rc<Node>>::empty());
        },
        Node::Resbody(_, f1, f2, f3) => {
            lemma_shows_opt(f1, fi, ps);
            lemma_shows_opt(f2, fi, ps);
            lemma_shows_opt(f3, fi, ps);
            lemma_shows_join(show_opt(f1, fi, ps), opt_nodes(f1), show_opt(f2, fi, ps), opt_nodes(f2), fi, ps);
            lemma_shows_join(show_opt(f1, fi, ps) + show_opt(f2, fi, ps), opt_nodes(f1) + opt_nodes(f2), show_opt(f3, fi, ps), opt_nodes(f3), fi, ps);
            assert(children(n) =~= opt_nodes(f1) + opt_nodes(f2) + opt_nodes(f3));
        },
        Node::Rescue(_, f1, f2, f3) => {
            lemma_shows_opt(f1, fi, ps);
            lemma_shows_list(f2@, fi, ps);
            lemma_shows_opt(f3, fi, ps);
            lemma_shows_join(show_opt(f1, fi, ps), opt_nodes(f1), show_list(f2@, fi, ps), f2@, fi, ps);
            lemma_shows_join(show_opt(f1, fi, ps) + show_list(f2@, fi, ps), opt_nodes(f1) + f2@, show_opt(f3, fi, ps), opt_nodes(f3), fi, ps);
            assert(children(n) =~= opt_nodes(f1) + f2@ + opt_nodes(f3));
        },
        Node::Restarg(_, f1) => {
            assert(children(n) =~= Seq::<Rc<Node>>::empty());
        },
        Node::Retry(_) => {
            assert(children(n) =~= Seq::<Rc<Node>>::empty());
        },
        Node::Return(_, f1) => {
            lemma_shows_list(f1@, fi, ps);
            assert(children(n) =~= f1@);
        },
        Node::SClass(_, f1, f2) => {
            lemma_shows_child(f1, fi, ps);
            lemma_shows_opt(f2, fi, ps);
            lemma_shows_join(show_child(f1, fi, ps), seq![f1], show_opt(f2, fi, ps), opt_nodes(f2), fi, ps);
            assert(children(n) =~= seq![f1] + opt_nodes(f2));
        },
        Node::Self_(_) => {
            assert(children(n) =~= Seq::<Rc<Node>>::empty());
        },
        Node::Send(_, f1, f2, f3) => {
            lemma_shows_opt(f1, fi, ps);
            lemma_shows_list(f3@, fi, ps);
            lemma_shows_join(show_opt(f1, fi, ps), opt_nodes(f1), symbol_text(f2.1@), Seq::<Rc<Node>>::empty(), fi, ps);
            lemma_shows_join(show_opt(f1, fi, ps) + symbol_text(f2.1@), opt_nodes(f1) + Seq::<Rc<Node>>::empty(), show_list(f3@, fi, ps), f3@, fi, ps);
            assert(children(n) =~= opt_nodes(f1) + Seq::<Rc<Node>>::empty() + f3@);
        },
        Node::ShadowArg(_, f1) => {
            assert(children(n) =~= Seq::<Rc<Node>>::empty());
        },
        Node::Splat(_, f1) => {
            lemma_shows_opt(f1, fi, ps);
            assert(children(n) =~= opt_nodes(f1));
        },
        Node::SplatLhs(_, f1) => {
            lemma_shows_opt(f1, fi, ps);
            assert(children(n) =~= opt_nodes(f1));
        },
        Node::String(_, f1) => {
            assert(children(n) =~= Seq::<Rc<Node>>::empty());
        },
        Node::Super(_, f1) => {
            lemma_shows_list(f1@, fi, ps);
            assert(children(n) =~= f1@);
        },
        Node::Symbol(_, f1) => {
            assert(children(n) =~= Seq::<Rc<Node>>::empty());
        },
        Node::True(_) => {
            assert(children(n) =~= Seq::<Rc<Node>>::empty());
        },
        Node::TyAny(_) => {
            assert(children(n) =~= Seq::<Rc<Node>>::empty());
        },
        Node::TyArray(_, f1) => {
            lemma_shows_child(f1, fi, ps);
            assert(children(n) =~= seq![f1]);
        },
        Node::TyCast(_, f1, f2) => {
            lemma_shows_child(f1, fi, ps);
            lemma_shows_child(f2, fi, ps);
            lemma_shows_join(show_child(f1, fi, ps), seq![f1], show_child(f2, fi, ps), seq![f2], fi, ps);
            assert(children(n) =~= seq![f1] + seq![f2]);
        },
        Node::TyClass(_) => {
            assert(children(n) =~= Seq::<Rc<Node>>::empty());
        },
        Node::TyConSubtype(_, f1, f2) => {
            lemma_shows_child(f1, fi, ps);
            lemma_shows_child(f2, fi, ps);
            lemma_shows_join(show_child(f1, fi, ps), seq![f1], show_child(f2, fi, ps), seq![f2], fi, ps);
            assert(children(n) =~= seq![f1] + seq![f2]);
        },
        Node::TyConUnify(_, f1, f2) => {
            lemma_shows_child(f1, fi, ps);
            lemma_shows_child(f2, fi, ps);
            lemma_shows_join(show_child(f1, fi, ps), seq![f1], show_child(f2, fi, ps), seq![f2], fi, ps);
            assert(children(n) =~= seq![f1] + seq![f2]);
        },
        Node::TyConstInstance(_, f1, f2) => {
            lemma_shows_child(f1, fi, ps);
            lemma_shows_list(f2@, fi, ps);
            lemma_shows_join(show_child(f1, fi, ps), seq![f1], show_list(f2@, fi, ps), f2@, fi, ps);
            assert(children(n) =~= seq![f1] + f2@);
        },
        Node::TyCpath(_, f1) => {
            lemma_shows_child(f1, fi, ps);
            assert(children(n) =~= seq![f1]);
        },
        Node::TyGenargs(_, f1) => {
            lemma_shows_list(f1@, fi, ps);
            assert(children(n) =~= f1@);
        },
        Node::TyGendecl(_, f1, f2) => {
            lemma_shows_child(f1, fi, ps);
            lemma_shows_list(f2@, fi, ps);
            lemma_shows_join(show_child(f1, fi, ps), seq![f1], show_list(f2@, fi, ps), f2@, fi, ps);
            assert(children(n) =~= seq![f1] + f2@);
        },
        Node::TyGendeclarg(_, f1, f2) => {
            lemma_shows_opt(f2, fi, ps);
            lemma_shows_join(symbol_text(f1@), Seq::<Rc<Node>>::empty(), show_opt(f2, fi, ps), opt_nodes(f2), fi, ps);
            assert(children(n) =~= Seq::<Rc<Node>>::empty() + opt_nodes(f2));
        },
        Node::TyGeninst(_, f1, f2) => {
            lemma_shows_child(f1, fi, ps);
            lemma_shows_list(f2@, fi, ps);
            lemma_shows_join(show_child(f1, fi, ps), seq![f1], show_list(f2@, fi, ps), f2@, fi, ps);
            assert(children(n) =~= seq![f1] + f2@);
        },
        Node::TyHash(_, f1, f2) => {
            lemma_shows_child(f1, fi, ps);
            lemma_shows_child(f2, fi, ps);
            lemma_shows_join(show_child(f1, fi, ps), seq![f1], show_child(f2, fi, ps), seq![f2], fi, ps);
            assert(children(n) =~= seq![f1] + seq![f2]);
        },
        Node::TyInstance(_) => {
            assert(children(n) =~= Seq::<Rc<Node>>::empty());
        },
        Node::TyIvardecl(_, f1, f2) => {
            lemma_shows_child(f2, fi, ps);
            lemma_shows_join(symbol_text(f1.1@), Seq::<Rc<Node>>::empty(), show_child(f2, fi, ps), seq![f2], fi, ps);
            assert(children(n) =~= Seq::<Rc<Node>>::empty() + seq![f2]);
        },
        Node::TyNil(_) => {
            assert(children(n) =~= Seq::<Rc<Node>>::empty());
        },
        Node::TyNillable(_, f1) => {
            lemma_shows_child(f1, fi, ps);
            assert(children(n) =~= seq![f1]);
        },
        Node::TyOr(_, f1, f2) => {
            lemma_shows_child(f1, fi, ps);
            lemma_shows_child(f2, fi, ps);
            lemma_shows_join(show_child(f1, fi, ps), seq![f1], show_child(f2, fi, ps), seq![f2], fi, ps);
            assert(children(n) =~= seq![f1] + seq![f2]);
        },
        Node::TyParen(_, f1) => {
            lemma_shows_child(f1, fi, ps);
            assert(children(n) =~= seq![f1]);
        },
        Node::TyProc(_, f1) => {
            lemma_shows_child(f1, fi, ps);
            assert(children(n) =~= seq![f1]);
        },
        Node::TyPrototype(_, f1, f2, f3) => {
            lemma_shows_opt(f1, fi, ps);
            lemma_shows_child(f2, fi, ps);
            lemma_shows_opt(f3, fi, ps);
            lemma_shows_join(show_opt(f1, fi, ps), opt_nodes(f1), show_child(f2, fi, ps), seq![f2], fi, ps);
            lemma_shows_join(show_opt(f1, fi, ps) + show_child(f2, fi, ps), opt_nodes(f1) + seq![f2], show_opt(f3, fi, ps), opt_nodes(f3), fi, ps);
            assert(children(n) =~= opt_nodes(f1) + seq![f2] + opt_nodes(f3));
        },
        Node::TyReturnSig(_, f1) => {
            lemma_shows_child(f1, fi, ps);
            assert(children(n) =~= seq![f1]);
        },
        Node::TySelf(_) => {
            assert(children(n) =~= Seq::<Rc<Node>>::empty());
        },
        Node::TyTuple(_, f1) => {
            lemma_shows_list(f1@, fi, ps);
            assert(children(n) =~= f1@);
        },
        Node::TyTypedArg(_, f1, f2) => {
            lemma_shows_child(f1, fi, ps);
            lemma_shows_child(f2, fi, ps);
            lemma_shows_join(show_child(f1, fi, ps), seq![f1], show_child(f2, fi, ps), seq![f2], fi, ps);
            assert(children(n) =~= seq![f1] + seq![f2]);
        },
        Node::Undef(_, f1) => {
            lemma_shows_list(f1@, fi, ps);
            assert(children(n) =~= f1@);
        },
        Node::Until(_, f1, f2) => {
            lemma_shows_child(f1, fi, ps);
            lemma_shows_opt(f2, fi, ps);
            lemma_shows_join(show_child(f1, fi, ps), seq![f1], show_opt(f2, fi, ps), opt_nodes(f2), fi, ps);
            assert(children(n) =~= seq![f1] + opt_nodes(f2));
        },
        Node::UntilPost(_, f1, f2) => {
            lemma_shows_child(f1, fi, ps);
            lemma_shows_child(f2, fi, ps);
            lemma_shows_join(show_child(f1, fi, ps), seq![f1], show_child(f2, fi, ps), seq![f2], fi, ps);
            assert(children(n) =~= seq![f1] + seq![f2]);
        },
        Node::When(_, f1, f2) => {
            lemma_shows_list(f1@, fi, ps);
            lemma_shows_opt(f2, fi, ps);
            lemma_shows_join(show_list(f1@, fi, ps), f1@, show_opt(f2, fi, ps), opt_nodes(f2), fi, ps);
            assert(children(n) =~= f1@ + opt_nodes(f2));
        },
        Node::While(_, f1, f2) => {
            lemma_shows_child(f1, fi, ps);
            lemma_shows_opt(f2, fi, ps);
            lemma_shows_join(show_child(f1, fi, ps), seq![f1], show_opt(f2, fi, ps), opt_nodes(f2), fi, ps);
            assert(children(n) =~= seq![f1] + opt_nodes(f2));
        },
        Node::WhilePost(_, f1, f2) => {
            lemma_shows_child(f1, fi, ps);
            lemma_shows_child(f2, fi, ps);
            lemma_shows_join(show_child(f1, fi, ps), seq![f1], show_child(f2, fi, ps), seq![f2], fi, ps);
            assert(children(n) =~= seq![f1] + seq![f2]);
        },
        Node::XString(_, f1) => {
            lemma_shows_list(f1@, fi, ps);
            assert(children(n) =~= f1@);
        },
        Node::Yield(_, f1) => {
            lemma_shows_list(f1@, fi, ps);
            assert(children(n) =~= f1@);
        },
        Node::ZSuper(_) => {
            assert(children(n) =~= Seq::<Rc<Node>>::empty());
        },
    }
}

/// A node is printed with each of its child nodes one level deeper, in
/// the order of the node's fields, one after the other: what `sexp` and
/// `to_sexp` write holds the printed child nodes in that order.
pub proof fn lemma_children_printed_in_order(n: Node, indent: nat, ps: bool)
    ensures
        shows_in_order(show_node(n, indent, ps), children(n), indent + 1, ps),
{
    let k = children(n);
    lemma_fields_in_order(n, indent + 1, ps);
    let pre = spaces(2 * indent) + seq!['('] + node_name(n);
    lemma_shows_gap(pre, show_fields(n, indent + 1, ps), k, indent + 1, ps);
    lemma_shows_join(pre + show_fields(n, indent + 1, ps), k, seq![')'], Seq::<Rc<Node>>::empty(), indent + 1, ps);
    assert(k + Seq::<Rc<Node>>::empty() =~= k);
}

} // verus!
