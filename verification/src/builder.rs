//! Builds syntax tree nodes from the tokens and subtrees that the parser
//! hands over, one grammar production at a time.

use std::rc::Rc;
use vstd::prelude::*;
use crate::ast::{join_locs, Id, Loc, Node, SourceFile};
use crate::ffi::{Driver, Token};
use crate::text::{concat, str_eq, chars_of, string_of};

verus! {

broadcast use vstd::string::group_string_axioms;

/// Builds nodes for the parser of one file.
pub struct Builder {
    pub driver: Driver,
    pub emit_file_vars_as_literals: bool,
    pub cookie: usize,
}

/// The location of `n`, a node that must be present.
pub open spec fn nloc(n: Option<Rc<Node>>) -> Loc {
    n->0.spec_loc()
}

/// The first location joined with the last one of `nodes`.
pub open spec fn join_exprs_loc(nodes: Seq<Rc<Node>>) -> Loc {
    join_locs(nodes[0].spec_loc(), nodes.last().spec_loc())
}

/// Whether a string of parts is a single literal (`dstr` or `str`) that
/// stands for the whole string.
pub open spec fn collapses(parts: Seq<Rc<Node>>) -> bool {
    parts.len() == 1 && (*parts[0] is DString || *parts[0] is String)
}

/// The method call a dot token selects: `&.` calls only on non-nil
/// receivers.
pub open spec fn is_csend_dot(dot: Option<Token>) -> bool {
    dot is Some && dot->0.text@ == "&."@
}

/// `cond` with ranges turned into flip-flops and regexps into matches
/// against the current line, through `begin`, `and` and `or`: the rewriting
/// that a condition of `if` and `?:` undergoes.
pub open spec fn checked_condition(cond: Rc<Node>, r: Rc<Node>) -> bool
    decreases cond,
{
    match *cond {
        Node::Begin(loc, stmts) => if stmts@.len() == 1 {
            &&& *r matches Node::Begin(l, v)
            &&& l == loc
            &&& v@.len() == 1
            &&& checked_condition(stmts@[0], v@[0])
        } else {
            r == cond
        },
        Node::And(loc, a, b) => {
            &&& *r matches Node::And(l, x, y)
            &&& l == loc
            &&& checked_condition(a, x)
            &&& checked_condition(b, y)
        },
        Node::Or(loc, a, b) => {
            &&& *r matches Node::Or(l, x, y)
            &&& l == loc
            &&& checked_condition(a, x)
            &&& checked_condition(b, y)
        },
        Node::IRange(loc, a, b) => {
            &&& *r matches Node::IFlipflop(l, x, y)
            &&& l == loc
            &&& checked_condition(a, x)
            &&& checked_condition(b, y)
        },
        Node::ERange(loc, a, b) => {
            &&& *r matches Node::EFlipflop(l, x, y)
            &&& l == loc
            &&& checked_condition(a, x)
            &&& checked_condition(b, y)
        },
        Node::Regexp(loc, _, _) => r == Rc::new(Node::MatchCurLine(loc, cond)),
        _ => r == cond,
    }
}

fn collapse_string_parts(parts: &Vec<Rc<Node>>) -> (r: bool)
    ensures
        r == collapses(parts@),
{
    if parts.len() == 1 {
        match &*parts[0] {
            Node::DString(_, _) => true,
            Node::String(_, _) => true,
            _ => false,
        }
    } else {
        false
    }
}

fn clone_nodes(v: &Vec<Rc<Node>>) -> (r: Vec<Rc<Node>>)
    ensures
        r@ == v@,
{
    let mut r: Vec<Rc<Node>> = Vec::new();
    let mut i: usize = 0;
    while i < v.len()
        invariant
            i <= v@.len(),
            r@ == v@.take(i as int),
        decreases v@.len() - i,
    {
        r.push(Rc::clone(&v[i]));
        i = i + 1;
        assert(r@ == v@.take(i as int));
    }
    assert(v@.take(v@.len() as int) == v@);
    r
}

fn check_condition(cond: Rc<Node>) -> (r: Rc<Node>)
    ensures
        checked_condition(cond, r),
    decreases cond,
{
    match &*cond {
        Node::Begin(loc, stmts) => {
            if stmts.len() == 1 {
                let inner = check_condition(Rc::clone(&stmts[0]));
                let mut v: Vec<Rc<Node>> = Vec::new();
                v.push(inner);
                Rc::new(Node::Begin(loc.clone(), v))
            } else {
                Rc::clone(&cond)
            }
        },
        Node::And(loc, a, b) =>
            Rc::new(Node::And(loc.clone(), check_condition(Rc::clone(a)), check_condition(Rc::clone(b)))),
        Node::Or(loc, a, b) =>
            Rc::new(Node::Or(loc.clone(), check_condition(Rc::clone(a)), check_condition(Rc::clone(b)))),
        Node::IRange(loc, a, b) =>
            Rc::new(Node::IFlipflop(loc.clone(), check_condition(Rc::clone(a)), check_condition(Rc::clone(b)))),
        Node::ERange(loc, a, b) =>
            Rc::new(Node::EFlipflop(loc.clone(), check_condition(Rc::clone(a)), check_condition(Rc::clone(b)))),
        Node::Regexp(loc, _, _) =>
            Rc::new(Node::MatchCurLine(loc.clone(), Rc::clone(&cond))),
        _ => Rc::clone(&cond),
    }
}

fn clone_opt(o: &Option<Rc<Node>>) -> (r: Option<Rc<Node>>)
    ensures
        r == *o,
{
    match o {
        Some(n) => Some(Rc::clone(n)),
        None => None,
    }
}

fn join_exprs(exprs: &Vec<Rc<Node>>) -> (r: Loc)
    requires
        exprs@.len() > 0,
    ensures
        r == join_exprs_loc(exprs@),
{
    let a = &exprs[0];
    let b = &exprs[exprs.len() - 1];
    a.loc().join(b.loc())
}

enum CallType {
    Send,
    CSend,
}

fn call_type_for_dot(dot: &Option<Token>) -> (r: CallType)
    ensures
        (r is CSend) == is_csend_dot(*dot),
{
    match dot {
        Some(dot) => {
            if str_eq(dot.text.as_str(), "&.") {
                CallType::CSend
            } else {
                CallType::Send
            }
        },
        None => CallType::Send,
    }
}


impl Builder {
    /// The file being parsed.
    pub open spec fn file(&self) -> Rc<SourceFile> {
        self.driver.current_file
    }

    /// The location of token `t`, which must be present.
    pub open spec fn tl(&self, t: Option<Token>) -> Loc {
        Loc { file: self.file(), begin_pos: t->0.begin, end_pos: t->0.end }
    }

    /// The location from token `a` to token `b`.
    pub open spec fn tj(&self, a: Option<Token>, b: Option<Token>) -> Loc {
        join_locs(self.tl(a), self.tl(b))
    }

    /// The identifier that token `t` spells, at its location.
    pub open spec fn tid(&self, t: Option<Token>) -> Id {
        Id(self.tl(t), t->0.text)
    }

    /// The location of a delimited collection: from the opening to the
    /// closing token when there are delimiters, else from the first to the
    /// last element, and none for an empty undelimited collection.
    pub open spec fn collection_loc(&self, begin: Option<Token>, elements: Seq<Rc<Node>>, end: Option<Token>) -> Option<Loc> {
        if begin is Some {
            Some(self.tj(begin, end))
        } else if elements.len() == 0 {
            None
        } else {
            Some(join_exprs_loc(elements))
        }
    }

    /// Whether a collection has a location: it is delimited or not empty.
    pub open spec fn has_collection_loc(&self, begin: Option<Token>, elements: Seq<Rc<Node>>, end: Option<Token>) -> bool {
        &&& begin is Some <==> end is Some
        &&& (begin is Some || elements.len() > 0)
    }

    /// The location of a keyword with optional operands.
    pub open spec fn keyword_loc(&self, keyword: Option<Token>, lparen: Option<Token>, args: Seq<Rc<Node>>, rparen: Option<Token>) -> Loc {
        match self.collection_loc(lparen, args, rparen) {
            Some(l) => join_locs(self.tl(keyword), l),
            None => self.tl(keyword),
        }
    }

    fn current_file(&self) -> (r: Rc<SourceFile>)
        ensures
            r == self.file(),
    {
        Rc::clone(&self.driver.current_file)
    }

    fn tok_loc(&self, t: &Option<Token>) -> (r: Loc)
        requires
            t is Some,
        ensures
            r == self.tl(*t),
    {
        let tok = t.as_ref().unwrap();
        tok.location(self.current_file())
    }

    fn tok_split(&self, t: Option<Token>) -> (r: (Loc, String))
        requires
            t is Some,
        ensures
            r.0 == self.tl(t),
            r.1 == t->0.text,
    {
        let loc = self.tok_loc(&t);
        let tok = t.unwrap();
        (loc, tok.text)
    }

    fn tok_id(&self, t: Option<Token>) -> (r: Id)
        requires
            t is Some,
        ensures
            r == self.tid(t),
    {
        let (loc, name) = self.tok_split(t);
        Id(loc, name)
    }

    fn tok_join(&self, a: &Option<Token>, b: &Option<Token>) -> (r: Loc)
        requires
            a is Some,
            b is Some,
        ensures
            r == self.tj(*a, *b),
    {
        self.tok_loc(a).join(&self.tok_loc(b))
    }

    fn collection_map(&self, begin: Option<Token>, elements: &Vec<Rc<Node>>, end: Option<Token>) -> (r: Option<Loc>)
        requires
            begin is Some <==> end is Some,
        ensures
            r == self.collection_loc(begin, elements@, end),
    {
        if begin.is_some() {
            Some(self.tok_join(&begin, &end))
        } else {
            if elements.len() == 0 {
                None
            } else {
                Some(join_exprs(elements))
            }
        }
    }

    fn keyword_operands_loc(&self, keyword: &Option<Token>, lparen: Option<Token>, args: &Vec<Rc<Node>>, rparen: Option<Token>) -> (r: Loc)
        requires
            keyword is Some,
            lparen is Some <==> rparen is Some,
        ensures
            r == self.keyword_loc(*keyword, lparen, args@, rparen),
    {
        let mut loc = self.tok_loc(keyword);
        if let Some(operand_loc) = self.collection_map(lparen, args, rparen) {
            loc = loc.join(&operand_loc);
        }
        loc
    }

    /// An identifier becomes a local variable read when it has been declared
    /// as one, and a call of a method without receiver or arguments
    /// otherwise; other nodes are returned as they are.
    pub fn accessible(&self, node: Option<Rc<Node>>) -> (r: Rc<Node>)
        requires
            node is Some,
        ensures
            match *node->0 {
                Node::Ident(loc, name) => if self.driver.env().contains(name@) {
                    *r matches Node::Lvar(l, n) && l == loc && n@ == name@
                } else {
                    *r matches Node::Send(l, None, Id(il, n), args)
                        && l == loc && il == loc && n@ == name@ && args@.len() == 0
                },
                _ => r == node->0,
            },
    {
        let node = node.unwrap();
        match &*node {
            Node::Ident(loc, name) => {
                if self.driver.is_declared(name.as_str()) {
                    Rc::new(Node::Lvar(loc.clone(), name.clone()))
                } else {
                    Rc::new(Node::Send(loc.clone(), None, Id(loc.clone(), name.clone()), Vec::new()))
                }
            },
            _ => Rc::clone(&node),
        }
    }

    pub fn alias(&self, alias: Option<Token>, to: Option<Rc<Node>>, from: Option<Rc<Node>>) -> (r: Node)
        requires
            alias is Some,
            to is Some,
            from is Some,
        ensures
            r == Node::Alias(join_locs(self.tl(alias), nloc(from)), to->0, from->0),
    {
        let to = to.unwrap();
        let from = from.unwrap();
        Node::Alias(self.tok_loc(&alias).join(from.loc()), to, from)
    }

    pub fn arg(&self, name: Option<Token>) -> (r: Node)
        requires
            name is Some,
        ensures
            r == Node::Arg(self.tl(name), name->0.text),
    {
        let (loc, id) = self.tok_split(name);
        Node::Arg(loc, id)
    }

    /// An argument list. With `check_args`, every argument must be an
    /// argument node (possibly typed, or a destructuring of argument nodes).
    pub fn args(&self, begin: Option<Token>, args: Vec<Rc<Node>>, end: Option<Token>, check_args: bool) -> (r: Node)
        requires
            begin is Some <==> end is Some,
            check_args ==> forall|i: int| 0 <= i < args@.len() ==> is_arg_node(#[trigger] args@[i]),
        ensures
            r == Node::Args(
                match self.collection_loc(begin, args@, end) {
                    Some(l) => l,
                    None => Loc { file: self.file(), begin_pos: 0, end_pos: 0 },
                },
                args,
            ),
    {
        if check_args {
            check_duplicate_args(&args);
        }
        let loc = match self.collection_map(begin, &args, end) {
            Some(l) => l,
            None => Loc { file: self.current_file(), begin_pos: 0, end_pos: 0 },
        };
        Node::Args(loc, args)
    }

    pub fn array(&self, begin: Option<Token>, elements: Vec<Rc<Node>>, end: Option<Token>) -> (r: Node)
        requires
            self.has_collection_loc(begin, elements@, end),
        ensures
            r == Node::Array(self.collection_loc(begin, elements@, end)->0, elements),
    {
        let loc = self.collection_map(begin, &elements, end).unwrap();
        Node::Array(loc, elements)
    }

    /// Completes an assignment: a call gets the value as its last argument,
    /// a variable or constant target becomes an assignment.
    pub fn assign(&self, lhs: Option<Rc<Node>>, _eql: Option<Token>, rhs: Option<Rc<Node>>) -> (r: Node)
        requires
            lhs is Some,
            rhs is Some,
            is_assign_target(*lhs->0),
        ensures
            ({
                let loc = join_locs(nloc(lhs), nloc(rhs));
                let rhs = rhs->0;
                match *lhs->0 {
                    Node::Send(_, recv, mid, args) => r matches Node::Send(l, rc, m, a)
                        && l == loc && rc == recv && m == mid && a@ == args@.push(rhs),
                    Node::CSend(_, recv, mid, args) => r matches Node::CSend(l, rc, m, a)
                        && l == loc && rc == recv && m == mid && a@ == args@.push(rhs),
                    Node::LvarLhs(_, name) => r == Node::LvarAsgn(loc, name, rhs),
                    Node::ConstLhs(_, scope, name) => r == Node::ConstAsgn(loc, scope, name, rhs),
                    Node::CvarLhs(_, id) => r == Node::CvarAsgn(loc, id, rhs),
                    Node::IvarLhs(_, id) => r == Node::IvarAsgn(loc, id, rhs),
                    Node::GvarLhs(_, id) => r == Node::GvarAsgn(loc, id, rhs),
                    _ => false,
                }
            }),
    {
        let lhs = lhs.unwrap();
        let rhs = rhs.unwrap();
        let asgn_loc = lhs.loc().join(rhs.loc());
        match &*lhs {
            Node::Send(_, recv, mid, args) => {
                let mut args = clone_nodes(args);
                args.push(rhs);
                Node::Send(asgn_loc, clone_opt(recv), mid.clone(), args)
            },
            Node::CSend(_, recv, mid, args) => {
                let mut args = clone_nodes(args);
                args.push(rhs);
                Node::CSend(asgn_loc, clone_opt(recv), mid.clone(), args)
            },
            Node::LvarLhs(_, name) => Node::LvarAsgn(asgn_loc, name.clone(), rhs),
            Node::ConstLhs(_, scope, name) => Node::ConstAsgn(asgn_loc, clone_opt(scope), name.clone(), rhs),
            Node::CvarLhs(_, id) => Node::CvarAsgn(asgn_loc, id.clone(), rhs),
            Node::IvarLhs(_, id) => Node::IvarAsgn(asgn_loc, id.clone(), rhs),
            Node::GvarLhs(_, id) => Node::GvarAsgn(asgn_loc, id.clone(), rhs),
            _ => {
                assert(false);
                Node::Nil(asgn_loc)
            },
        }
    }

    /// Turns a variable or constant into an assignment target; an
    /// identifier is declared as a local variable on the way.
    pub fn assignable(&mut self, node: Option<Rc<Node>>) -> (r: Node)
        requires
            node is Some,
            is_assignable(*node->0),
        ensures
            final(self).file() == old(self).file(),
            final(self).emit_file_vars_as_literals == old(self).emit_file_vars_as_literals,
            final(self).driver.diags() == old(self).driver.diags(),
            final(self).driver.comment_seq() == old(self).driver.comment_seq(),
            match *node->0 {
                Node::Ident(loc, name) => r == Node::LvarLhs(loc, Id(loc, name))
                    && final(self).driver.env() == old(self).driver.env().push(name@),
                Node::Ivar(loc, name) => r == Node::IvarLhs(loc, Id(loc, name))
                    && final(self).driver.env() == old(self).driver.env(),
                Node::Const(loc, scope, name) => r == Node::ConstLhs(loc, scope, name)
                    && final(self).driver.env() == old(self).driver.env(),
                Node::Cvar(loc, name) => r == Node::CvarLhs(loc, Id(loc, name))
                    && final(self).driver.env() == old(self).driver.env(),
                Node::Gvar(loc, name) => r == Node::GvarLhs(loc, Id(loc, name))
                    && final(self).driver.env() == old(self).driver.env(),
                _ => false,
            },
    {
        let node = node.unwrap();
        match &*node {
            Node::Ident(loc, name) => {
                self.driver.declare(name.as_str());
                Node::LvarLhs(loc.clone(), Id(loc.clone(), name.clone()))
            },
            Node::Ivar(loc, name) => Node::IvarLhs(loc.clone(), Id(loc.clone(), name.clone())),
            Node::Const(loc, scope, name) => Node::ConstLhs(loc.clone(), clone_opt(scope), name.clone()),
            Node::Cvar(loc, name) => Node::CvarLhs(loc.clone(), Id(loc.clone(), name.clone())),
            Node::Gvar(loc, name) => Node::GvarLhs(loc.clone(), Id(loc.clone(), name.clone())),
            _ => {
                assert(false);
                Node::Nil(node.loc().clone())
            },
        }
    }

    pub fn associate(&self, begin: Option<Token>, pairs: Vec<Rc<Node>>, end: Option<Token>) -> (r: Node)
        requires
            self.has_collection_loc(begin, pairs@, end),
        ensures
            r == Node::Hash(self.collection_loc(begin, pairs@, end)->0, pairs),
    {
        let loc = self.collection_map(begin, &pairs, end).unwrap();
        Node::Hash(loc, pairs)
    }

    /// The incomplete call `recv.sel=` of an attribute assignment; the value
    /// is added by `assign`.
    pub fn attr_asgn(&self, receiver: Option<Rc<Node>>, dot: Option<Token>, selector: Option<Token>) -> (r: Node)
        requires
            receiver is Some,
            selector is Some,
        ensures
            ({
                let loc = join_locs(nloc(receiver), self.tl(selector));
                if is_csend_dot(dot) {
                    r matches Node::CSend(l, Some(rc), Id(sl, name), args) && l == loc && rc == receiver->0
                        && sl == self.tl(selector) && name@ == selector->0.text@ + "="@ && args@.len() == 0
                } else {
                    r matches Node::Send(l, Some(rc), Id(sl, name), args) && l == loc && rc == receiver->0
                        && sl == self.tl(selector) && name@ == selector->0.text@ + "="@ && args@.len() == 0
                }
            }),
    {
        let recv = receiver.unwrap();
        let (sel_loc, sel_name) = self.tok_split(selector);
        let selector = Id(sel_loc, concat(sel_name.as_str(), "="));
        let loc = recv.loc().join(&selector.0);
        match call_type_for_dot(&dot) {
            CallType::CSend => Node::CSend(loc, Some(recv), selector, Vec::new()),
            CallType::Send => Node::Send(loc, Some(recv), selector, Vec::new()),
        }
    }

    pub fn back_ref(&self, tok: Option<Token>) -> (r: Node)
        requires
            tok is Some,
        ensures
            r == Node::Backref(self.tl(tok), tok->0.text),
    {
        let (loc, name) = self.tok_split(tok);
        Node::Backref(loc, name)
    }

    /// A parenthesized or bare body. A body that already is a `begin` or a
    /// destructuring stays as it is; anything else is wrapped in a `begin`.
    pub fn begin(&self, begin: Option<Token>, body: Option<Rc<Node>>, end: Option<Token>) -> (r: Rc<Node>)
        requires
            begin is Some <==> end is Some,
            begin is None ==> body is Some,
        ensures
            ({
                let loc = if begin is Some { self.tj(begin, end) } else { nloc(body) };
                match body {
                    None => *r matches Node::Begin(l, v) && l == loc && v@.len() == 0,
                    Some(b) => if *b is Begin || *b is Mlhs {
                        r == b
                    } else {
                        *r matches Node::Begin(l, v) && l == loc && v@ == seq![b]
                    },
                }
            }),
    {
        let loc = match begin {
            Some(_) => self.tok_join(&begin, &end),
            None => body.as_ref().unwrap().loc().clone(),
        };
        match body {
            None => Rc::new(Node::Begin(loc, Vec::new())),
            Some(boxed_body) => {
                match &*boxed_body {
                    Node::Begin(_, _) => Rc::clone(&boxed_body),
                    Node::Mlhs(_, _) => Rc::clone(&boxed_body),
                    _ => {
                        let mut v: Vec<Rc<Node>> = Vec::new();
                        v.push(boxed_body);
                        Rc::new(Node::Begin(loc, v))
                    },
                }
            },
        }
    }

    /// `c` is a body with its `rescue` clauses and `else` branch attached:
    /// with rescue clauses the body becomes a `rescue` node; an `else`
    /// without them is appended to the statements of the body.
    pub open spec fn rescued(&self, body: Option<Rc<Node>>, rescue_bodies: Seq<Rc<Node>>, else_tok: Option<Token>, else_: Option<Rc<Node>>, c: Option<Rc<Node>>) -> bool {
        if rescue_bodies.len() > 0 {
            let tail = if else_ is Some { nloc(else_) } else { rescue_bodies.last().spec_loc() };
            let loc = if body is Some { join_locs(nloc(body), tail) } else { tail };
            &&& c matches Some(n)
            &&& *n matches Node::Rescue(l, b, rbs, e)
            &&& l == loc && b == body && rbs@ == rescue_bodies && e == else_
        } else if else_ is Some {
            let prefix: Seq<Rc<Node>> = match body {
                Some(n) => match *n {
                    Node::Begin(_, bs) => bs@,
                    _ => seq![n],
                },
                None => seq![],
            };
            let el = join_locs(self.tl(else_tok), nloc(else_));
            let loc = if prefix.len() > 0 { join_locs(prefix[0].spec_loc(), el) } else { join_locs(el, el) };
            &&& c matches Some(n)
            &&& *n matches Node::Begin(l, v)
            &&& l == loc
            &&& v@.len() == prefix.len() + 1
            &&& forall|i: int| 0 <= i < prefix.len() ==> #[trigger] v@[i] == prefix[i]
            &&& (*v@.last() matches Node::Begin(bl, bv) && bl == el && bv@ == seq![else_->0])
        } else {
            c == body
        }
    }

    /// The body of a `begin`, `def` or block with its `rescue` clauses,
    /// `else` branch and `ensure` branch attached.
    pub fn begin_body(&self, body: Option<Rc<Node>>, rescue_bodies: Vec<Rc<Node>>, else_tok: Option<Token>, else_: Option<Rc<Node>>, ensure_tok: Option<Token>, ensure: Option<Rc<Node>>) -> (r: Option<Rc<Node>>)
        requires
            rescue_bodies@.len() == 0 && else_ is Some ==> else_tok is Some,
            ensure is Some && body is None && rescue_bodies@.len() == 0 && else_ is None ==> ensure_tok is Some,
        ensures
            ensure is None ==> self.rescued(body, rescue_bodies@, else_tok, else_, r),
            ensure is Some ==> ({
                &&& r matches Some(n)
                &&& *n matches Node::Ensure(l, c, e)
                &&& self.rescued(body, rescue_bodies@, else_tok, else_, c)
                &&& e == ensure->0
                &&& l == (if c is Some { join_locs(nloc(c), nloc(ensure)) } else { join_locs(self.tl(ensure_tok), nloc(ensure)) })
            }),
    {
        let ghost body0 = body;
        let ghost rb0 = rescue_bodies@;
        let mut compound_stmt = body;
        if rescue_bodies.len() > 0 {
            match else_ {
                Some(else_body) => {
                    let loc = match &compound_stmt {
                        Some(b) => b.loc().join(else_body.loc()),
                        None => else_body.loc().clone(),
                    };
                    compound_stmt = Some(Rc::new(Node::Rescue(loc, compound_stmt, rescue_bodies, Some(else_body))));
                },
                None => {
                    let loc = {
                        let last = rescue_bodies[rescue_bodies.len() - 1].loc();
                        match &compound_stmt {
                            Some(b) => b.loc().join(last),
                            None => last.clone(),
                        }
                    };
                    compound_stmt = Some(Rc::new(Node::Rescue(loc, compound_stmt, rescue_bodies, None)));
                },
            }
        } else if let Some(else_body) = else_ {
            let mut stmts: Vec<Rc<Node>> = match &compound_stmt {
                Some(node) => match &**node {
                    Node::Begin(_, begin_stmts) => clone_nodes(begin_stmts),
                    _ => {
                        let mut v: Vec<Rc<Node>> = Vec::new();
                        v.push(Rc::clone(node));
                        v
                    },
                },
                None => Vec::new(),
            };
            let ghost prefix = stmts@;
            let else_loc = self.tok_loc(&else_tok).join(else_body.loc());
            let mut inner: Vec<Rc<Node>> = Vec::new();
            inner.push(else_body);
            stmts.push(Rc::new(Node::Begin(else_loc, inner)));
            assert(stmts@.len() == prefix.len() + 1);
            let loc = join_exprs(&stmts);
            compound_stmt = Some(Rc::new(Node::Begin(loc, stmts)));
        }
        if let Some(ensure_box) = ensure {
            let loc = match &compound_stmt {
                Some(c) => c.loc().join(ensure_box.loc()),
                None => self.tok_loc(&ensure_tok).join(ensure_box.loc()),
            };
            compound_stmt = Some(Rc::new(Node::Ensure(loc, compound_stmt, ensure_box)));
        }
        compound_stmt
    }

    /// `begin ... end`: the statements of the body become those of the
    /// `kwbegin`.
    pub fn begin_keyword(&self, begin: Option<Token>, body: Option<Rc<Node>>, end: Option<Token>) -> (r: Node)
        requires
            begin is Some,
            end is Some,
        ensures
            match body {
                Some(node) => match *node {
                    Node::Begin(_, beg) => r matches Node::Kwbegin(l, v) && l == self.tj(begin, end) && v@ == beg@,
                    _ => r matches Node::Kwbegin(l, v) && l == self.tj(begin, end) && v@ == seq![node],
                },
                None => r matches Node::Kwbegin(l, v) && l == self.tj(begin, end) && v@.len() == 0,
            },
    {
        let tokens = self.tok_join(&begin, &end);
        match body {
            Some(node) => {
                match &*node {
                    Node::Begin(_, beg) => Node::Kwbegin(tokens, clone_nodes(beg)),
                    _ => {
                        let mut v: Vec<Rc<Node>> = Vec::new();
                        v.push(Rc::clone(&node));
                        Node::Kwbegin(tokens, v)
                    },
                }
            },
            None => Node::Kwbegin(tokens, Vec::new()),
        }
    }

    /// `recv op arg` is the call of method `op` on `recv` with `arg`.
    pub fn binary_op(&self, recv: Option<Rc<Node>>, oper: Option<Token>, arg: Option<Rc<Node>>) -> (r: Node)
        requires
            recv is Some,
            oper is Some,
            arg is Some,
        ensures
            r matches Node::Send(l, Some(rc), id, args) && l == join_locs(nloc(recv), nloc(arg))
                && rc == recv->0 && id == self.tid(oper) && args@ == seq![arg->0],
    {
        let recv = recv.unwrap();
        let arg = arg.unwrap();
        let loc = recv.loc().join(arg.loc());
        let id = self.tok_id(oper);
        let mut args: Vec<Rc<Node>> = Vec::new();
        args.push(arg);
        Node::Send(loc, Some(recv), id, args)
    }

    /// A method call with a block.
    pub fn block(&self, method_call: Option<Rc<Node>>, _begin: Option<Token>, args: Option<Rc<Node>>, body: Option<Rc<Node>>, end: Option<Token>) -> (r: Node)
        requires
            method_call is Some,
            args is Some,
            end is Some,
            ({
                let mc = *method_call->0;
                mc is Send || mc is CSend || mc is Super || mc is ZSuper || mc is Lambda
            }),
        ensures
            r == Node::Block(join_locs(nloc(method_call), self.tl(end)), method_call->0, args->0, body),
    {
        let method_call = method_call.unwrap();
        let args = args.unwrap();
        let loc = method_call.loc().join(&self.tok_loc(&end));
        Node::Block(loc, method_call, args, body)
    }

    pub fn block_pass(&self, amper: Option<Token>, arg: Option<Rc<Node>>) -> (r: Node)
        requires
            amper is Some,
            arg is Some,
        ensures
            r == Node::BlockPass(join_locs(self.tl(amper), nloc(arg)), arg->0),
    {
        let arg = arg.unwrap();
        Node::BlockPass(self.tok_loc(&amper).join(arg.loc()), arg)
    }

    pub fn blockarg(&self, amper: Option<Token>, name: Option<Token>) -> (r: Node)
        requires
            amper is Some,
        ensures
            r == match name {
                Some(_) => Node::Blockarg(join_locs(self.tl(amper), self.tl(name)), Some(self.tid(name))),
                None => Node::Blockarg(self.tl(amper), None),
            },
    {
        match name {
            Some(_) => {
                let id = self.tok_id(name);
                Node::Blockarg(self.tok_loc(&amper).join(&id.0), Some(id))
            },
            None => Node::Blockarg(self.tok_loc(&amper), None),
        }
    }

    pub fn call_lambda(&self, lambda: Option<Token>) -> (r: Node)
        requires
            lambda is Some,
        ensures
            r == Node::Lambda(self.tl(lambda)),
    {
        Node::Lambda(self.tok_loc(&lambda))
    }

    /// The location of a method call: from the receiver (or the selector) to
    /// the closing parenthesis, the last argument, or the selector.
    pub open spec fn call_loc(&self, recv: Option<Rc<Node>>, dot: Option<Token>, selector: Option<Token>, args: Seq<Rc<Node>>, rparen: Option<Token>) -> Loc {
        let selector_loc = if selector is Some { self.tl(selector) } else { self.tl(dot) };
        let loc_start = match recv {
            Some(node) => node.spec_loc(),
            None => selector_loc,
        };
        if rparen is Some {
            join_locs(loc_start, self.tl(rparen))
        } else if args.len() > 0 {
            join_locs(loc_start, args.last().spec_loc())
        } else {
            join_locs(loc_start, selector_loc)
        }
    }

    /// A method call; `recv.(args)` without a selector calls `call`.
    pub fn call_method(&self, recv: Option<Rc<Node>>, dot: Option<Token>, selector: Option<Token>, _lparen: Option<Token>, args: Vec<Rc<Node>>, rparen: Option<Token>) -> (r: Node)
        requires
            selector is Some || dot is Some,
        ensures
            ({
                let loc = self.call_loc(recv, dot, selector, args@, rparen);
                let id_ok = |id: Id| if selector is Some {
                    id == self.tid(selector)
                } else {
                    id.0 == self.tl(dot) && id.1@ == "call"@
                };
                if is_csend_dot(dot) {
                    r matches Node::CSend(l, rc, id, a) && l == loc && rc == recv && id_ok(id) && a == args
                } else {
                    r matches Node::Send(l, rc, id, a) && l == loc && rc == recv && id_ok(id) && a == args
                }
            }),
    {
        let loc = {
            let selector_loc = match selector {
                Some(_) => self.tok_loc(&selector),
                None => self.tok_loc(&dot),
            };
            let loc_start = match &recv {
                Some(node) => node.loc().clone(),
                None => selector_loc.clone(),
            };
            if rparen.is_some() {
                loc_start.join(&self.tok_loc(&rparen))
            } else if args.len() > 0 {
                loc_start.join(args[args.len() - 1].loc())
            } else {
                loc_start.join(&selector_loc)
            }
        };
        let selector = match selector {
            Some(sel) => self.tok_id(Some(sel)),
            None => Id(self.tok_loc(&dot), "call".to_owned()),
        };
        match call_type_for_dot(&dot) {
            CallType::CSend => Node::CSend(loc, recv, selector, args),
            CallType::Send => Node::Send(loc, recv, selector, args),
        }
    }

    pub fn case_(&self, case_: Option<Token>, expr: Option<Rc<Node>>, when_bodies: Vec<Rc<Node>>, _else_tok: Option<Token>, else_body: Option<Rc<Node>>, end: Option<Token>) -> (r: Node)
        requires
            case_ is Some,
            end is Some,
        ensures
            r == Node::Case(self.tj(case_, end), expr, when_bodies, else_body),
    {
        Node::Case(self.tok_join(&case_, &end), expr, when_bodies, else_body)
    }

    /// A character literal `?c` is a string.
    pub fn character(&self, char_: Option<Token>) -> (r: Node)
        requires
            char_ is Some,
        ensures
            r == Node::String(self.tl(char_), char_->0.text),
    {
        let (loc, id) = self.tok_split(char_);
        Node::String(loc, id)
    }

    pub fn complex(&self, tok: Option<Token>) -> (r: Node)
        requires
            tok is Some,
        ensures
            r == Node::Complex(self.tl(tok), tok->0.text),
    {
        let (loc, id) = self.tok_split(tok);
        Node::Complex(loc, id)
    }

    /// A statement list: nothing for no statements, the statement itself
    /// for one, and a `begin` for more.
    pub fn compstmt(&self, nodes: Vec<Rc<Node>>) -> (r: Option<Rc<Node>>)
        ensures
            nodes@.len() == 0 ==> r is None,
            nodes@.len() == 1 ==> r == Some(nodes@[0]),
            nodes@.len() > 1 ==> (r matches Some(b) && *b == Node::Begin(join_exprs_loc(nodes@), nodes)),
    {
        let mut nodes = nodes;
        if nodes.len() == 0 {
            None
        } else if nodes.len() == 1 {
            Some(nodes.remove(0))
        } else {
            let loc = join_exprs(&nodes);
            Some(Rc::new(Node::Begin(loc, nodes)))
        }
    }

    /// The location of an `if`: the keyword joined with every part present.
    pub open spec fn condition_loc(&self, cond_tok: Option<Token>, cond: Rc<Node>, then: Option<Token>, if_true: Option<Rc<Node>>, else_: Option<Token>, if_false: Option<Rc<Node>>, end: Option<Token>) -> Loc {
        let l1 = join_locs(self.tl(cond_tok), cond.spec_loc());
        let l2 = if then is Some { join_locs(l1, self.tl(then)) } else { l1 };
        let l3 = if if_true is Some { join_locs(l2, nloc(if_true)) } else { l2 };
        let l4 = if else_ is Some { join_locs(l3, self.tl(else_)) } else { l3 };
        let l5 = if if_false is Some { join_locs(l4, nloc(if_false)) } else { l4 };
        if end is Some { join_locs(l5, self.tl(end)) } else { l5 }
    }

    pub fn condition(&self, cond_tok: Option<Token>, cond: Option<Rc<Node>>, then: Option<Token>, if_true: Option<Rc<Node>>, else_: Option<Token>, if_false: Option<Rc<Node>>, end: Option<Token>) -> (r: Node)
        requires
            cond_tok is Some,
            cond is Some,
        ensures
            r matches Node::If(l, c, t, f) && l == self.condition_loc(cond_tok, cond->0, then, if_true, else_, if_false, end)
                && checked_condition(cond->0, c) && t == if_true && f == if_false,
    {
        let cond = cond.unwrap();
        let mut loc = self.tok_loc(&cond_tok).join(cond.loc());
        if then.is_some() {
            loc = loc.join(&self.tok_loc(&then));
        }
        if let Some(true_branch) = &if_true {
            loc = loc.join(true_branch.loc());
        }
        if else_.is_some() {
            loc = loc.join(&self.tok_loc(&else_));
        }
        if let Some(false_branch) = &if_false {
            loc = loc.join(false_branch.loc());
        }
        if end.is_some() {
            loc = loc.join(&self.tok_loc(&end));
        }
        Node::If(loc, check_condition(cond), if_true, if_false)
    }

    /// `a if cond` and `a unless cond`.
    pub fn condition_mod(&self, if_true: Option<Rc<Node>>, if_false: Option<Rc<Node>>, cond: Option<Rc<Node>>) -> (r: Node)
        requires
            cond is Some,
            if_true is Some || if_false is Some,
        ensures
            r matches Node::If(l, c, t, f)
                && l == join_locs(nloc(cond), if if_true is Some { nloc(if_true) } else { nloc(if_false) })
                && checked_condition(cond->0, c) && t == if_true && f == if_false,
    {
        let cond = cond.unwrap();
        let loc = match &if_true {
            Some(t) => cond.loc().join(t.loc()),
            None => cond.loc().join(if_false.as_ref().unwrap().loc()),
        };
        Node::If(loc, check_condition(cond), if_true, if_false)
    }

    pub fn const_(&self, name: Option<Token>) -> (r: Node)
        requires
            name is Some,
        ensures
            r == Node::Const(self.tl(name), None, self.tid(name)),
    {
        let loc = self.tok_loc(&name);
        Node::Const(loc, None, self.tok_id(name))
    }

    pub fn const_fetch(&self, scope: Option<Rc<Node>>, _colon: Option<Token>, name: Option<Token>) -> (r: Node)
        requires
            scope is Some,
            name is Some,
        ensures
            r == Node::Const(join_locs(nloc(scope), self.tl(name)), scope, self.tid(name)),
    {
        let scope = scope.unwrap();
        let loc = scope.loc().join(&self.tok_loc(&name));
        Node::Const(loc, Some(scope), self.tok_id(name))
    }

    /// `::Name`, a constant looked up from the top level.
    pub fn const_global(&self, colon: Option<Token>, name: Option<Token>) -> (r: Node)
        requires
            colon is Some,
            name is Some,
        ensures
            r == Node::Const(self.tj(colon, name), Some(Rc::new(Node::Cbase(self.tl(colon)))), self.tid(name)),
    {
        let loc = self.tok_join(&colon, &name);
        let cbase = Rc::new(Node::Cbase(self.tok_loc(&colon)));
        Node::Const(loc, Some(cbase), self.tok_id(name))
    }

    pub fn cvar(&self, tok: Option<Token>) -> (r: Node)
        requires
            tok is Some,
        ensures
            r == Node::Cvar(self.tl(tok), tok->0.text),
    {
        let (loc, id) = self.tok_split(tok);
        Node::Cvar(loc, id)
    }

    /// A heredoc with `~`: its literal text loses the common indentation.
    pub fn dedent_string(&self, node: Option<Rc<Node>>, dedent_level: usize) -> (r: Rc<Node>)
        requires
            node is Some,
            dedent_level != 0 ==> (*node->0 is String || *node->0 is DString || *node->0 is XString),
            dedent_level != 0 ==> match *node->0 {
                Node::String(_, v) => 8 * v@.len() + 8 <= usize::MAX,
                Node::DString(_, parts) => forall|i: int| 0 <= i < parts@.len()
                    ==> #[trigger] indent_bound(Dedenter::state_before(dedent_level as int, true, 0, parts@, i).1, *parts@[i]),
                Node::XString(_, parts) => forall|i: int| 0 <= i < parts@.len()
                    ==> #[trigger] indent_bound(Dedenter::state_before(dedent_level as int, true, 0, parts@, i).1, *parts@[i]),
                _ => true,
            },
        ensures
            dedent_level == 0 ==> r == node->0,
            dedent_level != 0 ==> match *node->0 {
                Node::String(l, v) => *r matches Node::String(rl, rv) && rl == l
                    && rv@ == dedent_spec(dedent_level as int, true, 0, v@).0,
                Node::DString(l, parts) => *r matches Node::DString(rl, rp) && rl == l && rp@.len() == parts@.len()
                    && forall|i: int| 0 <= i < parts@.len() ==> dedented_part(dedent_level as int,
                        Dedenter::state_before(dedent_level as int, true, 0, parts@, i), parts@[i], #[trigger] rp@[i]),
                Node::XString(l, parts) => *r matches Node::XString(rl, rp) && rl == l && rp@.len() == parts@.len()
                    && forall|i: int| 0 <= i < parts@.len() ==> dedented_part(dedent_level as int,
                        Dedenter::state_before(dedent_level as int, true, 0, parts@, i), parts@[i], #[trigger] rp@[i]),
                _ => false,
            },
    {
        let node = node.unwrap();
        if dedent_level != 0 {
            let mut dedenter = Dedenter::new(dedent_level);
            match &*node {
                Node::String(loc, val) => Rc::new(Node::String(loc.clone(), dedenter.dedent(val.as_str()))),
                Node::DString(loc, parts) => Rc::new(Node::DString(loc.clone(), Dedenter::dedent_parts(parts, dedenter))),
                Node::XString(loc, parts) => Rc::new(Node::XString(loc.clone(), Dedenter::dedent_parts(parts, dedenter))),
                _ => {
                    assert(false);
                    node
                },
            }
        } else {
            node
        }
    }

    pub fn def_class(&self, class_: Option<Token>, name: Option<Rc<Node>>, _lt: Option<Token>, superclass: Option<Rc<Node>>, body: Option<Rc<Node>>, end_: Option<Token>) -> (r: Node)
        requires
            class_ is Some,
            end_ is Some,
            name is Some,
        ensures
            r == Node::Class(self.tj(class_, end_), name->0, superclass, body),
    {
        Node::Class(self.tok_join(&class_, &end_), name.unwrap(), superclass, body)
    }

    pub fn def_method(&self, def: Option<Token>, name: Option<Token>, args: Option<Rc<Node>>, body: Option<Rc<Node>>, end: Option<Token>) -> (r: Node)
        requires
            def is Some,
            end is Some,
            name is Some,
        ensures
            r == Node::Def(self.tj(def, end), self.tid(name), args, body),
    {
        let loc = self.tok_join(&def, &end);
        Node::Def(loc, self.tok_id(name), args, body)
    }

    pub fn def_module(&self, module: Option<Token>, name: Option<Rc<Node>>, body: Option<Rc<Node>>, end_: Option<Token>) -> (r: Node)
        requires
            module is Some,
            end_ is Some,
            name is Some,
        ensures
            r == Node::Module(self.tj(module, end_), name->0, body),
    {
        Node::Module(self.tok_join(&module, &end_), name.unwrap(), body)
    }

    pub fn def_sclass(&self, class_: Option<Token>, _lshft: Option<Token>, expr: Option<Rc<Node>>, body: Option<Rc<Node>>, end_: Option<Token>) -> (r: Node)
        requires
            class_ is Some,
            end_ is Some,
            expr is Some,
        ensures
            r == Node::SClass(self.tj(class_, end_), expr->0, body),
    {
        Node::SClass(self.tok_join(&class_, &end_), expr.unwrap(), body)
    }

    pub fn def_singleton(&self, def: Option<Token>, definee: Option<Rc<Node>>, _dot: Option<Token>, name: Option<Token>, args: Option<Rc<Node>>, body: Option<Rc<Node>>, end: Option<Token>) -> (r: Node)
        requires
            def is Some,
            end is Some,
            definee is Some,
            name is Some,
        ensures
            r == Node::Defs(self.tj(def, end), definee->0, self.tid(name), args, body),
    {
        let loc = self.tok_join(&def, &end);
        Node::Defs(loc, definee.unwrap(), self.tok_id(name), args, body)
    }

    /// `__ENCODING__`: the constant `Encoding::UTF_8` when file variables
    /// are emitted as literals.
    pub fn encoding_literal(&self, tok: Option<Token>) -> (r: Node)
        requires
            tok is Some,
        ensures
            ({
                let loc = self.tl(tok);
                if self.emit_file_vars_as_literals {
                    &&& r matches Node::Const(l, Some(scope), Id(il, name))
                    &&& l == loc && il == loc && name@ == "UTF_8"@
                    &&& (*scope matches Node::Const(sl, None, Id(sil, sname))
                        && sl == loc && sil == loc && sname@ == "Encoding"@)
                } else {
                    r == Node::EncodingLiteral(loc)
                }
            }),
    {
        if self.emit_file_vars_as_literals {
            let loc = self.tok_loc(&tok);
            let encoding = Rc::new(Node::Const(loc.clone(), None, Id(loc.clone(), "Encoding".to_owned())));
            Node::Const(loc.clone(), Some(encoding), Id(loc, "UTF_8".to_owned()))
        } else {
            Node::EncodingLiteral(self.tok_loc(&tok))
        }
    }

    pub fn false_(&self, tok: Option<Token>) -> (r: Node)
        requires
            tok is Some,
        ensures
            r == Node::False(self.tl(tok)),
    {
        Node::False(self.tok_loc(&tok))
    }

    /// `__FILE__`: the name of the file as a string when file variables are
    /// emitted as literals.
    pub fn file_literal(&self, tok: Option<Token>) -> (r: Node)
        requires
            tok is Some,
        ensures
            if self.emit_file_vars_as_literals {
                r matches Node::String(l, name) && l == self.tl(tok) && name@ == self.file().filename@
            } else {
                r == Node::FileLiteral(self.tl(tok))
            },
    {
        if self.emit_file_vars_as_literals {
            let loc = self.tok_loc(&tok);
            let filename = loc.file.filename().to_owned();
            Node::String(loc, filename)
        } else {
            Node::FileLiteral(self.tok_loc(&tok))
        }
    }

    pub fn float_(&self, tok: Option<Token>) -> (r: Node)
        requires
            tok is Some,
        ensures
            r == Node::Float(self.tl(tok), tok->0.text),
    {
        let (loc, id) = self.tok_split(tok);
        Node::Float(loc, id)
    }

    pub fn for_(&self, for_: Option<Token>, iterator: Option<Rc<Node>>, _in: Option<Token>, iteratee: Option<Rc<Node>>, _do: Option<Token>, body: Option<Rc<Node>>, end: Option<Token>) -> (r: Node)
        requires
            for_ is Some,
            end is Some,
            iterator is Some,
            iteratee is Some,
        ensures
            r == Node::For(self.tj(for_, end), iterator->0, iteratee->0, body),
    {
        let iterator = iterator.unwrap();
        let iteratee = iteratee.unwrap();
        Node::For(self.tok_loc(&for_).join(&self.tok_loc(&end)), iterator, iteratee, body)
    }

    pub fn gvar(&self, tok: Option<Token>) -> (r: Node)
        requires
            tok is Some,
        ensures
            r == Node::Gvar(self.tl(tok), tok->0.text),
    {
        let (loc, id) = self.tok_split(tok);
        Node::Gvar(loc, id)
    }

    pub fn ident(&self, tok: Option<Token>) -> (r: Node)
        requires
            tok is Some,
        ensures
            r == Node::Ident(self.tl(tok), tok->0.text),
    {
        let (loc, id) = self.tok_split(tok);
        Node::Ident(loc, id)
    }

    /// `recv[indexes]`: a call of `[]`.
    pub fn index(&self, recv: Option<Rc<Node>>, lbrack: Option<Token>, indexes: Vec<Rc<Node>>, rbrack: Option<Token>) -> (r: Node)
        requires
            recv is Some,
            lbrack is Some,
            rbrack is Some,
        ensures
            r matches Node::Send(l, Some(rc), Id(il, name), args)
                && l == join_locs(nloc(recv), self.tl(rbrack)) && rc == recv->0
                && il == self.tj(lbrack, rbrack) && name@ == "[]"@ && args == indexes,
    {
        let recv = recv.unwrap();
        let id = Id(self.tok_join(&lbrack, &rbrack), "[]".to_owned());
        let loc = recv.loc().join(&self.tok_loc(&rbrack));
        Node::Send(loc, Some(recv), id, indexes)
    }

    /// `recv[indexes] = ...`: the incomplete call of `[]=`; the value is
    /// added by `assign`.
    pub fn index_asgn(&self, recv: Option<Rc<Node>>, lbrack: Option<Token>, indexes: Vec<Rc<Node>>, rbrack: Option<Token>) -> (r: Node)
        requires
            recv is Some,
            lbrack is Some,
            rbrack is Some,
        ensures
            r matches Node::Send(l, Some(rc), Id(il, name), args)
                && l == nloc(recv) && rc == recv->0
                && il == self.tj(lbrack, rbrack) && name@ == "[]="@ && args == indexes,
    {
        let recv = recv.unwrap();
        let id = Id(self.tok_join(&lbrack, &rbrack), "[]=".to_owned());
        let loc = recv.loc().clone();
        Node::Send(loc, Some(recv), id, indexes)
    }

    pub fn integer(&self, tok: Option<Token>) -> (r: Node)
        requires
            tok is Some,
        ensures
            r == Node::Integer(self.tl(tok), tok->0.text),
    {
        let (loc, id) = self.tok_split(tok);
        Node::Integer(loc, id)
    }

    pub fn ivar(&self, tok: Option<Token>) -> (r: Node)
        requires
            tok is Some,
        ensures
            r == Node::Ivar(self.tl(tok), tok->0.text),
    {
        let (loc, id) = self.tok_split(tok);
        Node::Ivar(loc, id)
    }

    pub fn keyword_break(&self, keyword: Option<Token>, lparen: Option<Token>, args: Vec<Rc<Node>>, rparen: Option<Token>) -> (r: Node)
        requires
            keyword is Some,
            lparen is Some <==> rparen is Some,
        ensures
            r == Node::Break(self.keyword_loc(keyword, lparen, args@, rparen), args),
    {
        let loc = self.keyword_operands_loc(&keyword, lparen, &args, rparen);
        Node::Break(loc, args)
    }

    pub fn keyword_defined(&self, keyword: Option<Token>, arg: Option<Rc<Node>>) -> (r: Node)
        requires
            keyword is Some,
            arg is Some,
        ensures
            r == Node::Defined(join_locs(self.tl(keyword), nloc(arg)), arg->0),
    {
        let arg = arg.unwrap();
        Node::Defined(self.tok_loc(&keyword).join(arg.loc()), arg)
    }

    pub fn keyword_next(&self, keyword: Option<Token>, lparen: Option<Token>, args: Vec<Rc<Node>>, rparen: Option<Token>) -> (r: Node)
        requires
            keyword is Some,
            lparen is Some <==> rparen is Some,
        ensures
            r == Node::Next(self.keyword_loc(keyword, lparen, args@, rparen), args),
    {
        let loc = self.keyword_operands_loc(&keyword, lparen, &args, rparen);
        Node::Next(loc, args)
    }

    pub fn keyword_redo(&self, keyword: Option<Token>) -> (r: Node)
        requires
            keyword is Some,
        ensures
            r == Node::Redo(self.tl(keyword)),
    {
        Node::Redo(self.tok_loc(&keyword))
    }

    pub fn keyword_retry(&self, keyword: Option<Token>) -> (r: Node)
        requires
            keyword is Some,
        ensures
            r == Node::Retry(self.tl(keyword)),
    {
        Node::Retry(self.tok_loc(&keyword))
    }

    pub fn keyword_return(&self, keyword: Option<Token>, lparen: Option<Token>, args: Vec<Rc<Node>>, rparen: Option<Token>) -> (r: Node)
        requires
            keyword is Some,
            lparen is Some <==> rparen is Some,
        ensures
            r == Node::Return(self.keyword_loc(keyword, lparen, args@, rparen), args),
    {
        let loc = self.keyword_operands_loc(&keyword, lparen, &args, rparen);
        Node::Return(loc, args)
    }

    pub fn keyword_super(&self, keyword: Option<Token>, lparen: Option<Token>, args: Vec<Rc<Node>>, rparen: Option<Token>) -> (r: Node)
        requires
            keyword is Some,
            lparen is Some <==> rparen is Some,
        ensures
            r == Node::Super(self.keyword_loc(keyword, lparen, args@, rparen), args),
    {
        let loc = self.keyword_operands_loc(&keyword, lparen, &args, rparen);
        Node::Super(loc, args)
    }

    pub fn keyword_yield(&self, keyword: Option<Token>, lparen: Option<Token>, args: Vec<Rc<Node>>, rparen: Option<Token>) -> (r: Node)
        requires
            keyword is Some,
            lparen is Some <==> rparen is Some,
        ensures
            r == Node::Yield(self.keyword_loc(keyword, lparen, args@, rparen), args),
    {
        let loc = self.keyword_operands_loc(&keyword, lparen, &args, rparen);
        Node::Yield(loc, args)
    }

    pub fn keyword_zsuper(&self, keyword: Option<Token>) -> (r: Node)
        requires
            keyword is Some,
        ensures
            r == Node::ZSuper(self.tl(keyword)),
    {
        Node::ZSuper(self.tok_loc(&keyword))
    }

    pub fn kwarg(&self, name: Option<Token>) -> (r: Node)
        requires
            name is Some,
        ensures
            r == Node::Kwarg(self.tl(name), name->0.text),
    {
        let (loc, id) = self.tok_split(name);
        Node::Kwarg(loc, id)
    }

    pub fn kwoptarg(&self, name: Option<Token>, value: Option<Rc<Node>>) -> (r: Node)
        requires
            name is Some,
            value is Some,
        ensures
            r == Node::Kwoptarg(join_locs(self.tl(name), nloc(value)), self.tid(name), value->0),
    {
        let value = value.unwrap();
        let id = self.tok_id(name);
        Node::Kwoptarg(id.0.join(value.loc()), id, value)
    }

    pub fn kwrestarg(&self, dstar: Option<Token>, name: Option<Token>) -> (r: Node)
        requires
            dstar is Some,
        ensures
            r == match name {
                Some(_) => Node::Kwrestarg(join_locs(self.tl(dstar), self.tl(name)), Some(self.tid(name))),
                None => Node::Kwrestarg(self.tl(dstar), None),
            },
    {
        match name {
            Some(_) => {
                let id = self.tok_id(name);
                Node::Kwrestarg(self.tok_loc(&dstar).join(&id.0), Some(id))
            },
            None => Node::Kwrestarg(self.tok_loc(&dstar), None),
        }
    }

    pub fn kwsplat(&self, dstar: Option<Token>, arg: Option<Rc<Node>>) -> (r: Node)
        requires
            dstar is Some,
            arg is Some,
        ensures
            r == Node::Kwsplat(join_locs(self.tl(dstar), nloc(arg)), arg->0),
    {
        let arg = arg.unwrap();
        Node::Kwsplat(self.tok_loc(&dstar).join(arg.loc()), arg)
    }

    /// `__LINE__`: the number of the line as an integer literal when file
    /// variables are emitted as literals.
    pub fn line_literal(&self, tok: Option<Token>) -> (r: Node)
        requires
            tok is Some,
            self.emit_file_vars_as_literals ==> tok->0.begin <= self.file().bytes().len(),
            self.emit_file_vars_as_literals ==> tok->0.begin < usize::MAX,
        ensures
            if self.emit_file_vars_as_literals {
                r matches Node::Integer(l, n) && l == self.tl(tok)
                    && n@ == crate::text::decimal(1 + crate::ast::count_newlines(self.file().bytes().take(tok->0.begin as int)))
            } else {
                r == Node::LineLiteral(self.tl(tok))
            },
    {
        if self.emit_file_vars_as_literals {
            let loc = self.tok_loc(&tok);
            let line = loc.file.line_for_pos(loc.begin_pos);
            Node::Integer(loc, crate::text::decimal_string(line.number))
        } else {
            Node::LineLiteral(self.tok_loc(&tok))
        }
    }

    pub fn logical_and(&self, lhs: Option<Rc<Node>>, _op: Option<Token>, rhs: Option<Rc<Node>>) -> (r: Node)
        requires
            lhs is Some,
            rhs is Some,
        ensures
            r == Node::And(join_locs(nloc(lhs), nloc(rhs)), lhs->0, rhs->0),
    {
        let lhs = lhs.unwrap();
        let rhs = rhs.unwrap();
        Node::And(lhs.loc().join(rhs.loc()), lhs, rhs)
    }

    pub fn logical_or(&self, lhs: Option<Rc<Node>>, _op: Option<Token>, rhs: Option<Rc<Node>>) -> (r: Node)
        requires
            lhs is Some,
            rhs is Some,
        ensures
            r == Node::Or(join_locs(nloc(lhs), nloc(rhs)), lhs->0, rhs->0),
    {
        let lhs = lhs.unwrap();
        let rhs = rhs.unwrap();
        Node::Or(lhs.loc().join(rhs.loc()), lhs, rhs)
    }

    pub fn loop_until(&self, keyword: Option<Token>, cond: Option<Rc<Node>>, _do: Option<Token>, body: Option<Rc<Node>>, end: Option<Token>) -> (r: Node)
        requires
            keyword is Some,
            end is Some,
            cond is Some,
        ensures
            r == Node::Until(self.tj(keyword, end), cond->0, body),
    {
        let cond = cond.unwrap();
        Node::Until(self.tok_join(&keyword, &end), cond, body)
    }

    /// `body until cond`: a `begin ... end` body runs at least once.
    pub fn loop_until_mod(&self, body: Option<Rc<Node>>, cond: Option<Rc<Node>>) -> (r: Node)
        requires
            body is Some,
            cond is Some,
        ensures
            r == if *body->0 is Kwbegin {
                Node::UntilPost(join_locs(nloc(body), nloc(cond)), cond->0, body->0)
            } else {
                Node::Until(join_locs(nloc(body), nloc(cond)), cond->0, body)
            },
    {
        let cond = cond.unwrap();
        let body = body.unwrap();
        let loc = body.loc().join(cond.loc());
        match &*body {
            Node::Kwbegin(_, _) => Node::UntilPost(loc, cond, body),
            _ => Node::Until(loc, cond, Some(body)),
        }
    }

    pub fn loop_while(&self, keyword: Option<Token>, cond: Option<Rc<Node>>, _do: Option<Token>, body: Option<Rc<Node>>, end: Option<Token>) -> (r: Node)
        requires
            keyword is Some,
            end is Some,
            cond is Some,
        ensures
            r == Node::While(self.tj(keyword, end), cond->0, body),
    {
        let cond = cond.unwrap();
        Node::While(self.tok_join(&keyword, &end), cond, body)
    }

    /// `body while cond`: a `begin ... end` body runs at least once.
    pub fn loop_while_mod(&self, body: Option<Rc<Node>>, cond: Option<Rc<Node>>) -> (r: Node)
        requires
            body is Some,
            cond is Some,
        ensures
            r == if *body->0 is Kwbegin {
                Node::WhilePost(join_locs(nloc(body), nloc(cond)), cond->0, body->0)
            } else {
                Node::While(join_locs(nloc(body), nloc(cond)), cond->0, body)
            },
    {
        let cond = cond.unwrap();
        let body = body.unwrap();
        let loc = body.loc().join(cond.loc());
        match &*body {
            Node::Kwbegin(_, _) => Node::WhilePost(loc, cond, body),
            _ => Node::While(loc, cond, Some(body)),
        }
    }

    /// `recv =~ arg`: a call of the match operator.
    pub fn match_op(&self, recv: Option<Rc<Node>>, oper: Option<Token>, arg: Option<Rc<Node>>) -> (r: Node)
        requires
            recv is Some,
            oper is Some,
            arg is Some,
        ensures
            r matches Node::Send(l, Some(rc), id, args) && l == join_locs(nloc(recv), nloc(arg))
                && rc == recv->0 && id == self.tid(oper) && args@ == seq![arg->0],
    {
        self.binary_op(recv, oper, arg)
    }

    pub fn multi_assign(&self, mlhs: Option<Rc<Node>>, rhs: Option<Rc<Node>>) -> (r: Node)
        requires
            mlhs is Some,
            rhs is Some,
        ensures
            r == Node::Masgn(join_locs(nloc(mlhs), nloc(rhs)), mlhs->0, rhs->0),
    {
        let mlhs = mlhs.unwrap();
        let rhs = rhs.unwrap();
        Node::Masgn(mlhs.loc().join(rhs.loc()), mlhs, rhs)
    }

    pub fn multi_lhs(&self, begin: Option<Token>, items: Vec<Rc<Node>>, end: Option<Token>) -> (r: Node)
        requires
            self.has_collection_loc(begin, items@, end),
        ensures
            r == Node::Mlhs(self.collection_loc(begin, items@, end)->0, items),
    {
        let loc = self.collection_map(begin, &items, end).unwrap();
        Node::Mlhs(loc, items)
    }

    /// `-number`: the literal with a minus sign in front.
    pub fn negate(&self, uminus: Option<Token>, numeric: Option<Rc<Node>>) -> (r: Node)
        requires
            uminus is Some,
            numeric is Some,
            *numeric->0 is Integer || *numeric->0 is Float,
        ensures
            ({
                let loc = join_locs(self.tl(uminus), nloc(numeric));
                match *numeric->0 {
                    Node::Integer(_, value) => r matches Node::Integer(l, v) && l == loc && v@ == "-"@ + value@,
                    Node::Float(_, value) => r matches Node::Float(l, v) && l == loc && v@ == "-"@ + value@,
                    _ => false,
                }
            }),
    {
        let numeric = numeric.unwrap();
        let loc = self.tok_loc(&uminus).join(numeric.loc());
        match &*numeric {
            Node::Integer(_, value) => Node::Integer(loc, concat("-", value.as_str())),
            Node::Float(_, value) => Node::Float(loc, concat("-", value.as_str())),
            _ => {
                assert(false);
                Node::Nil(loc)
            },
        }
    }

    pub fn nil(&self, tok: Option<Token>) -> (r: Node)
        requires
            tok is Some,
        ensures
            r == Node::Nil(self.tl(tok)),
    {
        Node::Nil(self.tok_loc(&tok))
    }

    /// `not expr` calls `!` on the expression; `not()` calls it on `(nil)`.
    pub fn not_op(&self, not_: Option<Token>, begin: Option<Token>, receiver: Option<Rc<Node>>, end: Option<Token>) -> (r: Node)
        requires
            not_ is Some,
            receiver is None ==> begin is Some && end is Some,
        ensures
            ({
                let not_loc = self.tl(not_);
                let id_ok = |id: Id| id.0 == not_loc && id.1@ == "!"@;
                match receiver {
                    Some(expr) => r matches Node::Send(l, Some(rc), id, args)
                        && l == (if end is Some { join_locs(not_loc, self.tl(end)) } else { join_locs(not_loc, expr.spec_loc()) })
                        && rc == expr && id_ok(id) && args@.len() == 0,
                    None => {
                        &&& r matches Node::Send(l, Some(rc), id, args)
                        &&& l == join_locs(not_loc, self.tj(begin, end))
                        &&& id_ok(id) && args@.len() == 0
                        &&& (*rc matches Node::Begin(bl, stmts) && bl == self.tj(begin, end)
                            && stmts@ == seq![Rc::new(Node::Nil(self.tj(begin, end)))])
                    },
                }
            }),
    {
        let not_loc = self.tok_loc(&not_);
        let id = Id(self.tok_loc(&not_), "!".to_owned());
        match receiver {
            Some(expr) => {
                let loc = match end {
                    Some(_) => not_loc.join(&self.tok_loc(&end)),
                    None => not_loc.join(expr.loc()),
                };
                Node::Send(loc, Some(expr), id, Vec::new())
            },
            None => {
                let nil_loc = self.tok_join(&begin, &end);
                let loc = not_loc.join(&nil_loc);
                let mut stmts: Vec<Rc<Node>> = Vec::new();
                stmts.push(Rc::new(Node::Nil(nil_loc.clone())));
                let recv = Rc::new(Node::Begin(nil_loc, stmts));
                Node::Send(loc, Some(recv), id, Vec::new())
            },
        }
    }

    /// `$1` and the like: the number of the match group.
    pub fn nth_ref(&self, tok: Option<Token>) -> (r: Node)
        requires
            tok is Some,
            tok->0.text@.len() > 0,
            forall|i: int| 0 <= i < tok->0.text@.len() ==> crate::text::is_digit(#[trigger] tok->0.text@[i]),
            crate::text::decimal_value(tok->0.text@) <= usize::MAX,
        ensures
            r == Node::NthRef(self.tl(tok), crate::text::decimal_value(tok->0.text@) as usize),
    {
        let (loc, id) = self.tok_split(tok);
        Node::NthRef(loc, crate::text::parse_decimal(id.as_str()))
    }

    /// `lhs op= rhs`; `&&=` and `||=` have nodes of their own.
    pub fn op_assign(&self, lhs: Option<Rc<Node>>, op: Option<Token>, rhs: Option<Rc<Node>>) -> (r: Node)
        requires
            lhs is Some,
            rhs is Some,
            op is Some,
        ensures
            ({
                let loc = join_locs(nloc(lhs), nloc(rhs));
                if op->0.text@ == "&&"@ {
                    r == Node::AndAsgn(loc, lhs->0, rhs->0)
                } else if op->0.text@ == "||"@ {
                    r == Node::OrAsgn(loc, lhs->0, rhs->0)
                } else {
                    r == Node::OpAsgn(loc, lhs->0, self.tid(op), rhs->0)
                }
            }),
    {
        let lhs = lhs.unwrap();
        let rhs = rhs.unwrap();
        let loc = lhs.loc().join(rhs.loc());
        let is_and = str_eq(op.as_ref().unwrap().text.as_str(), "&&");
        let is_or = str_eq(op.as_ref().unwrap().text.as_str(), "||");
        if is_and {
            Node::AndAsgn(loc, lhs, rhs)
        } else if is_or {
            Node::OrAsgn(loc, lhs, rhs)
        } else {
            Node::OpAsgn(loc, lhs, self.tok_id(op), rhs)
        }
    }

    pub fn optarg(&self, name: Option<Token>, _eql: Option<Token>, value: Option<Rc<Node>>) -> (r: Node)
        requires
            name is Some,
            value is Some,
        ensures
            r == Node::Optarg(join_locs(self.tl(name), nloc(value)), self.tid(name), value->0),
    {
        let id = self.tok_id(name);
        let value = value.unwrap();
        Node::Optarg(id.0.join(value.loc()), id, value)
    }

    pub fn pair(&self, key: Option<Rc<Node>>, _assoc: Option<Token>, value: Option<Rc<Node>>) -> (r: Node)
        requires
            key is Some,
            value is Some,
        ensures
            r == Node::Pair(join_locs(nloc(key), nloc(value)), key->0, value->0),
    {
        let key = key.unwrap();
        let value = value.unwrap();
        Node::Pair(key.loc().join(value.loc()), key, value)
    }

    /// `key: value`, whose key is a symbol.
    pub fn pair_keyword(&self, key: Option<Token>, value: Option<Rc<Node>>) -> (r: Node)
        requires
            key is Some,
            value is Some,
        ensures
            r == Node::Pair(join_locs(self.tl(key), nloc(value)), Rc::new(Node::Symbol(self.tl(key), key->0.text)), value->0),
    {
        let value = value.unwrap();
        let (loc, id) = self.tok_split(key);
        let sym = Node::Symbol(loc, id);
        let loc = sym.loc().join(value.loc());
        Node::Pair(loc, Rc::new(sym), value)
    }

    pub fn postexe(&self, begin: Option<Token>, node: Option<Rc<Node>>, rbrace: Option<Token>) -> (r: Node)
        requires
            begin is Some,
            rbrace is Some,
        ensures
            r == Node::Postexe(self.tj(begin, rbrace), node),
    {
        Node::Postexe(self.tok_loc(&begin).join(&self.tok_loc(&rbrace)), node)
    }

    pub fn preexe(&self, begin: Option<Token>, node: Option<Rc<Node>>, rbrace: Option<Token>) -> (r: Node)
        requires
            begin is Some,
            rbrace is Some,
        ensures
            r == Node::Preexe(self.tj(begin, rbrace), node),
    {
        Node::Preexe(self.tok_loc(&begin).join(&self.tok_loc(&rbrace)), node)
    }

    pub fn procarg0(&self, arg: Option<Rc<Node>>) -> (r: Node)
        requires
            arg is Some,
        ensures
            r == Node::Procarg0(nloc(arg), arg->0),
    {
        let arg = arg.unwrap();
        Node::Procarg0(arg.loc().clone(), arg)
    }

    /// A method signature: type parameters, arguments and return type.
    pub fn prototype(&self, genargs: Option<Rc<Node>>, args: Option<Rc<Node>>, return_type: Option<Rc<Node>>) -> (r: Node)
        requires
            args is Some,
        ensures
            ({
                let l1 = nloc(args);
                let l2 = if genargs is Some { join_locs(l1, nloc(genargs)) } else { l1 };
                let l3 = if return_type is Some { join_locs(l2, nloc(return_type)) } else { l2 };
                r == Node::TyPrototype(l3, genargs, args->0, return_type)
            }),
    {
        let args = args.unwrap();
        let mut loc = args.loc().clone();
        if let Some(g) = &genargs {
            loc = loc.join(g.loc());
        }
        if let Some(t) = &return_type {
            loc = loc.join(t.loc());
        }
        Node::TyPrototype(loc, genargs, args, return_type)
    }

    pub fn range_exclusive(&self, lhs: Option<Rc<Node>>, _oper: Option<Token>, rhs: Option<Rc<Node>>) -> (r: Node)
        requires
            lhs is Some,
            rhs is Some,
        ensures
            r == Node::ERange(join_locs(nloc(lhs), nloc(rhs)), lhs->0, rhs->0),
    {
        let lhs = lhs.unwrap();
        let rhs = rhs.unwrap();
        Node::ERange(lhs.loc().join(rhs.loc()), lhs, rhs)
    }

    pub fn range_inclusive(&self, lhs: Option<Rc<Node>>, _oper: Option<Token>, rhs: Option<Rc<Node>>) -> (r: Node)
        requires
            lhs is Some,
            rhs is Some,
        ensures
            r == Node::IRange(join_locs(nloc(lhs), nloc(rhs)), lhs->0, rhs->0),
    {
        let lhs = lhs.unwrap();
        let rhs = rhs.unwrap();
        Node::IRange(lhs.loc().join(rhs.loc()), lhs, rhs)
    }

    pub fn rational(&self, tok: Option<Token>) -> (r: Node)
        requires
            tok is Some,
        ensures
            r == Node::Rational(self.tl(tok), tok->0.text),
    {
        let (loc, id) = self.tok_split(tok);
        Node::Rational(loc, id)
    }

    pub fn regexp_compose(&self, begin: Option<Token>, parts: Vec<Rc<Node>>, end: Option<Token>, options: Option<Rc<Node>>) -> (r: Node)
        requires
            begin is Some,
            options is None ==> end is Some,
        ensures
            r == Node::Regexp(
                if options is Some { join_locs(self.tl(begin), nloc(options)) } else { self.tj(begin, end) },
                parts,
                options,
            ),
    {
        let begin_loc = self.tok_loc(&begin);
        let loc = match &options {
            Some(opt_box) => begin_loc.join(opt_box.loc()),
            None => begin_loc.join(&self.tok_loc(&end)),
        };
        Node::Regexp(loc, parts, options)
    }

    /// Regexp options: the option letters in ascending order, each once.
    pub fn regexp_options(&self, regopt: Option<Token>) -> (r: Node)
        requires
            regopt is Some,
        ensures
            r matches Node::Regopt(l, opts) && l == self.tl(regopt)
                && strictly_ascending(opts@)
                && forall|c: char| opts@.contains(c) <==> regopt->0.text@.contains(c),
    {
        let loc = self.tok_loc(&regopt);
        let tok = regopt.unwrap();
        let options = sorted_unique_chars(tok.text.as_str());
        Node::Regopt(loc, options)
    }

    /// A `rescue` clause.
    pub fn rescue_body(&self, rescue: Option<Token>, exc_list: Option<Rc<Node>>, _assoc: Option<Token>, exc_var: Option<Rc<Node>>, _then: Option<Token>, body: Option<Rc<Node>>) -> (r: Node)
        requires
            rescue is Some,
        ensures
            ({
                let l1 = self.tl(rescue);
                let l2 = if exc_list is Some { join_locs(l1, nloc(exc_list)) } else { l1 };
                let l3 = if exc_var is Some { join_locs(l2, nloc(exc_var)) } else { l2 };
                let l4 = if body is Some { join_locs(l3, nloc(body)) } else { l3 };
                r == Node::Resbody(l4, exc_list, exc_var, body)
            }),
    {
        let mut loc = self.tok_loc(&rescue);
        if let Some(l) = &exc_list {
            loc = loc.join(l.loc());
        }
        if let Some(v) = &exc_var {
            loc = loc.join(v.loc());
        }
        if let Some(b) = &body {
            loc = loc.join(b.loc());
        }
        Node::Resbody(loc, exc_list, exc_var, body)
    }

    pub fn restarg(&self, star: Option<Token>, name: Option<Token>) -> (r: Node)
        requires
            star is Some,
        ensures
            r == match name {
                Some(_) => Node::Restarg(join_locs(self.tl(star), self.tl(name)), Some(self.tid(name))),
                None => Node::Restarg(self.tl(star), None),
            },
    {
        match name {
            Some(_) => {
                let id = self.tok_id(name);
                Node::Restarg(self.tok_loc(&star).join(&id.0), Some(id))
            },
            None => Node::Restarg(self.tok_loc(&star), None),
        }
    }

    pub fn self_(&self, tok: Option<Token>) -> (r: Node)
        requires
            tok is Some,
        ensures
            r == Node::Self_(self.tl(tok)),
    {
        Node::Self_(self.tok_loc(&tok))
    }

    pub fn splat(&self, star: Option<Token>, arg: Option<Rc<Node>>) -> (r: Node)
        requires
            star is Some,
        ensures
            r == Node::Splat(if arg is Some { join_locs(self.tl(star), nloc(arg)) } else { self.tl(star) }, arg),
    {
        let loc = match &arg {
            Some(box_arg) => self.tok_loc(&star).join(box_arg.loc()),
            None => self.tok_loc(&star),
        };
        Node::Splat(loc, arg)
    }

    pub fn string(&self, string_: Option<Token>) -> (r: Node)
        requires
            string_ is Some,
        ensures
            r == Node::String(self.tl(string_), string_->0.text),
    {
        let loc = self.tok_loc(&string_);
        Node::String(loc, string_.unwrap().text)
    }

    /// A string made of parts: a single literal part stands for itself,
    /// anything else becomes a `dstr`.
    pub fn string_compose(&self, begin: Option<Token>, parts: Vec<Rc<Node>>, end: Option<Token>) -> (r: Node)
        requires
            self.has_collection_loc(begin, parts@, end),
        ensures
            if collapses(parts@) {
                match *parts@[0] {
                    Node::String(l, v) => r matches Node::String(rl, rv) && rl == l && rv@ == v@,
                    Node::DString(l, v) => r matches Node::DString(rl, rv) && rl == l && rv@ == v@,
                    _ => false,
                }
            } else {
                r == Node::DString(self.collection_loc(begin, parts@, end)->0, parts)
            },
    {
        let loc = self.collection_map(begin, &parts, end).unwrap();
        if collapse_string_parts(&parts) {
            match &*parts[0] {
                Node::String(l, val) => Node::String(l.clone(), val.clone()),
                Node::DString(l, val) => Node::DString(l.clone(), clone_nodes(val)),
                _ => {
                    let mut v: Vec<Rc<Node>> = Vec::new();
                    v.push(Rc::clone(&parts[0]));
                    Node::DString(loc, v)
                },
            }
        } else {
            Node::DString(loc, parts)
        }
    }

    pub fn string_internal(&self, string_: Option<Token>) -> (r: Node)
        requires
            string_ is Some,
        ensures
            r == Node::String(self.tl(string_), string_->0.text),
    {
        let (loc, id) = self.tok_split(string_);
        Node::String(loc, id)
    }

    pub fn symbol(&self, symbol: Option<Token>) -> (r: Node)
        requires
            symbol is Some,
        ensures
            r == Node::Symbol(self.tl(symbol), symbol->0.text),
    {
        let (loc, id) = self.tok_split(symbol);
        Node::Symbol(loc, id)
    }

    /// A symbol made of parts: a single string part becomes a plain symbol,
    /// anything else a `dsym`.
    pub fn symbol_compose(&self, begin: Option<Token>, parts: Vec<Rc<Node>>, end: Option<Token>) -> (r: Node)
        requires
            self.has_collection_loc(begin, parts@, end),
        ensures
            if collapses(parts@) {
                match *parts@[0] {
                    Node::String(l, v) => r matches Node::Symbol(rl, rv) && rl == l && rv@ == v@,
                    _ => r matches Node::DSymbol(rl, rv) && rl == self.collection_loc(begin, parts@, end)->0
                        && rv@ == seq![parts@[0]],
                }
            } else {
                r == Node::DSymbol(self.collection_loc(begin, parts@, end)->0, parts)
            },
    {
        let loc = self.collection_map(begin, &parts, end).unwrap();
        if collapse_string_parts(&parts) {
            match &*parts[0] {
                Node::Symbol(l, val) => Node::Symbol(l.clone(), val.clone()),
                Node::String(l, val) => Node::Symbol(l.clone(), val.clone()),
                _ => {
                    let mut v: Vec<Rc<Node>> = Vec::new();
                    v.push(Rc::clone(&parts[0]));
                    Node::DSymbol(loc, v)
                },
            }
        } else {
            Node::DSymbol(loc, parts)
        }
    }

    /// `"key": value`, whose key is a symbol made of the quoted parts.
    pub fn pair_quoted(&self, begin: Option<Token>, parts: Vec<Rc<Node>>, end: Option<Token>, value: Option<Rc<Node>>) -> (r: Node)
        requires
            self.has_collection_loc(begin, parts@, end),
            value is Some,
        ensures
            r matches Node::Pair(l, k, v) && v == value->0 && l == join_locs(k.spec_loc(), nloc(value))
                && if collapses(parts@) {
                    match *parts@[0] {
                        Node::String(pl, pv) => *k matches Node::Symbol(rl, rv) && rl == pl && rv@ == pv@,
                        _ => *k matches Node::DSymbol(rl, rv) && rl == self.collection_loc(begin, parts@, end)->0
                            && rv@ == seq![parts@[0]],
                    }
                } else {
                    *k == Node::DSymbol(self.collection_loc(begin, parts@, end)->0, parts)
                },
    {
        let key = self.symbol_compose(begin, parts, end);
        let value = value.unwrap();
        let loc = key.loc().join(value.loc());
        Node::Pair(loc, Rc::new(key), value)
    }

    pub fn symbol_internal(&self, symbol: Option<Token>) -> (r: Node)
        requires
            symbol is Some,
        ensures
            r == Node::Symbol(self.tl(symbol), symbol->0.text),
    {
        let (loc, id) = self.tok_split(symbol);
        Node::Symbol(loc, id)
    }

    /// `%I[...]`: an array whose string parts become symbols.
    pub fn symbols_compose(&self, begin: Option<Token>, parts: Vec<Rc<Node>>, end: Option<Token>) -> (r: Node)
        requires
            self.has_collection_loc(begin, parts@, end),
        ensures
            r matches Node::Array(l, v) && l == self.collection_loc(begin, parts@, end)->0
                && v@.len() == parts@.len()
                && forall|i: int| 0 <= i < parts@.len() ==> symbolized(parts@[i], #[trigger] v@[i]),
    {
        let loc = self.collection_map(begin, &parts, end).unwrap();
        let mut out: Vec<Rc<Node>> = Vec::new();
        let mut i: usize = 0;
        while i < parts.len()
            invariant
                i <= parts@.len(),
                out@.len() == i,
                forall|k: int| 0 <= k < i ==> symbolized(parts@[k], #[trigger] out@[k]),
            decreases parts@.len() - i,
        {
            let part = &parts[i];
            let sym = match &**part {
                Node::String(l, val) => Rc::new(Node::Symbol(l.clone(), val.clone())),
                Node::DString(l, ps) => Rc::new(Node::DSymbol(l.clone(), clone_nodes(ps))),
                _ => Rc::clone(part),
            };
            out.push(sym);
            i = i + 1;
        }
        Node::Array(loc, out)
    }

    /// `cond ? a : b`.
    pub fn ternary(&self, cond: Option<Rc<Node>>, _question: Option<Token>, if_true: Option<Rc<Node>>, _colon: Option<Token>, if_false: Option<Rc<Node>>) -> (r: Node)
        requires
            cond is Some,
            if_true is Some,
            if_false is Some,
        ensures
            r matches Node::If(l, c, t, f) && l == join_locs(nloc(cond), nloc(if_false))
                && checked_condition(cond->0, c) && t == if_true && f == if_false,
    {
        let cond = cond.unwrap();
        let if_true = if_true.unwrap();
        let if_false = if_false.unwrap();
        let loc = cond.loc().join(if_false.loc());
        Node::If(loc, check_condition(cond), Some(if_true), Some(if_false))
    }

    pub fn tr_any(&self, special: Option<Token>) -> (r: Node)
        requires
            special is Some,
        ensures
            r == Node::TyAny(self.tl(special)),
    {
        Node::TyAny(self.tok_loc(&special))
    }

    pub fn tr_array(&self, begin: Option<Token>, type_: Option<Rc<Node>>, end: Option<Token>) -> (r: Node)
        requires
            begin is Some,
            end is Some,
            type_ is Some,
        ensures
            r == Node::TyArray(self.tj(begin, end), type_->0),
    {
        let type_ = type_.unwrap();
        Node::TyArray(self.tok_join(&begin, &end), type_)
    }

    pub fn tr_cast(&self, begin: Option<Token>, expr: Option<Rc<Node>>, _colon: Option<Token>, type_: Option<Rc<Node>>, end: Option<Token>) -> (r: Node)
        requires
            begin is Some,
            end is Some,
            expr is Some,
            type_ is Some,
        ensures
            r == Node::TyCast(self.tj(begin, end), expr->0, type_->0),
    {
        let expr = expr.unwrap();
        let type_ = type_.unwrap();
        Node::TyCast(self.tok_join(&begin, &end), expr, type_)
    }

    pub fn tr_class(&self, special: Option<Token>) -> (r: Node)
        requires
            special is Some,
        ensures
            r == Node::TyClass(self.tl(special)),
    {
        Node::TyClass(self.tok_loc(&special))
    }

    pub fn tr_consubtype(&self, sub: Option<Rc<Node>>, super_: Option<Rc<Node>>) -> (r: Node)
        requires
            sub is Some,
            super_ is Some,
        ensures
            r == Node::TyConSubtype(join_locs(nloc(sub), nloc(super_)), sub->0, super_->0),
    {
        let sub = sub.unwrap();
        let super_ = super_.unwrap();
        let loc = sub.loc().join(super_.loc());
        Node::TyConSubtype(loc, sub, super_)
    }

    pub fn tr_conunify(&self, a: Option<Rc<Node>>, b: Option<Rc<Node>>) -> (r: Node)
        requires
            a is Some,
            b is Some,
        ensures
            r == Node::TyConUnify(join_locs(nloc(a), nloc(b)), a->0, b->0),
    {
        let a = a.unwrap();
        let b = b.unwrap();
        let loc = a.loc().join(b.loc());
        Node::TyConUnify(loc, a, b)
    }

    pub fn tr_cpath(&self, cpath: Option<Rc<Node>>) -> (r: Node)
        requires
            cpath is Some,
        ensures
            r == Node::TyCpath(nloc(cpath), cpath->0),
    {
        let cpath = cpath.unwrap();
        Node::TyCpath(cpath.loc().clone(), cpath)
    }

    pub fn tr_genargs(&self, begin: Option<Token>, genargs: Vec<Rc<Node>>, end: Option<Token>) -> (r: Node)
        requires
            begin is Some,
            end is Some,
        ensures
            r == Node::TyGenargs(self.tj(begin, end), genargs),
    {
        Node::TyGenargs(self.tok_join(&begin, &end), genargs)
    }

    pub fn tr_gendecl(&self, cpath: Option<Rc<Node>>, _begin: Option<Token>, genargs: Vec<Rc<Node>>, end: Option<Token>) -> (r: Node)
        requires
            cpath is Some,
            end is Some,
        ensures
            r == Node::TyGendecl(join_locs(nloc(cpath), self.tl(end)), cpath->0, genargs),
    {
        let cpath = cpath.unwrap();
        let loc = cpath.loc().join(&self.tok_loc(&end));
        Node::TyGendecl(loc, cpath, genargs)
    }

    pub fn tr_gendeclarg(&self, tok: Option<Token>, constraint: Option<Rc<Node>>) -> (r: Node)
        requires
            tok is Some,
        ensures
            r == Node::TyGendeclarg(self.tl(tok), tok->0.text, constraint),
    {
        let (loc, id) = self.tok_split(tok);
        Node::TyGendeclarg(loc, id, constraint)
    }

    pub fn tr_geninst(&self, cpath: Option<Rc<Node>>, _begin: Option<Token>, genargs: Vec<Rc<Node>>, end: Option<Token>) -> (r: Node)
        requires
            cpath is Some,
            end is Some,
        ensures
            r == Node::TyGeninst(join_locs(nloc(cpath), self.tl(end)), cpath->0, genargs),
    {
        let cpath = cpath.unwrap();
        let loc = cpath.loc().join(&self.tok_loc(&end));
        Node::TyGeninst(loc, cpath, genargs)
    }

    pub fn tr_hash(&self, begin: Option<Token>, key_type: Option<Rc<Node>>, _assoc: Option<Token>, value_type: Option<Rc<Node>>, end: Option<Token>) -> (r: Node)
        requires
            begin is Some,
            end is Some,
            key_type is Some,
            value_type is Some,
        ensures
            r == Node::TyHash(self.tj(begin, end), key_type->0, value_type->0),
    {
        let key_type = key_type.unwrap();
        let value_type = value_type.unwrap();
        Node::TyHash(self.tok_join(&begin, &end), key_type, value_type)
    }

    pub fn tr_instance(&self, special: Option<Token>) -> (r: Node)
        requires
            special is Some,
        ensures
            r == Node::TyInstance(self.tl(special)),
    {
        Node::TyInstance(self.tok_loc(&special))
    }

    pub fn tr_ivardecl(&self, name: Option<Token>, type_: Option<Rc<Node>>) -> (r: Node)
        requires
            name is Some,
            type_ is Some,
        ensures
            r == Node::TyIvardecl(join_locs(self.tl(name), nloc(type_)), self.tid(name), type_->0),
    {
        let name = self.tok_id(name);
        let type_ = type_.unwrap();
        Node::TyIvardecl(name.0.join(type_.loc()), name, type_)
    }

    pub fn tr_nil(&self, nil: Option<Token>) -> (r: Node)
        requires
            nil is Some,
        ensures
            r == Node::TyNil(self.tl(nil)),
    {
        Node::TyNil(self.tok_loc(&nil))
    }

    pub fn tr_nillable(&self, tilde: Option<Token>, type_: Option<Rc<Node>>) -> (r: Node)
        requires
            tilde is Some,
            type_ is Some,
        ensures
            r == Node::TyNillable(join_locs(self.tl(tilde), nloc(type_)), type_->0),
    {
        let type_ = type_.unwrap();
        Node::TyNillable(self.tok_loc(&tilde).join(type_.loc()), type_)
    }

    pub fn tr_or(&self, a: Option<Rc<Node>>, b: Option<Rc<Node>>) -> (r: Node)
        requires
            a is Some,
            b is Some,
        ensures
            r == Node::TyOr(join_locs(nloc(a), nloc(b)), a->0, b->0),
    {
        let a = a.unwrap();
        let b = b.unwrap();
        Node::TyOr(a.loc().join(b.loc()), a, b)
    }

    pub fn tr_proc(&self, begin: Option<Token>, args: Option<Rc<Node>>, end: Option<Token>) -> (r: Node)
        requires
            begin is Some,
            end is Some,
            args is Some,
        ensures
            r == Node::TyProc(self.tj(begin, end), args->0),
    {
        let args = args.unwrap();
        Node::TyProc(self.tok_join(&begin, &end), args)
    }

    pub fn tr_self(&self, special: Option<Token>) -> (r: Node)
        requires
            special is Some,
        ensures
            r == Node::TySelf(self.tl(special)),
    {
        Node::TySelf(self.tok_loc(&special))
    }

    pub fn tr_tuple(&self, begin: Option<Token>, types: Vec<Rc<Node>>, end: Option<Token>) -> (r: Node)
        requires
            begin is Some,
            end is Some,
        ensures
            r == Node::TyTuple(self.tj(begin, end), types),
    {
        Node::TyTuple(self.tok_join(&begin, &end), types)
    }

    pub fn true_(&self, tok: Option<Token>) -> (r: Node)
        requires
            tok is Some,
        ensures
            r == Node::True(self.tl(tok)),
    {
        Node::True(self.tok_loc(&tok))
    }

    pub fn typed_arg(&self, type_: Option<Rc<Node>>, arg: Option<Rc<Node>>) -> (r: Node)
        requires
            type_ is Some,
            arg is Some,
        ensures
            r == Node::TyTypedArg(join_locs(nloc(type_), nloc(arg)), type_->0, arg->0),
    {
        let type_ = type_.unwrap();
        let arg = arg.unwrap();
        Node::TyTypedArg(type_.loc().join(arg.loc()), type_, arg)
    }

    /// `op recv`: a call of the unary method; `+` and `-` are called `+@`
    /// and `-@`.
    pub fn unary_op(&self, oper: Option<Token>, receiver: Option<Rc<Node>>) -> (r: Node)
        requires
            oper is Some,
            receiver is Some,
        ensures
            r matches Node::Send(l, Some(rc), Id(il, name), args)
                && l == join_locs(self.tl(oper), nloc(receiver)) && rc == receiver->0
                && il == self.tl(oper) && args@.len() == 0
                && name@ == (if oper->0.text@ == "+"@ { "+@"@ } else if oper->0.text@ == "-"@ { "-@"@ } else { oper->0.text@ }),
    {
        let id = self.tok_id(oper);
        let recv = receiver.unwrap();
        let is_plus = str_eq(id.1.as_str(), "+");
        let is_minus = str_eq(id.1.as_str(), "-");
        let id = if is_plus {
            Id(id.0, "+@".to_owned())
        } else if is_minus {
            Id(id.0, "-@".to_owned())
        } else {
            id
        };
        let loc = id.0.join(recv.loc());
        Node::Send(loc, Some(recv), id, Vec::new())
    }

    pub fn undef_method(&self, undef: Option<Token>, name_list: Vec<Rc<Node>>) -> (r: Node)
        requires
            undef is Some,
        ensures
            r == Node::Undef(
                if name_list@.len() > 0 { join_locs(self.tl(undef), name_list@.last().spec_loc()) } else { self.tl(undef) },
                name_list,
            ),
    {
        let loc = if name_list.len() > 0 {
            self.tok_loc(&undef).join(name_list[name_list.len() - 1].loc())
        } else {
            self.tok_loc(&undef)
        };
        Node::Undef(loc, name_list)
    }

    /// A `when` clause; it ends at its body, at `then`, or at its last
    /// pattern.
    pub fn when(&self, when_: Option<Token>, patterns: Vec<Rc<Node>>, then: Option<Token>, body: Option<Rc<Node>>) -> (r: Node)
        requires
            when_ is Some,
            body is None && then is None ==> patterns@.len() > 0,
        ensures
            r == Node::When(
                if body is Some {
                    join_locs(self.tl(when_), nloc(body))
                } else if then is Some {
                    join_locs(self.tl(when_), self.tl(then))
                } else {
                    join_locs(self.tl(when_), patterns@.last().spec_loc())
                },
                patterns,
                body,
            ),
    {
        let when_loc = self.tok_loc(&when_);
        let loc = if let Some(body_box) = &body {
            when_loc.join(body_box.loc())
        } else if then.is_some() {
            when_loc.join(&self.tok_loc(&then))
        } else {
            when_loc.join(patterns[patterns.len() - 1].loc())
        };
        Node::When(loc, patterns, body)
    }

    /// A word of `%w[...]`: a single literal part stands for itself, anything
    /// else becomes a `dstr`.
    pub fn word(&self, parts: Vec<Rc<Node>>) -> (r: Rc<Node>)
        requires
            parts@.len() > 0,
        ensures
            if collapses(parts@) {
                r == parts@[0]
            } else {
                *r == Node::DString(join_exprs_loc(parts@), parts)
            },
    {
        if collapse_string_parts(&parts) {
            Rc::clone(&parts[0])
        } else {
            let loc = parts[0].loc().join(parts[parts.len() - 1].loc());
            Rc::new(Node::DString(loc, parts))
        }
    }

    pub fn words_compose(&self, begin: Option<Token>, words: Vec<Rc<Node>>, end: Option<Token>) -> (r: Node)
        requires
            self.has_collection_loc(begin, words@, end),
        ensures
            r == Node::Array(self.collection_loc(begin, words@, end)->0, words),
    {
        let loc = self.collection_map(begin, &words, end).unwrap();
        Node::Array(loc, words)
    }

    pub fn xstring_compose(&self, begin: Option<Token>, parts: Vec<Rc<Node>>, end: Option<Token>) -> (r: Node)
        requires
            self.has_collection_loc(begin, parts@, end),
        ensures
            r == Node::XString(self.collection_loc(begin, parts@, end)->0, parts),
    {
        let loc = self.collection_map(begin, &parts, end).unwrap();
        Node::XString(loc, parts)
    }
}

/// The indentation after character `c` when it was `ind`: a space adds
/// one column, a tab moves to the next multiple of eight.
pub open spec fn step_indent(ind: int, c: char) -> int {
    if c == ' ' {
        ind + 1
    } else if c == '\t' {
        ind + 8 - ind % 8
    } else {
        ind
    }
}

/// Whether `c` is a space or a tab.
pub open spec fn is_indent_char(c: char) -> bool {
    c == ' ' || c == '\t'
}

/// The number of spaces and tabs in `s`.
pub open spec fn indent_chars(s: Seq<char>) -> nat
    decreases s.len(),
{
    if s.len() == 0 {
        0
    } else {
        indent_chars(s.drop_last()) + if is_indent_char(s.last()) { 1nat } else { 0nat }
    }
}

/// The indentation after the characters `s`, starting from `ind`.
pub open spec fn indent_after(ind: int, s: Seq<char>) -> int
    decreases s.len(),
{
    if s.len() == 0 {
        ind
    } else {
        step_indent(indent_after(ind, s.drop_last()), s.last())
    }
}

/// The first index `k` at or after `from` at which the scan of a line
/// beginning stops: a newline, or an indentation (counted from `ind` at
/// `from`) that reaches the dedent level.
pub open spec fn line_begin_end(dedent_level: int, ind: int, s: Seq<char>, from: int) -> Option<int>
    decreases s.len() - from,
{
    if from < 0 || from >= s.len() {
        None
    } else if s[from] == '\n' || ind >= dedent_level {
        Some(from)
    } else {
        line_begin_end(dedent_level, step_indent(ind, s[from]), s, from + 1)
    }
}

/// What dedenting the characters `s` gives when the dedenter is at a line
/// beginning with indentation `ind`: the text, whether it ends at a line
/// beginning, and the indentation then. The spaces and tabs seen before the
/// scan stops are removed from the front of the text.
pub open spec fn dedent_line_begin(dedent_level: int, ind: int, s: Seq<char>) -> (Seq<char>, bool, int) {
    match line_begin_end(dedent_level, ind, s, 0) {
        None => (s.skip(indent_chars(s) as int), true, indent_after(ind, s)),
        Some(k) => {
            let text = s.skip(indent_chars(s.take(k)) as int);
            if s.last() == '\n' {
                (text, true, 0)
            } else {
                (text, false, step_indent(indent_after(ind, s.take(k)), s[k]))
            }
        },
    }
}

/// What dedenting the characters `s` gives from the state `(at_line_begin,
/// indent_level)`: the text, and the new state. Away from a line beginning
/// the text stays as it is; a text that ends with a newline leaves the
/// dedenter at a line beginning with no indentation.
pub open spec fn dedent_spec(dedent_level: int, at_line_begin: bool, ind: int, s: Seq<char>) -> (Seq<char>, bool, int) {
    if at_line_begin {
        dedent_line_begin(dedent_level, ind, s)
    } else if s.len() > 0 && s.last() == '\n' {
        (s, true, 0)
    } else {
        (s, false, ind)
    }
}

/// Removes the common indentation of the lines of a heredoc.
pub struct Dedenter {
    pub dedent_level: usize,
    pub at_line_begin: bool,
    pub indent_level: usize,
}

impl Dedenter {
    pub fn new(dedent_level: usize) -> (r: Dedenter)
        ensures
            r.dedent_level == dedent_level,
            r.at_line_begin,
            r.indent_level == 0,
    {
        Dedenter { dedent_level, at_line_begin: true, indent_level: 0 }
    }

    /// Dedents one piece of the heredoc.
    pub fn dedent(&mut self, string: &str) -> (r: String)
        requires
            old(self).indent_level + 8 * string@.len() + 8 <= usize::MAX,
        ensures
            ({
                let (text, alb, ind) = dedent_spec(old(self).dedent_level as int, old(self).at_line_begin, old(self).indent_level as int, string@);
                &&& r@ == text
                &&& final(self).at_line_begin == alb
                &&& final(self).indent_level == ind
                &&& final(self).dedent_level == old(self).dedent_level
            }),
    {
        let cs = chars_of(string);
        let len = cs.len();
        if self.at_line_begin {
            let mut k: usize = 0;
            let mut ws: usize = 0;
            let ghost ind0 = self.indent_level as int;
            let dl = self.dedent_level;
            while k < len && cs[k] != '\n' && self.indent_level < dl
                invariant
                    cs@ == string@,
                    len == cs@.len(),
                    k <= len,
                    dl == self.dedent_level,
                    self.at_line_begin,
                    ws == indent_chars(cs@.take(k as int)),
                    ws <= k,
                    self.indent_level == indent_after(ind0, cs@.take(k as int)),
                    self.indent_level <= ind0 + 8 * k,
                    ind0 + 8 * cs@.len() + 8 <= usize::MAX,
                    line_begin_end(dl as int, ind0, cs@, 0) == line_begin_end(dl as int, self.indent_level as int, cs@, k as int),
                decreases len - k,
            {
                assert(cs@.take(k + 1).drop_last() =~= cs@.take(k as int));
                let c = cs[k];
                if c == ' ' {
                    self.indent_level = self.indent_level + 1;
                    ws = ws + 1;
                } else if c == '\t' {
                    self.indent_level = self.indent_level + 8 - self.indent_level % 8;
                    ws = ws + 1;
                }
                k = k + 1;
            }
            let ghost found = k < len;
            let text = skip_chars(&cs, ws);
            if k < len {
                assert(line_begin_end(dl as int, ind0, cs@, 0) == Some(k as int));
                assert(cs@.last() == cs@[len - 1]);
                if cs[len - 1] == '\n' {
                    self.at_line_begin = true;
                    self.indent_level = 0;
                } else {
                    self.at_line_begin = false;
                    let c = cs[k];
                    if c == ' ' {
                        self.indent_level = self.indent_level + 1;
                    } else if c == '\t' {
                        self.indent_level = self.indent_level + 8 - self.indent_level % 8;
                    }
                }
            } else {
                assert(cs@.take(k as int) =~= cs@);
                assert(line_begin_end(dl as int, ind0, cs@, 0) == line_begin_end(dl as int, self.indent_level as int, cs@, k as int));
            }
            string_of(&text)
        } else {
            if len > 0 && cs[len - 1] == '\n' {
                self.at_line_begin = true;
                self.indent_level = 0;
            }
            string_of(&cs)
        }
    }

    /// A part that is not literal text interrupts the line beginning.
    pub fn interrupt(&mut self)
        ensures
            !final(self).at_line_begin,
            final(self).indent_level == old(self).indent_level,
            final(self).dedent_level == old(self).dedent_level,
    {
        self.at_line_begin = false
    }

    /// The dedenter's state before part `i` of `parts`, starting from
    /// `(alb, ind)`: string parts go through `dedent_spec`, other parts
    /// interrupt the line beginning.
    pub open spec fn state_before(dedent_level: int, alb: bool, ind: int, parts: Seq<Rc<Node>>, i: int) -> (bool, int)
        decreases i,
    {
        if i <= 0 {
            (alb, ind)
        } else {
            let (a, n) = Self::state_before(dedent_level, alb, ind, parts, i - 1);
            match *parts[i - 1] {
                Node::String(_, v) => {
                    let (_, a2, n2) = dedent_spec(dedent_level, a, n, v@);
                    (a2, n2)
                },
                _ => (false, n),
            }
        }
    }

    /// The parts of an interpolated heredoc with the literal parts dedented.
    pub fn dedent_parts(parts: &Vec<Rc<Node>>, dedenter: Dedenter) -> (r: Vec<Rc<Node>>)
        requires
            forall|i: int| 0 <= i < parts@.len() ==> #[trigger] indent_bound(
                Self::state_before(dedenter.dedent_level as int, dedenter.at_line_begin, dedenter.indent_level as int, parts@, i).1,
                *parts@[i]),
        ensures
            r@.len() == parts@.len(),
            forall|i: int| 0 <= i < parts@.len() ==> dedented_part(dedenter.dedent_level as int,
                Self::state_before(dedenter.dedent_level as int, dedenter.at_line_begin, dedenter.indent_level as int, parts@, i),
                parts@[i], #[trigger] r@[i]),
    {
        let mut dedenter = dedenter;
        let ghost d0 = dedenter;
        let mut out: Vec<Rc<Node>> = Vec::new();
        let mut i: usize = 0;
        while i < parts.len()
            invariant
                i <= parts@.len(),
                out@.len() == i,
                dedenter.dedent_level == d0.dedent_level,
                (dedenter.at_line_begin, dedenter.indent_level as int) == Self::state_before(d0.dedent_level as int, d0.at_line_begin, d0.indent_level as int, parts@, i as int),
                forall|j: int| 0 <= j < parts@.len() ==> #[trigger] indent_bound(
                    Self::state_before(d0.dedent_level as int, d0.at_line_begin, d0.indent_level as int, parts@, j).1,
                    *parts@[j]),
                forall|j: int| 0 <= j < i ==> dedented_part(d0.dedent_level as int,
                    Self::state_before(d0.dedent_level as int, d0.at_line_begin, d0.indent_level as int, parts@, j),
                    parts@[j], #[trigger] out@[j]),
            decreases parts@.len() - i,
        {
            let part = &parts[i];
            assert(indent_bound(Self::state_before(d0.dedent_level as int, d0.at_line_begin, d0.indent_level as int, parts@, i as int).1, *parts@[i as int]));
            let ghost st = Self::state_before(d0.dedent_level as int, d0.at_line_begin, d0.indent_level as int, parts@, i as int);
            let n = match &**part {
                Node::String(loc, val) => Rc::new(Node::String(loc.clone(), dedenter.dedent(val.as_str()))),
                _ => {
                    dedenter.interrupt();
                    Rc::clone(part)
                },
            };
            out.push(n);
            assert(Self::state_before(d0.dedent_level as int, d0.at_line_begin, d0.indent_level as int, parts@, i + 1)
                == (dedenter.at_line_begin, dedenter.indent_level as int));
            assert(dedented_part(d0.dedent_level as int, st, parts@[i as int], out@[i as int]));
            i = i + 1;
        }
        out
    }
}

/// `q` is part `p` of a heredoc dedented from state `st`: literal parts
/// are dedented, other parts stay.
pub open spec fn dedented_part(dedent_level: int, st: (bool, int), p: Rc<Node>, q: Rc<Node>) -> bool {
    match *p {
        Node::String(l, v) => *q matches Node::String(ql, qv) && ql == l
            && qv@ == dedent_spec(dedent_level, st.0, st.1, v@).0,
        _ => q == p,
    }
}

/// The dedenter's indentation `ind` leaves room to count the columns of a
/// string part.
pub open spec fn indent_bound(ind: int, part: Node) -> bool {
    match part {
        Node::String(_, v) => ind + 8 * v@.len() + 8 <= usize::MAX,
        _ => true,
    }
}

/// The characters of `cs` from index `n` on.
fn skip_chars(cs: &Vec<char>, n: usize) -> (r: Vec<char>)
    requires
        n <= cs@.len(),
    ensures
        r@ == cs@.skip(n as int),
{
    let mut r: Vec<char> = Vec::new();
    let mut i: usize = n;
    while i < cs.len()
        invariant
            n <= i <= cs@.len(),
            r@ == cs@.subrange(n as int, i as int),
        decreases cs@.len() - i,
    {
        r.push(cs[i]);
        i = i + 1;
        assert(r@ =~= cs@.subrange(n as int, i as int));
    }
    assert(cs@.subrange(n as int, cs@.len() as int) =~= cs@.skip(n as int));
    r
}

/// `q` is part `p` of a `%I[...]` array: string parts become symbols,
/// interpolated strings interpolated symbols, and other parts stay.
pub open spec fn symbolized(p: Rc<Node>, q: Rc<Node>) -> bool {
    match *p {
        Node::String(l, v) => *q matches Node::Symbol(ql, qv) && ql == l && qv@ == v@,
        Node::DString(l, ps) => *q matches Node::DSymbol(ql, qs) && ql == l && qs@ == ps@,
        _ => q == p,
    }
}

/// Whether the characters of `s` ascend strictly.
pub open spec fn strictly_ascending(s: Seq<char>) -> bool {
    forall|i: int, j: int| 0 <= i < j < s.len() ==> s[i] < s[j]
}

/// The characters of `s` in ascending order, each once.
fn sorted_unique_chars(s: &str) -> (r: Vec<char>)
    ensures
        strictly_ascending(r@),
        forall|c: char| r@.contains(c) <==> s@.contains(c),
{
    let cs = chars_of(s);
    let mut r: Vec<char> = Vec::new();
    let mut i: usize = 0;
    while i < cs.len()
        invariant
            cs@ == s@,
            i <= cs@.len(),
            strictly_ascending(r@),
            forall|c: char| r@.contains(c) <==> cs@.take(i as int).contains(c),
        decreases cs@.len() - i,
    {
        let c = cs[i];
        let mut p: usize = 0;
        while p < r.len() && r[p] < c
            invariant
                p <= r@.len(),
                forall|k: int| 0 <= k < p ==> r@[k] < c,
            decreases r@.len() - p,
        {
            p = p + 1;
        }
        let ghost old_r = r@;
        if p < r.len() && r[p] == c {
        } else {
            r.insert(p, c);
            assert(r@ =~= old_r.take(p as int).push(c) + old_r.skip(p as int));
            assert forall|a: int, b: int| 0 <= a < b < r@.len() implies r@[a] < r@[b] by {
                if b < p {
                    assert(r@[a] == old_r[a] && r@[b] == old_r[b]);
                } else if b == p {
                    assert(r@[a] == old_r[a]);
                } else if a < p {
                    assert(r@[a] == old_r[a] && r@[b] == old_r[b - 1]);
                } else if a == p {
                    assert(r@[b] == old_r[b - 1]);
                    assert(old_r[p as int] != c);
                    assert(c < old_r[p as int]);
                    if b - 1 > p {
                        assert(old_r[p as int] < old_r[b - 1]);
                    }
                } else {
                    assert(r@[a] == old_r[a - 1]);
                    assert(r@[b] == old_r[b - 1]);
                }
            }
        }
        proof {
            let t0 = cs@.take(i as int);
            let t1 = cs@.take(i + 1);
            assert(t1 =~= t0.push(c));
            assert forall|x: char| r@.contains(x) <==> t1.contains(x) by {
                if r@.contains(x) {
                    let k = choose|k: int| 0 <= k < r@.len() && #[trigger] r@[k] == x;
                    if x != c {
                        if r@ != old_r {
                            if k < p {
                                assert(old_r[k] == x);
                            } else {
                                assert(old_r[k - 1] == x);
                            }
                        }
                        assert(old_r.contains(x));
                        assert(t0.contains(x));
                        let m = choose|m: int| 0 <= m < t0.len() && #[trigger] t0[m] == x;
                        assert(t1[m] == x);
                    } else {
                        assert(t1[i as int] == c);
                    }
                }
                if t1.contains(x) {
                    let m = choose|m: int| 0 <= m < t1.len() && #[trigger] t1[m] == x;
                    if m < i {
                        assert(t0[m] == x);
                        assert(old_r.contains(x));
                        let k = choose|k: int| 0 <= k < old_r.len() && #[trigger] old_r[k] == x;
                        if r@ != old_r {
                            if k < p {
                                assert(r@[k] == x);
                            } else {
                                assert(r@[k + 1] == x);
                            }
                        }
                    } else {
                        assert(r@[p as int] == c);
                    }
                }
            }
        }
        i = i + 1;
    }
    assert(cs@.take(cs@.len() as int) =~= cs@);
    r
}

/// Nodes that `assign` completes.
pub open spec fn is_assign_target(n: Node) -> bool {
    n is Send || n is CSend || n is LvarLhs || n is ConstLhs || n is CvarLhs || n is IvarLhs || n is GvarLhs
}

/// Nodes that `assignable` turns into targets.
pub open spec fn is_assignable(n: Node) -> bool {
    n is Ident || n is Ivar || n is Const || n is Cvar || n is Gvar
}

/// Argument nodes: plain, optional, keyword, rest and block arguments, and
/// typed arguments, `procarg0` and destructurings that wrap them.
pub open spec fn is_arg_node(n: Rc<Node>) -> bool
    decreases n,
{
    match *n {
        Node::Procarg0(_, arg) => is_arg_node(arg),
        Node::TyTypedArg(_, _, arg) => is_arg_node(arg),
        Node::Mlhs(_, items) => forall|i: int| 0 <= i < items@.len() ==> is_arg_node(#[trigger] items@[i]),
        Node::Arg(..) | Node::Blockarg(..) | Node::Kwarg(..) | Node::Kwoptarg(..)
        | Node::Kwrestarg(..) | Node::Optarg(..) | Node::Restarg(..) => true,
        _ => false,
    }
}

/// The name `name` as an argument list collects it: names starting with
/// `_` may repeat and are left out.
pub open spec fn kept_name(name: Seq<char>) -> Seq<Seq<char>> {
    if name.len() > 0 && name[0] == '_' { seq![] } else { seq![name] }
}

/// The names an argument node declares, in order, those starting with `_`
/// left out.
pub open spec fn arg_names(n: Rc<Node>) -> Seq<Seq<char>>
    decreases n, 1int,
{
    match *n {
        Node::Procarg0(_, a) => arg_names(a),
        Node::TyTypedArg(_, _, a) => arg_names(a),
        Node::Mlhs(_, items) => arg_names_list(items@, items@.len() as int),
        Node::Arg(_, name) => kept_name(name@),
        Node::Kwarg(_, name) => kept_name(name@),
        Node::Blockarg(_, Some(id)) => kept_name(id.1@),
        Node::Kwrestarg(_, Some(id)) => kept_name(id.1@),
        Node::Restarg(_, Some(id)) => kept_name(id.1@),
        Node::Kwoptarg(_, id, _) => kept_name(id.1@),
        Node::Optarg(_, id, _) => kept_name(id.1@),
        _ => seq![],
    }
}

/// The names the first `k` argument nodes of `ns` declare, in order.
pub open spec fn arg_names_list(ns: Seq<Rc<Node>>, k: int) -> Seq<Seq<char>>
    decreases ns, k,
{
    if k <= 0 || k > ns.len() {
        seq![]
    } else {
        arg_names_list(ns, k - 1) + arg_names(ns[k - 1])
    }
}

/// Names as text.
pub open spec fn names_view(v: Seq<String>) -> Seq<Seq<char>> {
    v.map_values(|s: String| s@)
}

/// Walks the names of an argument list, adding to `names` each name it
/// declares that does not start with `_`. A repeated name is not reported.
#[verifier::loop_isolation(false)]
fn check_duplicate_args_inner(names: &mut Vec<String>, arg: &Rc<Node>)
    requires
        is_arg_node(*arg),
    ensures
        names_view(final(names)@) == names_view(old(names)@) + arg_names(*arg),
    decreases *arg,
{
    let name: Option<&String> = match &**arg {
        Node::Procarg0(_, inner) => {
            check_duplicate_args_inner(names, inner);
            return;
        },
        Node::TyTypedArg(_, _, inner) => {
            check_duplicate_args_inner(names, inner);
            return;
        },
        Node::Mlhs(_, items) => {
            let ghost n0 = names_view(names@);
            let mut i: usize = 0;
            assert(n0 + arg_names_list(items@, 0) =~= n0);
            while i < items.len()
                invariant
                    i <= items@.len(),
                    forall|j: int| 0 <= j < items@.len() ==> is_arg_node(#[trigger] items@[j]),
                    names_view(names@) == n0 + arg_names_list(items@, i as int),
                decreases items@.len() - i,
            {
                proof {
                    assert(decreases_to!(*arg => items@[i as int]));
                }
                check_duplicate_args_inner(names, &items[i]);
                i = i + 1;
                assert(names_view(names@) =~= n0 + arg_names_list(items@, i as int));
            }
            return;
        },
        Node::Arg(_, name) => Some(name),
        Node::Blockarg(_, None) => None,
        Node::Blockarg(_, Some(Id(_, name))) => Some(name),
        Node::Kwarg(_, name) => Some(name),
        Node::Kwoptarg(_, Id(_, name), _) => Some(name),
        Node::Kwrestarg(_, None) => None,
        Node::Kwrestarg(_, Some(Id(_, name))) => Some(name),
        Node::Optarg(_, Id(_, name), _) => Some(name),
        Node::Restarg(_, None) => None,
        Node::Restarg(_, Some(Id(_, name))) => Some(name),
        _ => None,
    };
    let ghost before = names_view(names@);
    if let Some(name) = name {
        let cs = chars_of(name.as_str());
        if cs.len() > 0 && cs[0] == '_' {
            assert(before + arg_names(*arg) =~= before);
            return;
        }
        names.push(name.clone());
        assert(names_view(names@) =~= before + arg_names(*arg));
    } else {
        assert(before + arg_names(*arg) =~= before);
    }
}

fn check_duplicate_args(args: &Vec<Rc<Node>>)
    requires
        forall|i: int| 0 <= i < args@.len() ==> is_arg_node(#[trigger] args@[i]),
{
    let mut i: usize = 0;
    while i < args.len()
        invariant
            i <= args@.len(),
            forall|j: int| 0 <= j < args@.len() ==> is_arg_node(#[trigger] args@[j]),
        decreases args@.len() - i,
    {
        let mut names: Vec<String> = Vec::new();
        check_duplicate_args_inner(&mut names, &args[i]);
        i = i + 1;
    }
}

} // verus!
