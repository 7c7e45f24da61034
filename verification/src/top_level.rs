//! The declarations of a file as the top-level pass sees them: which files
//! are checked, and how `class` and `module` statements find or make the
//! classes and modules they open.

use std::rc::Rc;
use vstd::prelude::*;
use crate::ast::{join_locs, Id, Loc, Node, SourceFile};
use crate::environment::{cpath_lookup, resolve_cpath, scope_at, scope_in};
use crate::errors::{Report, ReportView};
use crate::object::{sup_of, superclass_in, ConstantEntry, ObjectGraph, RubyObject, Scope};
use crate::resolve::report1;
use crate::abstract_type::{scope_extended, TypeNode, TypeScope};
use crate::resolve::{lemma_extended_constant, type_is};
use crate::text::{chars_of, push_str};

verus! {

broadcast use vstd::string::group_string_axioms;

/// Whether a file is checked: files that declare themselves TypedRuby are,
/// plain Ruby files are only read for their declarations.
#[derive(Clone, Copy, PartialEq, Eq, Debug, Structural)]
pub enum SourceType {
    TypedRuby,
    Ruby,
}

/// Which accessor methods an `attr_*` call declares.
#[derive(Clone, Copy, PartialEq, Eq, Debug, Structural)]
pub enum AttrType {
    Reader,
    Writer,
    Accessor,
}

impl AttrType {
    /// Whether a reader method is declared.
    pub fn reader(self) -> (r: bool)
        ensures
            r == (self is Reader || self is Accessor),
    {
        match self {
            AttrType::Reader | AttrType::Accessor => true,
            AttrType::Writer => false,
        }
    }

    /// Whether a writer method is declared.
    pub fn writer(self) -> (r: bool)
        ensures
            r == (self is Writer || self is Accessor),
    {
        match self {
            AttrType::Writer | AttrType::Accessor => true,
            AttrType::Reader => false,
        }
    }
}

// ---------------------------------------------------------------------------
// Which files are checked

/// Where the line that starts at `pos` ends: at the next newline, or at
/// the end of the text.
pub open spec fn line_end_at(s: Seq<char>, pos: int) -> int
    decreases s.len() - pos,
{
    if pos < 0 || pos >= s.len() || s[pos] == '\n' {
        pos
    } else {
        line_end_at(s, pos + 1)
    }
}

/// A line ends at or after where it starts, at a newline or at the end of
/// the text, with no newline before.
pub proof fn lemma_line_end(s: Seq<char>, pos: int)
    requires
        0 <= pos,
    ensures
        pos <= line_end_at(s, pos),
        pos <= s.len() ==> line_end_at(s, pos) <= s.len(),
        line_end_at(s, pos) < s.len() ==> s[line_end_at(s, pos)] == '\n',
        forall|k: int| pos <= k < line_end_at(s, pos) ==> s[k] != '\n',
    decreases s.len() - pos,
{
    if !(pos >= s.len() || s[pos] == '\n') {
        lemma_line_end(s, pos + 1);
    }
}

/// Whether `pat` occurs in `s` between `lo` and `hi`.
pub open spec fn occurs_in(s: Seq<char>, lo: int, hi: int, pat: Seq<char>) -> bool {
    exists|k: int| lo <= k && k + pat.len() <= hi && #[trigger] s.subrange(k, k + pat.len()) == pat
}

/// Whether, among the comment lines that open the text from `pos` on, one
/// mentions `@typedruby`.
pub open spec fn typed_header(s: Seq<char>, pos: int) -> bool
    decreases s.len() - pos,
{
    if pos < 0 || pos >= s.len() {
        false
    } else {
        let e = line_end_at(s, pos);
        if s[pos] != '#' {
            false
        } else if occurs_in(s, pos, e, "@typedruby"@) {
            true
        } else if e < s.len() {
            proof {
                lemma_line_end(s, pos);
            }
            typed_header(s, e + 1)
        } else {
            false
        }
    }
}

/// Whether `pat` starts at `k` in `s`.
fn matches_at(s: &Vec<char>, k: usize, pat: &Vec<char>) -> (r: bool)
    ensures
        r == (k + pat@.len() <= s@.len() && s@.subrange(k as int, k + pat@.len()) == pat@),
{
    if k > s.len() || pat.len() > s.len() - k {
        return false;
    }
    let n = s.len();
    let mut j: usize = 0;
    while j < pat.len()
        invariant
            n == s@.len(),
            k + pat@.len() <= s@.len(),
            j <= pat@.len(),
            forall|q: int| 0 <= q < j ==> s@[k + q] == pat@[q],
        decreases pat@.len() - j,
    {
        assert(k + j < s@.len());
        if s[k + j] != pat[j] {
            assert(s@.subrange(k as int, k + pat@.len())[j as int] != pat@[j as int]);
            return false;
        }
        j = j + 1;
    }
    assert(s@.subrange(k as int, k + pat@.len()) =~= pat@);
    true
}

/// Whether a file declares itself TypedRuby: one of the comment lines at
/// its top mentions `@typedruby`.
pub fn source_type_for_file(source_file: &SourceFile) -> (r: SourceType)
    ensures
        r == if typed_header(source_file.source@, 0) { SourceType::TypedRuby } else { SourceType::Ruby },
{
    let s = chars_of(source_file.source());
    let pat = chars_of("@typedruby");
    proof {
        reveal_strlit("@typedruby");
    }
    let mut pos: usize = 0;
    while pos < s.len()
        invariant
            s@ == source_file.source@,
            pat@ == "@typedruby"@,
            pat@.len() == 10,
            pos <= s@.len(),
            typed_header(s@, pos as int) == typed_header(s@, 0),
        decreases s@.len() - pos,
    {
        if s[pos] != '#' {
            return SourceType::Ruby;
        }
        let mut e: usize = pos;
        while e < s.len() && s[e] != '\n'
            invariant
                pos <= e <= s@.len(),
                line_end_at(s@, pos as int) == line_end_at(s@, e as int),
            decreases s@.len() - e,
        {
            e = e + 1;
        }
        let mut found = false;
        let mut k: usize = pos;
        while k < e
            invariant
                pos <= k <= e,
                e <= s@.len(),
                e == line_end_at(s@, pos as int),
                pat@ == "@typedruby"@,
                pat@.len() == 10,
                found ==> occurs_in(s@, pos as int, e as int, pat@),
                !found ==> forall|q: int| pos <= q < k ==> !(q + pat@.len() <= e
                    && #[trigger] s@.subrange(q, q + pat@.len()) == pat@),
            decreases e - k,
        {
            if !found && pat.len() <= e - k && matches_at(&s, k, &pat) {
                found = true;
                assert(s@.subrange(k as int, k + pat@.len()) == pat@);
            }
            k = k + 1;
        }
        if found {
            return SourceType::TypedRuby;
        }
        assert(!occurs_in(s@, pos as int, e as int, pat@));
        if e >= s.len() {
            return SourceType::Ruby;
        }
        proof {
            lemma_line_end(s@, pos as int);
        }
        pos = e + 1;
    }
    SourceType::Ruby
}

// ---------------------------------------------------------------------------
// What the pass reports

/// How serious a finding is.
#[derive(Clone, Copy, PartialEq, Eq, Debug, Structural)]
pub enum Severity {
    Error,
    Warning,
}

/// A finding of the pass, in the order found.
pub struct Notice {
    pub severity: Severity,
    pub report: Report,
}

/// Notices as what they say.
pub open spec fn notices_view(v: Seq<Notice>) -> Seq<(Severity, ReportView)> {
    v.map_values(|n: Notice| (n.severity, n.report@))
}

/// What emitting the notices `ns` adds where notices are emitted (`emit`)
/// or not.
pub open spec fn emitted(emit: bool, ns: Seq<(Severity, ReportView)>) -> Seq<(Severity, ReportView)> {
    if emit { ns } else { seq![] }
}

/// Adds a notice with one place, where notices are emitted.
pub(crate) fn notice1(notes: &mut Vec<Notice>, emit: bool, severity: Severity, message: &str, label: &str, loc: &Loc)
    ensures
        notices_view(final(notes)@) == notices_view(old(notes)@)
            + emitted(emit, seq![(severity, report1(message@, label@, *loc))]),
{
    if emit {
        let mut details: Vec<(String, Loc)> = Vec::new();
        details.push((label.to_owned(), loc.clone()));
        let report = Report { message: message.to_owned(), details };
        assert(report@.1 =~= seq![(label@, *loc)]);
        notes.push(Notice { severity, report });
        assert(notices_view(notes@) =~= notices_view(old(notes)@)
            + emitted(emit, seq![(severity, report1(message@, label@, *loc))]));
    } else {
        assert(notices_view(notes@) =~= notices_view(old(notes)@) + emitted(emit, seq![]));
    }
}

/// Adds a notice with two places, where notices are emitted.
pub(crate) fn notice2(notes: &mut Vec<Notice>, emit: bool, severity: Severity, message: &str, label1: &str, loc1: &Loc,
    label2: &str, loc2: &Loc)
    ensures
        notices_view(final(notes)@) == notices_view(old(notes)@)
            + emitted(emit, seq![(severity, (message@, seq![(label1@, *loc1), (label2@, *loc2)]))]),
{
    if emit {
        let mut details: Vec<(String, Loc)> = Vec::new();
        details.push((label1.to_owned(), loc1.clone()));
        details.push((label2.to_owned(), loc2.clone()));
        let report = Report { message: message.to_owned(), details };
        assert(report@.1 =~= seq![(label1@, *loc1), (label2@, *loc2)]);
        notes.push(Notice { severity, report });
        assert(notices_view(notes@) =~= notices_view(old(notes)@)
            + emitted(emit, seq![(severity, (message@, seq![(label1@, *loc1), (label2@, *loc2)]))]));
    } else {
        assert(notices_view(notes@) =~= notices_view(old(notes)@) + emitted(emit, seq![]));
    }
}

// ---------------------------------------------------------------------------
// Static references

/// The class or module a statically known expression names: `self` the
/// module of the scope, a constant path the class or module it holds; or
/// where and why it could not be known.
pub open spec fn static_ref(g: ObjectGraph, scope: Scope, node: Node) -> Result<usize, (Loc, Seq<char>)> {
    match node {
        Node::Self_(_) => Ok(scope.module),
        Node::Const(..) => match cpath_lookup(g, node, scope) {
            Ok(c) => match *c {
                ConstantEntry::Module { value, .. } => Ok(value),
                ConstantEntry::Expression { .. } => Err((node.spec_loc(), "Not a static class/module"@)),
            },
            Err(e) => Err(e),
        },
        _ => Err((node.spec_loc(), "unknown static node"@)),
    }
}

/// Where the name of a `class` or `module` statement puts the constant:
/// the module its base names, or the scope's module without a base; and
/// the constant's name.
pub open spec fn decl_ref(g: ObjectGraph, scope: Scope, name: Node) -> Result<(usize, Seq<char>), (Loc, Seq<char>)> {
    match name {
        Node::Const(_, Some(base), id) => match cpath_lookup(g, *base, scope) {
            Ok(c) => match *c {
                ConstantEntry::Module { value, .. } => Ok((value, id.1@)),
                ConstantEntry::Expression { .. } => Err(((*base).spec_loc(), "Not a static class/module"@)),
            },
            Err(e) => Err(e),
        },
        Node::Const(_, None, id) => Ok((scope.module, id.1@)),
        _ => Err((name.spec_loc(), "Class name is not a static constant"@)),
    }
}

/// The class or module a statically known expression names.
pub fn resolve_static(graph: &ObjectGraph, scope: &Rc<Scope>, node: &Node) -> (r: Result<usize, (Loc, &'static str)>)
    requires
        graph.wf(),
        scope_in(*graph, **scope),
    ensures
        match r {
            Ok(m) => static_ref(*graph, **scope, *node) == Ok::<usize, (Loc, Seq<char>)>(m)
                && m < graph@.len() && !(graph@[m as int] is IClass),
            Err((l, msg)) => static_ref(*graph, **scope, *node) == Err::<usize, (Loc, Seq<char>)>((l, msg@)),
        },
{
    match node {
        Node::Self_(_) => {
            assert(crate::object::scope_modules(**scope)[0] == scope.module);
            Ok(scope.module)
        },
        Node::Const(..) => match resolve_cpath(graph, node, scope) {
            Ok(c) => match c.module() {
                Some(m) => Ok(m),
                None => Err((node.loc().clone(), "Not a static class/module")),
            },
            Err(e) => Err(e),
        },
        _ => Err((node.loc().clone(), "unknown static node")),
    }
}

/// Where the name of a `class` or `module` statement puts the constant,
/// and the constant's name.
pub fn resolve_decl_ref(graph: &ObjectGraph, scope: &Rc<Scope>, name: &Node) -> (r: Result<(usize, String), (Loc, &'static str)>)
    requires
        graph.wf(),
        scope_in(*graph, **scope),
    ensures
        match r {
            Ok((m, id)) => decl_ref(*graph, **scope, *name) == Ok::<(usize, Seq<char>), (Loc, Seq<char>)>((m, id@))
                && m < graph@.len() && !(graph@[m as int] is IClass),
            Err((l, msg)) => decl_ref(*graph, **scope, *name) == Err::<(usize, Seq<char>), (Loc, Seq<char>)>((l, msg@)),
        },
{
    match name {
        Node::Const(_, base, id) => match base {
            Some(base_node) => match resolve_cpath(graph, base_node, scope) {
                Ok(c) => match c.module() {
                    Some(m) => Ok((m, id.1.clone())),
                    None => Err((base_node.loc().clone(), "Not a static class/module")),
                },
                Err(e) => Err(e),
            },
            None => {
                assert(crate::object::scope_modules(**scope)[0] == scope.module);
                Ok((scope.module, id.1.clone()))
            },
        },
        _ => Err((name.loc().clone(), "Class name is not a static constant")),
    }
}

// ---------------------------------------------------------------------------
// Declarations

/// The constant `name` as a class or module statement on `o` sees it: its
/// own, and on `Object` also those of `Object`'s ancestors.
pub open spec fn const_for_definition(g: ObjectGraph, o: usize, name: Seq<char>) -> Option<Rc<ConstantEntry>> {
    match g.const_of(o, name) {
        Some(c) => Some(c),
        None => if o == g.object_index() {
            match sup_of(g@[o as int]) {
                Some(s) => g.const_seen(s, name),
                None => None,
            }
        } else {
            None
        },
    }
}

/// The report that a constant is defined otherwise than a statement
/// expects: the place of the statement, and the earlier definition where
/// it is known.
pub open spec fn definition_report(msg: Seq<char>, loc: Loc, earlier: Option<Loc>) -> ReportView {
    (msg, match earlier {
        Some(l) => seq![("here"@, loc), ("previously defined here"@, l)],
        None => seq![("here"@, loc)],
    })
}

fn constant_definition_error(notes: &mut Vec<Notice>, emit: bool, message: &str, loc: &Loc, definition: Option<&Loc>)
    ensures
        notices_view(final(notes)@) == notices_view(old(notes)@) + emitted(emit, seq![(Severity::Error,
            definition_report(message@, *loc, match definition { Some(l) => Some(*l), None => None }))]),
{
    match definition {
        Some(l) => notice2(notes, emit, Severity::Error, message, "here", loc, "previously defined here", l),
        None => notice1(notes, emit, Severity::Error, message, "here", loc),
    }
}

/// `id` followed by `suffix`.
fn message_for(id: &String, suffix: &str) -> (r: String)
    ensures
        r@ == id@ + suffix@,
{
    let mut m = id.clone();
    push_str(&mut m, suffix);
    m
}

/// What a `module` statement named `name` does in `scope`: the module
/// whose body it opens, if any, and what it reports. Where the constant
/// is not defined yet, a new module is made (the next object) and the
/// constant bound to it.
pub open spec fn module_decl(g: ObjectGraph, scope: Scope, name: Node) -> (Option<usize>, Seq<(Severity, ReportView)>) {
    match decl_ref(g, scope, name) {
        Err((l, msg)) => (None, seq![(Severity::Error, report1(msg, "here"@, l))]),
        Ok((base, id)) => match const_for_definition(g, base, id) {
            Some(c) => match *c {
                ConstantEntry::Expression { loc, .. } =>
                    (None, seq![(Severity::Error, definition_report(id + " is not a static module"@, name.spec_loc(), Some(loc)))]),
                ConstantEntry::Module { value, loc } => if g@[value as int] is Module {
                    (Some(value), seq![])
                } else {
                    (Some(value), seq![(Severity::Error, definition_report(id + " is not a module"@, name.spec_loc(), loc))])
                },
            },
            None => (Some(g@.len() as usize), seq![]),
        },
    }
}

/// Whether a `module` statement named `name` makes a new module.
pub open spec fn module_made(g: ObjectGraph, scope: Scope, name: Node) -> bool {
    decl_ref(g, scope, name) matches Ok((base, id)) && const_for_definition(g, base, id) is None
}

/// What a `module` statement named `name` in `scope` does to the graph
/// `g0` and the notices `n0`, giving `g1`, `n1` and the module `r` it opens.
pub open spec fn module_done(g0: ObjectGraph, g1: ObjectGraph, n0: Seq<(Severity, ReportView)>, n1: Seq<(Severity, ReportView)>, scope: Scope, name: Node, emit: bool, r: Option<usize>) -> bool {
    &&& g1.wf()
    &&& r == module_decl(g0, scope, name).0
    &&& n1 == n0 + emitted(emit, module_decl(g0, scope, name).1)
    &&& r matches Some(m) ==> m < g1@.len() && !(g1@[m as int] is IClass)
    &&& if module_made(g0, scope, name) {
        let (base, id) = decl_ref(g0, scope, name)->Ok_0;
        &&& made_and_bound(g0, g1, base, id, name.spec_loc(), g1@.last())
        &&& g1@.last() matches RubyObject::Module { name: n, superclass, type_parameters, .. }
            && n@ == (if base == g0.object_index() { id } else {
                crate::object::obj_name(g0@, base as int) + "::"@ + id })
            && superclass is None && type_parameters@.len() == 0
    } else {
        g1 == g0
    }
}

/// Opens the module that a `module` statement names: an existing module
/// bound to the constant, or a new one where the constant is not defined
/// yet. Gives back the module whose body is to be read, if there is one.
pub fn decl_module(graph: &mut ObjectGraph, scope: &Rc<Scope>, name: &Node, emit: bool, notes: &mut Vec<Notice>)
    -> (r: Option<usize>)
    requires
        old(graph).wf(),
        scope_in(*old(graph), **scope),
        old(graph)@.len() + 1 < usize::MAX,
    ensures
        module_done(*old(graph), *final(graph), notices_view(old(notes)@), notices_view(final(notes)@), **scope, *name, emit, r),
{
    match resolve_decl_ref(graph, scope, name) {
        Err((l, msg)) => {
            notice1(notes, emit, Severity::Error, msg, "here", &l);
            None
        },
        Ok((base, id)) => {
            match graph.get_const_for_definition(base, id.as_str()) {
                Some(c) => {
                    match &*c {
                        ConstantEntry::Expression { loc, .. } => {
                            let msg = message_for(&id, " is not a static module");
                            constant_definition_error(notes, emit, msg.as_str(), name.loc(), Some(loc));
                            None
                        },
                        ConstantEntry::Module { value, loc } => {
                            match graph.object(*value) {
                                RubyObject::Module { .. } => {
                                    assert(notices_view(notes@) =~= notices_view(old(notes)@) + emitted(emit, seq![]));
                                    Some(*value)
                                },
                                _ => {
                                    let msg = message_for(&id, " is not a module");
                                    match loc {
                                        Some(l) => constant_definition_error(notes, emit, msg.as_str(), name.loc(), Some(l)),
                                        None => constant_definition_error(notes, emit, msg.as_str(), name.loc(), None),
                                    }
                                    Some(*value)
                                },
                            }
                        },
                    }
                },
                None => {
                    let ghost g0 = *graph;
                    let path = graph.constant_path(base, id.as_str());
                    let m = graph.new_module(path, Vec::new());
                    let ghost g1 = *graph;
                    proof {
                        ObjectGraph::lemma_consts_same(g0, g1);
                    }
                    let entry = Rc::new(ConstantEntry::Module { loc: Some(name.loc().clone()), value: m });
                    let set = graph.set_const(base, id.as_str(), entry);
                    assert(set is Ok);
                    proof {
                        ObjectGraph::lemma_objects_same(g1, *graph);
                        assert(graph@.drop_last() =~= g0@);
                    }
                    assert(notices_view(notes@) =~= notices_view(old(notes)@) + emitted(emit, seq![]));
                    Some(m)
                },
            }
        },
    }
}

/// What the superclass expression of a `class` statement gives: the
/// expression and the class it names, or nothing, with what is reported:
/// a class is needed, and an expression that is not static is passed over
/// with a warning.
pub open spec fn superclass_decl(g: ObjectGraph, scope: Scope, superclass: Option<Rc<Node>>)
    -> (Option<(Rc<Node>, usize)>, Seq<(Severity, ReportView)>)
{
    match superclass {
        None => (None, seq![]),
        Some(node) => match static_ref(g, scope, *node) {
            Ok(v) => if g@[v as int] is Class || g@[v as int] is Metaclass {
                (Some((node, v)), seq![])
            } else {
                (None, seq![(Severity::Error, report1("Superclass is not a class"@, "here"@, node.spec_loc()))])
            },
            Err((l, msg)) => (None, seq![(Severity::Warning, report1(msg, "here"@, l))]),
        },
    }
}

/// The type parameter a class declares with `param`.
pub open spec fn declared_param(param: Node) -> Id {
    match param {
        Node::TyGendeclarg(loc, name, _) => Id(loc, name),
        _ => vstd::pervasive::arbitrary(),
    }
}

/// The type parameters a class declares with `params`.
pub open spec fn declared_params(params: Seq<Rc<Node>>) -> Seq<Id> {
    params.map_values(|p: Rc<Node>| declared_param(*p))
}

/// What is reported of the constraints written on the type parameters of
/// a class: none are allowed.
pub open spec fn constraint_notes(params: Seq<Rc<Node>>) -> Seq<(Severity, ReportView)>
    decreases params.len(),
{
    if params.len() == 0 {
        seq![]
    } else {
        constraint_notes(params.drop_last()) + match *params.last() {
            Node::TyGendeclarg(_, _, Some(c)) => seq![(Severity::Error,
                report1("Type constraints not permitted on class type parameters"@, "here"@, c.spec_loc()))],
            _ => seq![],
        }
    }
}

/// The superclass a new class gets: the one written, else `Object`.
pub open spec fn new_class_super(g: ObjectGraph, sup: Option<(Rc<Node>, usize)>) -> usize {
    match sup {
        Some((_, s)) => s,
        None => g.object_index(),
    }
}

/// The type parameters of a new class and what is reported of them: its
/// own where its superclass is not generic, else the superclass's, and
/// writing any then is an error.
pub open spec fn new_class_params(g: ObjectGraph, sup: usize, params: Seq<Rc<Node>>)
    -> (Seq<Id>, Seq<(Severity, ReportView)>)
{
    let stps = crate::object::type_params(g@[sup as int]);
    if stps.len() == 0 {
        (declared_params(params), constraint_notes(params))
    } else if params.len() == 0 {
        (stps, seq![])
    } else {
        (stps, seq![(Severity::Error, report1("Subclasses of generic classes may not specify type parameters"@, "here"@,
            join_locs(params[0].spec_loc(), params.last().spec_loc())))])
    }
}

/// The name by which the superclass of a class is reported.
pub open spec fn superclass_name(g: ObjectGraph, s: Option<usize>) -> Seq<char> {
    match s {
        Some(c) => crate::object::obj_name(g@, c as int),
        None => "nil"@,
    }
}

/// What a `class` statement does in `scope`: the class whose body it
/// opens, if any, and what it reports. Where the constant is not defined
/// yet, a new class is made (the next object) and the constant bound to
/// it.
pub open spec fn class_decl(g: ObjectGraph, scope: Scope, name: Node, params: Seq<Rc<Node>>, superclass: Option<Rc<Node>>)
    -> (Option<usize>, Seq<(Severity, ReportView)>)
{
    let (sup, n1) = superclass_decl(g, scope, superclass);
    match decl_ref(g, scope, name) {
        Err((l, msg)) => (None, n1 + seq![(Severity::Warning, report1(msg, "here"@, l))]),
        Ok((base, id)) => match const_for_definition(g, base, id) {
            Some(c) => match *c {
                ConstantEntry::Expression { loc, .. } =>
                    (None, n1 + seq![(Severity::Error, definition_report(id + " is not a static class"@, name.spec_loc(), Some(loc)))]),
                ConstantEntry::Module { value, loc } => if g@[value as int] is Module {
                    (None, n1 + seq![(Severity::Error, definition_report(id + " is not a static class"@, name.spec_loc(), loc))])
                } else {
                    let existing = superclass_in(g@, crate::object::ancestry(g@, value).drop_first());
                    match sup {
                        Some((sn, s)) => if Some(s) != existing {
                            (Some(value), n1 + seq![(Severity::Error, report1(
                                "Superclass does not match existing superclass "@ + superclass_name(g, existing),
                                "here"@, sn.spec_loc()))])
                        } else {
                            (Some(value), n1)
                        },
                        None => (Some(value), n1),
                    }
                },
            },
            None => (Some(g@.len() as usize), n1 + new_class_params(g, new_class_super(g, sup), params).1),
        },
    }
}

/// Whether a `class` statement makes a new class.
pub open spec fn class_made(g: ObjectGraph, scope: Scope, name: Node) -> bool {
    decl_ref(g, scope, name) matches Ok((base, id)) && const_for_definition(g, base, id) is None
}

/// The type parameters are read one by one only where a new class is made
/// whose superclass is not generic; each must then be a declaration.
pub open spec fn params_readable(g: ObjectGraph, scope: Scope, name: Node, params: Seq<Rc<Node>>,
    superclass: Option<Rc<Node>>) -> bool
{
    (class_made(g, scope, name) && crate::object::type_params(
        g@[new_class_super(g, superclass_decl(g, scope, superclass).0) as int]).len() == 0)
        ==> forall|i: int| 0 <= i < params.len() ==> *(#[trigger] params[i]) is TyGendeclarg
}

/// Reads the superclass expression of a `class` statement.
fn decl_superclass(graph: &ObjectGraph, scope: &Rc<Scope>, superclass: &Option<Rc<Node>>, emit: bool, notes: &mut Vec<Notice>)
    -> (r: Option<(Rc<Node>, usize)>)
    requires
        graph.wf(),
        scope_in(*graph, **scope),
    ensures
        r == superclass_decl(*graph, **scope, *superclass).0,
        notices_view(final(notes)@) == notices_view(old(notes)@) + emitted(emit, superclass_decl(*graph, **scope, *superclass).1),
        r matches Some((_, s)) ==> s < graph@.len() && (graph@[s as int] is Class || graph@[s as int] is Metaclass),
{
    match superclass {
        None => {
            assert(notices_view(notes@) =~= notices_view(old(notes)@) + emitted(emit, seq![]));
            None
        },
        Some(node) => match resolve_static(graph, scope, node) {
            Ok(v) => match graph.object(v) {
                RubyObject::Class { .. } | RubyObject::Metaclass { .. } => {
                    assert(notices_view(notes@) =~= notices_view(old(notes)@) + emitted(emit, seq![]));
                    Some((Rc::clone(node), v))
                },
                _ => {
                    notice1(notes, emit, Severity::Error, "Superclass is not a class", "here", node.loc());
                    None
                },
            },
            Err((l, msg)) => {
                notice1(notes, emit, Severity::Warning, msg, "here", &l);
                None
            },
        },
    }
}

/// The type parameters a new class declares, with an error for each
/// constraint written on one.
fn declare_params(params: &[Rc<Node>], emit: bool, notes: &mut Vec<Notice>) -> (r: Vec<Id>)
    requires
        forall|i: int| 0 <= i < params@.len() ==> *(#[trigger] params@[i]) is TyGendeclarg,
    ensures
        r@ == declared_params(params@),
        notices_view(final(notes)@) == notices_view(old(notes)@) + emitted(emit, constraint_notes(params@)),
{
    let mut ids: Vec<Id> = Vec::new();
    let mut i: usize = 0;
    while i < params.len()
        invariant
            i <= params@.len(),
            forall|k: int| 0 <= k < params@.len() ==> *(#[trigger] params@[k]) is TyGendeclarg,
            ids@ == declared_params(params@.subrange(0, i as int)),
            notices_view(notes@) == notices_view(old(notes)@) + emitted(emit, constraint_notes(params@.subrange(0, i as int))),
        decreases params@.len() - i,
    {
        assert(params@.subrange(0, i + 1).drop_last() =~= params@.subrange(0, i as int));
        match &*params[i] {
            Node::TyGendeclarg(loc, name, constraint) => {
                if let Some(c) = constraint {
                    notice1(notes, emit, Severity::Error, "Type constraints not permitted on class type parameters", "here", c.loc());
                } else {
                    assert(notices_view(notes@) =~= notices_view(notes@) + emitted(emit, seq![]));
                }
                ids.push(Id(loc.clone(), name.clone()));
            },
            _ => {
                assert(false);
            },
        }
        i = i + 1;
        assert(ids@ =~= declared_params(params@.subrange(0, i as int)));
        assert(emitted(emit, constraint_notes(params@.subrange(0, i as int))) =~=
            emitted(emit, constraint_notes(params@.subrange(0, i - 1))) + emitted(emit,
                match *params@[i - 1] {
                    Node::TyGendeclarg(_, _, Some(c)) => seq![(Severity::Error,
                        report1("Type constraints not permitted on class type parameters"@, "here"@, c.spec_loc()))],
                    _ => seq![],
                }));
    }
    assert(params@.subrange(0, params@.len() as int) =~= params@);
    ids
}

/// A copy of the type parameters `ps`.
fn copy_params(ps: &[Id]) -> (r: Vec<Id>)
    ensures
        r@ == ps@,
{
    let mut v: Vec<Id> = Vec::new();
    let mut i: usize = 0;
    while i < ps.len()
        invariant
            i <= ps@.len(),
            v@ == ps@.subrange(0, i as int),
        decreases ps@.len() - i,
    {
        v.push(ps[i].clone());
        i = i + 1;
        assert(v@ =~= ps@.subrange(0, i as int));
    }
    assert(ps@.subrange(0, ps@.len() as int) =~= ps@);
    v
}

/// What a `class` statement does to the graph `g0` and the notices `n0`,
/// giving `g1`, `n1` and the class `r` it opens.
pub open spec fn class_done(g0: ObjectGraph, g1: ObjectGraph, n0: Seq<(Severity, ReportView)>, n1: Seq<(Severity, ReportView)>, scope: Scope, name: Node, params: Seq<Rc<Node>>, superclass: Option<Rc<Node>>, emit: bool, r: Option<usize>) -> bool {
    &&& g1.wf()
    &&& r == class_decl(g0, scope, name, params, superclass).0
    &&& n1 == n0
        + emitted(emit, class_decl(g0, scope, name, params, superclass).1)
    &&& r matches Some(m) ==> m < g1@.len() && !(g1@[m as int] is IClass)
    &&& if class_made(g0, scope, name) {
        let (base, id) = decl_ref(g0, scope, name)->Ok_0;
        let s = new_class_super(g0, superclass_decl(g0, scope, superclass).0);
        &&& made_and_bound(g0, g1, base, id, name.spec_loc(), g1@.last())
        &&& g1@.last() matches RubyObject::Class { name: n, superclass: sc, type_parameters: tps, .. }
            && n@ == (if base == g0.object_index() { id } else {
                crate::object::obj_name(g0@, base as int) + "::"@ + id })
            && sc == Some(s) && tps@ == new_class_params(g0, s, params).0
    } else {
        g1 == g0
    }
}

/// Opens the class that a `class` statement names: an existing class
/// bound to the constant, checked against the superclass written, or a new
/// one where the constant is not defined yet. Gives back the class whose
/// body is to be read, if there is one.
pub fn decl_class(
    graph: &mut ObjectGraph,
    scope: &Rc<Scope>,
    name: &Node,
    type_parameters: &[Rc<Node>],
    superclass: &Option<Rc<Node>>,
    emit: bool,
    notes: &mut Vec<Notice>,
) -> (r: Option<usize>)
    requires
        old(graph).wf(),
        scope_in(*old(graph), **scope),
        old(graph)@.len() + 1 < usize::MAX,
        params_readable(*old(graph), **scope, *name, type_parameters@, *superclass),
    ensures
        class_done(*old(graph), *final(graph), notices_view(old(notes)@), notices_view(final(notes)@), **scope, *name, type_parameters@, *superclass, emit, r),
{
    let ghost n0 = notices_view(notes@);
    let ghost sc = scope_at(scope);
    let sup = decl_superclass(graph, scope, superclass, emit, notes);
    let ghost n1 = superclass_decl(*graph, sc, *superclass).1;
    match resolve_decl_ref(graph, scope, name) {
        Err((l, msg)) => {
            notice1(notes, emit, Severity::Warning, msg, "here", &l);
            assert(notices_view(notes@) =~= n0 + emitted(emit, n1 + seq![(Severity::Warning, report1(msg@, "here"@, l))]));
            None
        },
        Ok((base, id)) => {
            match graph.get_const_for_definition(base, id.as_str()) {
                Some(c) => match &*c {
                    ConstantEntry::Expression { loc, .. } => {
                        let msg = message_for(&id, " is not a static class");
                        constant_definition_error(notes, emit, msg.as_str(), name.loc(), Some(loc));
                        assert(notices_view(notes@) =~= n0 + emitted(emit,
                            class_decl(*old(graph), **scope, *name, type_parameters@, *superclass).1));
                        None
                    },
                    ConstantEntry::Module { value, loc } => {
                        match graph.object(*value) {
                            RubyObject::Module { .. } => {
                                let msg = message_for(&id, " is not a static class");
                                match loc {
                                    Some(l) => constant_definition_error(notes, emit, msg.as_str(), name.loc(), Some(l)),
                                    None => constant_definition_error(notes, emit, msg.as_str(), name.loc(), None),
                                }
                                assert(notices_view(notes@) =~= n0 + emitted(emit,
                                    class_decl(*old(graph), **scope, *name, type_parameters@, *superclass).1));
                                None
                            },
                            _ => {
                                if let Some((sn, s)) = &sup {
                                    let existing = graph.superclass_of(*value);
                                    let differs = match existing {
                                        Some(e) => e != *s,
                                        None => true,
                                    };
                                    if differs {
                                        let mut msg = "Superclass does not match existing superclass ".to_owned();
                                        match existing {
                                            Some(e) => {
                                                let en = graph.name_of(e);
                                                push_str(&mut msg, en.as_str());
                                            },
                                            None => push_str(&mut msg, "nil"),
                                        }
                                        notice1(notes, emit, Severity::Error, msg.as_str(), "here", sn.loc());
                                    }
                                }
                                assert(notices_view(notes@) =~= n0 + emitted(emit,
                                    class_decl(*old(graph), **scope, *name, type_parameters@, *superclass).1));
                                Some(*value)
                            },
                        }
                    },
                },
                None => {
                    let s = match &sup {
                        Some((_, s)) => *s,
                        None => graph.object_class(),
                    };
                    let ghost nb = notices_view(notes@);
                    proof {
                        graph.lemma_named_in();
                    }
                    let stps = graph.object(s).type_parameters();
                    let tps = if stps.len() == 0 {
                        declare_params(type_parameters, emit, notes)
                    } else if type_parameters.len() == 0 {
                        assert(notices_view(notes@) =~= nb + emitted(emit, seq![]));
                        copy_params(stps)
                    } else {
                        let loc = type_parameters[0].loc().join(type_parameters[type_parameters.len() - 1].loc());
                        notice1(notes, emit, Severity::Error, "Subclasses of generic classes may not specify type parameters",
                            "here", &loc);
                        copy_params(stps)
                    };
                    assert(notices_view(notes@) =~= n0 + emitted(emit,
                        class_decl(*old(graph), **scope, *name, type_parameters@, *superclass).1));
                    let ghost g0 = *graph;
                    let path = graph.constant_path(base, id.as_str());
                    let m = graph.new_class(path, s, tps);
                    let ghost g1 = *graph;
                    proof {
                        ObjectGraph::lemma_consts_same(g0, g1);
                    }
                    let entry = Rc::new(ConstantEntry::Module { loc: Some(name.loc().clone()), value: m });
                    let set = graph.set_const(base, id.as_str(), entry);
                    assert(set is Ok);
                    proof {
                        ObjectGraph::lemma_objects_same(g1, *graph);
                        assert(graph@.drop_last() =~= g0@);
                    }
                    Some(m)
                },
            }
        },
    }
}

// ---------------------------------------------------------------------------
// Constant assignments

/// The module that the base of a constant assignment names: the scope's
/// module without one.
pub open spec fn cbase_of(g: ObjectGraph, scope: Scope, base: Option<Rc<Node>>) -> Result<usize, (Loc, Seq<char>)> {
    match base {
        None => Ok(scope.module),
        Some(b) => crate::environment::cbase_lookup(g, *b, scope),
    }
}

/// Where a constant assignment's target is written: its base and name.
pub open spec fn asgn_loc(base: Option<Rc<Node>>, name_loc: Loc) -> Loc {
    match base {
        Some(b) => join_locs(b.spec_loc(), name_loc),
        None => name_loc,
    }
}

/// Where a constant was defined, where that is known.
pub open spec fn earlier_loc(c: ConstantEntry) -> Option<Loc> {
    match c {
        ConstantEntry::Expression { loc, .. } => Some(loc),
        ConstantEntry::Module { loc, .. } => loc,
    }
}

/// A constant that takes the value of constant `c`, defined at `loc`.
pub open spec fn alias_entry(c: ConstantEntry, loc: Loc) -> ConstantEntry {
    match c {
        ConstantEntry::Expression { ty, scope_self, .. } => ConstantEntry::Expression { loc, ty, scope_self },
        ConstantEntry::Module { value, .. } => ConstantEntry::Module { value, loc: Some(loc) },
    }
}

/// The module a constant assignment defines its constant on, where it
/// does: the base must be known statically and must not define the
/// constant already.
pub open spec fn asgn_target(g: ObjectGraph, scope: Scope, base: Option<Rc<Node>>, name: Seq<char>) -> Option<usize> {
    match cbase_of(g, scope, base) {
        Ok(cb) => if g.const_of(cb, name) is None { Some(cb) } else { None },
        Err(_) => None,
    }
}

/// What a constant assignment reports before it looks at the value.
pub open spec fn asgn_target_notes(g: ObjectGraph, scope: Scope, base: Option<Rc<Node>>, name: Id)
    -> Seq<(Severity, ReportView)>
{
    match cbase_of(g, scope, base) {
        Ok(cb) => match g.const_of(cb, name.1@) {
            Some(c) => seq![(Severity::Error,
                definition_report("Duplicate constant definition"@, asgn_loc(base, name.0), earlier_loc(*c)))],
            None => seq![],
        },
        Err((l, msg)) => seq![(Severity::Warning, ("Could not statically resolve constant in assignment"@, seq![(msg, l)]))],
    }
}

/// The constant a constant assignment defines, where its value is not a
/// type cast: another constant's value, or an expression of any type. For
/// a constant that cannot be looked up, what is reported instead.
pub open spec fn asgn_entry(g: ObjectGraph, scope: Scope, loc: Loc, expr: Node) -> Result<ConstantEntry, (Severity, ReportView)> {
    match expr {
        Node::Const(..) => match cpath_lookup(g, expr, scope) {
            Ok(c) => Ok(alias_entry(*c, loc)),
            Err((l, msg)) => Err((Severity::Warning,
                ("Could not statically resolve expression in constant assignment"@, seq![(msg, l)]))),
        },
        _ => Ok(ConstantEntry::Expression {
            loc,
            ty: Rc::new(crate::abstract_type::TypeNode::Any { loc }),
            scope_self: scope.module,
        }),
    }
}

/// What the value of a constant assignment needs to be read: a type cast
/// must be a type the resolution accepts.
pub open spec fn asgn_value_ok(g: ObjectGraph, expr: Node) -> bool {
    expr matches Node::TyCast(_, _, tn) ==> crate::resolve::type_ok(g, *tn)
        && crate::resolve::doubled(g@.len() as nat, crate::resolve::type_budget(*tn)) < usize::MAX / 2
}

/// Reports of type resolution as errors.
pub open spec fn as_errors(rs: Seq<ReportView>) -> Seq<(Severity, ReportView)> {
    rs.map_values(|r: ReportView| (Severity::Error, r))
}

/// Adds each report of `reports` as an error notice.
fn push_errors(notes: &mut Vec<Notice>, reports: Vec<Report>)
    ensures
        notices_view(final(notes)@) == notices_view(old(notes)@) + as_errors(crate::errors::reports_view(reports@)),
{
    let ghost all = reports@;
    let mut reports = reports;
    let n = reports.len();
    let mut k: usize = 0;
    while reports.len() > 0
        invariant
            n == all.len(),
            k <= all.len(),
            reports@ == all.subrange(k as int, all.len() as int),
            notices_view(notes@) == notices_view(old(notes)@) + as_errors(crate::errors::reports_view(all.subrange(0, k as int))),
        decreases reports@.len(),
    {
        let r = reports.remove(0);
        assert(r == all[k as int]);
        let ghost prev = all.subrange(0, k as int);
        let ghost rv = r@;
        let ghost nb = notes@;
        notes.push(Notice { severity: Severity::Error, report: r });
        assert(notices_view(notes@) =~= notices_view(nb).push((Severity::Error, rv)));
        assert(all.subrange(0, k + 1) =~= prev.push(all[k as int]));
        assert(crate::errors::reports_view(prev.push(all[k as int])) =~= crate::errors::reports_view(prev).push(rv));
        assert(as_errors(crate::errors::reports_view(prev).push(rv)) =~= as_errors(crate::errors::reports_view(prev)).push((Severity::Error, rv)));
        k = k + 1;
        assert(notices_view(notes@) =~= notices_view(old(notes)@) + as_errors(crate::errors::reports_view(all.subrange(0, k as int))));
        assert(reports@ =~= all.subrange(k as int, all.len() as int));
    }
    assert(all.subrange(0, k as int) =~= all);
}

/// What a constant assignment outside a method body does to the graph
/// `g0` and the notices `n0`, giving `g1` and `n1`.
pub open spec fn constant_done(g0: ObjectGraph, g1: ObjectGraph, n0: Seq<(Severity, ReportView)>, n1: Seq<(Severity, ReportView)>, scope: Rc<Scope>, base: Option<Rc<Node>>, name: Id, expr: Node, emit: bool) -> bool {
    &&& g1.wf()
    &&& match asgn_target(g0, *scope, base, name.1@) {
        None => {
            &&& g1 == g0
            &&& n1 == n0
                + emitted(emit, asgn_target_notes(g0, *scope, base, name))
        },
        Some(cb) => match expr {
            Node::TyCast(_, _, tn) => {
                let ts = scope_extended(TypeScope::Constant { scope: scope },
                    crate::object::type_params(g0@[scope.module as int]));
                &&& n1 == n0
                    + as_errors(crate::resolve::type_reps(g0, ts, *tn))
                &&& g1.const_of(cb, name.1@) matches Some(e)
                    && *e matches ConstantEntry::Expression { loc, ty, scope_self }
                    && loc == asgn_loc(base, name.0) && scope_self == scope.module
                    && exists|mid: ObjectGraph| #[trigger] crate::object::grows_mc(g0, mid)
                        && mid@ == g1@ && type_is(g0, mid, ts, *tn, *ty)
                &&& forall|o2: usize, n2: Seq<char>| !(o2 == cb && n2 == name.1@)
                    ==> #[trigger] g1.const_of(o2, n2) == g0.const_of(o2, n2)
                &&& forall|i: int| 0 <= i < g0@.len()
                    ==> #[trigger] crate::object::same_but_class(g1@[i], g0@[i])
            },
            _ => match asgn_entry(g0, *scope, asgn_loc(base, name.0), expr) {
                Ok(e) => {
                    &&& g1@ == g0@
                    &&& n1 == n0
                    &&& forall|o2: usize, n2: Seq<char>| #[trigger] g1.const_of(o2, n2)
                        == if o2 == cb && n2 == name.1@ { Some(Rc::new(e)) } else { g0.const_of(o2, n2) }
                },
                Err(n) => {
                    &&& g1 == g0
                    &&& n1 == n0 + emitted(emit, seq![n])
                },
            },
        }
    }
}

/// A constant assignment outside a method body: defines the constant on
/// the module its base names, as another constant's value, as a value of
/// the type it is cast to, or as a value of any type.
pub fn decl_constant(
    graph: &mut ObjectGraph,
    scope: &Rc<Scope>,
    base: &Option<Rc<Node>>,
    name: &Id,
    expr: &Node,
    emit: bool,
    notes: &mut Vec<Notice>,
)
    requires
        old(graph).wf(),
        scope_in(*old(graph), **scope),
        asgn_value_ok(*old(graph), *expr),
    ensures
        constant_done(*old(graph), *final(graph), notices_view(old(notes)@), notices_view(final(notes)@), *scope, *base, *name, *expr, emit),
{
    let Id(name_loc, name_s) = name;
    let loc = match base {
        Some(b) => b.loc().join(name_loc),
        None => name_loc.clone(),
    };
    let cbase = match base {
        None => {
            assert(crate::object::scope_modules(**scope)[0] == scope.module);
            Ok(scope.module)
        },
        Some(b) => crate::environment::resolve_cbase(graph, b, scope),
    };
    match cbase {
        Err((l, msg)) => {
            notice1(notes, emit, Severity::Warning, "Could not statically resolve constant in assignment", msg, &l);
        },
        Ok(cb) => {
            match graph.get_own_const(cb, name_s.as_str()) {
                Some(c) => {
                    match &*c {
                        ConstantEntry::Expression { loc: l, .. } =>
                            constant_definition_error(notes, emit, "Duplicate constant definition", &loc, Some(l)),
                        ConstantEntry::Module { loc: Some(l), .. } =>
                            constant_definition_error(notes, emit, "Duplicate constant definition", &loc, Some(l)),
                        ConstantEntry::Module { loc: None, .. } =>
                            constant_definition_error(notes, emit, "Duplicate constant definition", &loc, None),
                    }
                },
                None => {
                    match expr {
                        Node::TyCast(_, _, tn) => {
                            let ghost g0 = *graph;
                            let ts = TypeScope::new(graph, Rc::clone(scope), scope.module);
                            proof {
                                lemma_extended_constant(TypeScope::Constant { scope: *scope },
                                    crate::object::type_params(g0@[scope.module as int]));
                                assert(crate::resolve::constant_scope_of(TypeScope::Constant { scope: *scope }) == **scope);
                            }
                            let mut reports: Vec<Report> = Vec::new();
                            let ty = TypeNode::resolve(tn, graph, ts, &mut reports);
                            let ghost g1 = *graph;
                            proof {
                                ObjectGraph::lemma_consts_same(g0, g1);
                                assert(crate::object::same_but_class(g1@[cb as int], g0@[cb as int]));
                            }
                            push_errors(notes, reports);
                            let entry = Rc::new(ConstantEntry::Expression { loc, ty, scope_self: scope.module });
                            let set = graph.set_const(cb, name_s.as_str(), entry);
                            assert(set is Ok);
                            proof {
                                ObjectGraph::lemma_objects_same(g1, *graph);
                                assert(crate::object::grows_mc(g0, g1) && g1@ == graph@ && type_is(g0, g1,
                                    scope_extended(TypeScope::Constant { scope: *scope },
                                        crate::object::type_params(g0@[scope.module as int])), **tn, *ty));
                            }
                        },
                        Node::Const(..) => {
                            match resolve_cpath(graph, expr, scope) {
                                Ok(c) => {
                                    let entry = match &*c {
                                        ConstantEntry::Expression { ty, scope_self, .. } =>
                                            ConstantEntry::Expression { ty: Rc::clone(ty), scope_self: *scope_self, loc },
                                        ConstantEntry::Module { value, .. } =>
                                            ConstantEntry::Module { value: *value, loc: Some(loc) },
                                    };
                                    let ghost g0 = *graph;
                                    let set = graph.set_const(cb, name_s.as_str(), Rc::new(entry));
                                    assert(set is Ok);
                                    proof {
                                        ObjectGraph::lemma_objects_same(g0, *graph);
                                    }
                                },
                                Err((l, msg)) => {
                                    notice1(notes, emit, Severity::Warning,
                                        "Could not statically resolve expression in constant assignment", msg, &l);
                                },
                            }
                        },
                        _ => {
                            let ghost g0 = *graph;
                            let entry = ConstantEntry::Expression {
                                loc: loc.clone(),
                                ty: Rc::new(TypeNode::Any { loc: loc.clone() }),
                                scope_self: scope.module,
                            };
                            let set = graph.set_const(cb, name_s.as_str(), Rc::new(entry));
                            assert(set is Ok);
                            proof {
                                ObjectGraph::lemma_objects_same(g0, *graph);
                            }
                        },
                    }
                },
            }
        },
    }
}

/// The graph `g2` is `g1` with one more object, `made`, and the constant
/// `id` of `base` bound to it, as `decl_module` and `decl_class` leave it
/// when they make a class or module.
pub open spec fn made_and_bound(g1: ObjectGraph, g2: ObjectGraph, base: usize, id: Seq<char>, loc: Loc, made: RubyObject) -> bool {
    &&& g2@.drop_last() == g1@
    &&& g2@.len() == g1@.len() + 1
    &&& g2@.last() == made
    &&& forall|o2: usize, n2: Seq<char>| #[trigger] g2.const_of(o2, n2)
        == if o2 == base && n2 == id {
            Some(Rc::new(ConstantEntry::Module { loc: Some(loc), value: g1@.len() as usize }))
        } else {
            g1.const_of(o2, n2)
        }
}

/// A `module` statement that made a module opens that same module when it
/// is met again, and says nothing.
pub proof fn lemma_module_reopens(g1: ObjectGraph, g2: ObjectGraph, scope: Scope, name: Node, made: RubyObject)
    requires
        name matches Node::Const(_, None, _),
        g1@.len() < usize::MAX,
        module_made(g1, scope, name),
        made is Module,
        made_and_bound(g1, g2, scope.module, decl_ref(g1, scope, name)->Ok_0.1, name.spec_loc(), made),
    ensures
        module_decl(g2, scope, name) == (Some(g1@.len() as usize), Seq::<(Severity, ReportView)>::empty()),
{
    let id = decl_ref(g1, scope, name)->Ok_0.1;
    assert(g2.const_of(scope.module, id) is Some);
    assert(g2@[g1@.len() as int] == made);
}

/// A `class` statement without a superclass that made a class opens that
/// same class when it is met again, and says nothing.
pub proof fn lemma_class_reopens(g1: ObjectGraph, g2: ObjectGraph, scope: Scope, name: Node, params: Seq<Rc<Node>>,
    made: RubyObject)
    requires
        name matches Node::Const(_, None, _),
        g1@.len() < usize::MAX,
        class_made(g1, scope, name),
        made is Class,
        made_and_bound(g1, g2, scope.module, decl_ref(g1, scope, name)->Ok_0.1, name.spec_loc(), made),
    ensures
        class_decl(g2, scope, name, params, None) == (Some(g1@.len() as usize), Seq::<(Severity, ReportView)>::empty()),
{
    let id = decl_ref(g1, scope, name)->Ok_0.1;
    assert(g2.const_of(scope.module, id) is Some);
    assert(g2@[g1@.len() as int] == made);
    assert(Seq::<(Severity, ReportView)>::empty() + Seq::<(Severity, ReportView)>::empty() =~= Seq::<(Severity, ReportView)>::empty());
}

} // verus!
