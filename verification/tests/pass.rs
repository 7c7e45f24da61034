use std::rc::Rc;

use typedruby::ast::{Id, Loc, Node, SourceFile};
use typedruby::define::{Definitions, MethodDef, MethodVisibility};
use typedruby::object::{ConstantEntry, ObjectGraph, RubyObject, Scope};
use typedruby::pass::{evaluate, Action, TopLevel};
use typedruby::top_level::Severity;

fn loc(b: usize, e: usize) -> Loc {
    let file = Rc::new(SourceFile::new("p.rb".into(), "class Foo; def foo; end; end; require 'x'".to_owned()));
    Loc { file, begin_pos: b, end_pos: e }
}

fn id(s: &str) -> Id {
    Id(loc(0, 3), s.to_owned())
}

fn rc(n: Node) -> Rc<Node> {
    Rc::new(n)
}

fn cname(s: &str) -> Rc<Node> {
    rc(Node::Const(loc(6, 9), None, id(s)))
}

fn call(name: &str, args: Vec<Rc<Node>>) -> Rc<Node> {
    rc(Node::Send(loc(0, 5), None, id(name), args))
}

fn sym(s: &str) -> Rc<Node> {
    rc(Node::Symbol(loc(1, 4), s.to_owned()))
}

fn def(name: &str) -> Rc<Node> {
    rc(Node::Def(loc(11, 23), id(name), None, None))
}

fn begin(ns: Vec<Rc<Node>>) -> Rc<Node> {
    rc(Node::Begin(loc(0, 40), ns))
}

fn fresh() -> (TopLevel, Rc<Scope>) {
    let graph = ObjectGraph::new();
    let scope = Rc::new(Scope { parent: None, module: graph.Object });
    (TopLevel { graph, defs: Definitions::new(), notes: vec![], actions: vec![], emit: true }, scope)
}

fn walk(n: &Rc<Node>) -> TopLevel {
    let (mut t, scope) = fresh();
    let mut vis = (MethodVisibility::Public, false);
    t.eval_node(&scope, false, &mut vis, n);
    t
}

fn messages(t: &TopLevel) -> Vec<(bool, String)> {
    t.notes.iter().map(|n| (n.severity == Severity::Error, n.report.message.clone())).collect()
}

/// (kind, module, name, visibility) of each method definition queued.
fn queued(t: &TopLevel) -> Vec<(&'static str, usize, String, Option<MethodVisibility>)> {
    t.defs
        .queued_methods()
        .iter()
        .map(|m| match m {
            MethodDef::Def { module, visi, name, .. } => ("def", *module, name.1.clone(), Some(*visi)),
            MethodDef::Alias { module, to, from, .. } => ("alias", *module, format!("{}={}", to.1, from.1), None),
            MethodDef::AttrReader { module, visi, name } => ("reader", *module, name.1.clone(), Some(*visi)),
            MethodDef::AttrWriter { module, visi, name } => ("writer", *module, name.1.clone(), Some(*visi)),
            MethodDef::SetVisi { module, visi, name, .. } => ("visi", *module, name.1.clone(), Some(*visi)),
            MethodDef::ModuleFunc { module, name, .. } => ("modfunc", *module, name.1.clone(), None),
        })
        .collect()
}

#[test]
fn a_class_body_declares_its_methods_with_the_visibility_in_force() {
    let body = begin(vec![
        def("foo"),
        call("attr_accessor", vec![sym("bar")]),
        call("private", vec![]),
        def("baz"),
    ]);
    let tree = begin(vec![rc(Node::Class(loc(0, 9), cname("Foo"), None, Some(body))), def("top")]);
    let t = walk(&tree);
    let foo = t.graph.get_const(t.graph.Object, "Foo").expect("Foo is defined");
    let foo = match &*foo {
        ConstantEntry::Module { value, .. } => *value,
        _ => panic!("Foo names a class"),
    };
    assert!(matches!(t.graph.object(foo), RubyObject::Class { .. }));
    let o = t.graph.Object;
    assert_eq!(
        queued(&t),
        vec![
            ("def", foo, "foo".to_owned(), Some(MethodVisibility::Public)),
            ("reader", foo, "bar".to_owned(), Some(MethodVisibility::Public)),
            ("writer", foo, "bar".to_owned(), Some(MethodVisibility::Public)),
            ("def", foo, "baz".to_owned(), Some(MethodVisibility::Private)),
            ("def", o, "top".to_owned(), Some(MethodVisibility::Public)),
        ]
    );
    assert!(t.notes.is_empty());
    assert!(t.actions.is_empty());
}

#[test]
fn require_asks_for_the_file_and_reports_what_it_cannot_load() {
    let tree = begin(vec![
        call("require", vec![rc(Node::String(loc(30, 41), "x".to_owned()))]),
        call("require_relative", vec![rc(Node::String(loc(30, 41), "y".to_owned()))]),
        call("require", vec![rc(Node::Lvar(loc(30, 41), "v".to_owned()))]),
        call("require", vec![]),
        call("require", vec![sym("a"), sym("b")]),
    ]);
    let t = walk(&tree);
    let asked: Vec<(String, bool)> = t
        .actions
        .iter()
        .map(|a| match a {
            Action::Require { path, relative, .. } => (path.clone(), *relative),
        })
        .collect();
    assert_eq!(asked, vec![("x".to_owned(), false), ("y".to_owned(), true)]);
    assert_eq!(
        messages(&t),
        vec![
            (false, "Could not resolve dynamic path in require".to_owned()),
            (true, "Missing argument to require".to_owned()),
            (true, "Too many arguments to require".to_owned()),
        ]
    );
}

#[test]
fn module_function_also_defines_on_the_metaclass() {
    let body = begin(vec![call("module_function", vec![]), def("helper")]);
    let tree = rc(Node::Module(loc(0, 9), cname("Util"), Some(body)));
    let mut t = walk(&tree);
    let defs = queued(&t);
    assert_eq!(defs.len(), 2);
    let m = defs[0].1;
    assert_eq!(defs[0], ("def", m, "helper".to_owned(), Some(MethodVisibility::Private)));
    let meta = t.graph.metaclass(m);
    assert_eq!(defs[1], ("def", meta, "helper".to_owned(), Some(MethodVisibility::Public)));
}

#[test]
fn aliases_and_visibility_lists_name_symbols() {
    let body = begin(vec![
        rc(Node::Alias(loc(0, 5), sym("new_name"), sym("old_name"))),
        call("alias_method", vec![sym("b"), sym("a")]),
        call("protected", vec![sym("a"), rc(Node::Lvar(loc(0, 1), "x".to_owned()))]),
        call("alias_method", vec![sym("only")]),
    ]);
    let tree = rc(Node::Class(loc(0, 9), cname("K"), None, Some(body)));
    let t = walk(&tree);
    let defs = queued(&t);
    let k = defs[0].1;
    assert_eq!(
        defs,
        vec![
            ("alias", k, "new_name=old_name".to_owned(), None),
            ("alias", k, "b=a".to_owned(), None),
            ("visi", k, "a".to_owned(), Some(MethodVisibility::Protected)),
        ]
    );
    assert_eq!(
        messages(&t),
        vec![
            (false, "Dynamic symbol in method name".to_owned()),
            (true, "Wrong number of arguments to alias_method".to_owned()),
        ]
    );
}

#[test]
fn instance_variable_declarations_are_queued_outside_methods_only() {
    let decl = rc(Node::TyIvardecl(loc(0, 4), id("@x"), rc(Node::TyAny(loc(0, 1)))));
    let tree = rc(Node::Class(loc(0, 9), cname("C"), None, Some(decl.clone())));
    let t = walk(&tree);
    assert_eq!(t.defs.queued_ivars().len(), 1);
    assert_eq!(t.defs.queued_ivars()[0].name.1, "@x");

    let (mut t, scope) = fresh();
    let mut vis = (MethodVisibility::Public, false);
    t.eval_node(&scope, true, &mut vis, &decl);
    assert!(t.defs.queued_ivars().is_empty());
    assert_eq!(messages(&t), vec![(true, "Invalid instance variable type declaration".to_owned())]);
}

#[test]
fn a_singleton_class_body_defines_on_the_metaclass() {
    let body = def("s");
    let tree = rc(Node::SClass(loc(0, 9), rc(Node::Self_(loc(0, 4))), Some(body)));
    let mut t = walk(&tree);
    let o = t.graph.Object;
    let meta = t.graph.metaclass(o);
    assert_eq!(queued(&t), vec![("def", meta, "s".to_owned(), Some(MethodVisibility::Public))]);

    let bad = rc(Node::SClass(loc(0, 9), rc(Node::Lvar(loc(0, 1), "x".to_owned())), None));
    let t = walk(&bad);
    assert_eq!(messages(&t), vec![(false, "Could not statically resolve singleton expression".to_owned())]);
}

#[test]
fn include_of_an_unknown_module_warns_and_a_cycle_is_an_error() {
    let inc = call("include", vec![cname("Nope")]);
    let t = walk(&rc(Node::Class(loc(0, 9), cname("A"), None, Some(inc))));
    assert_eq!(messages(&t), vec![(false, "Could not statically resolve module reference in include".to_owned())]);

    let own = call("include", vec![cname("M")]);
    let t = walk(&rc(Node::Module(loc(0, 9), cname("M"), Some(own))));
    assert_eq!(messages(&t), vec![(true, "Cyclic include".to_owned())]);

    let none = call("extend", vec![]);
    let t = walk(&rc(Node::Module(loc(0, 9), cname("E"), Some(none))));
    assert_eq!(messages(&t), vec![(true, "Wrong number of arguments to extend".to_owned())]);
}

fn typed_loc() -> Loc {
    let file = Rc::new(SourceFile::new("t.rb".into(), "# @typedruby\nrequire x\n".to_owned()));
    Loc { file, begin_pos: 13, end_pos: 22 }
}

#[test]
fn evaluate_emits_notices_only_for_typed_files_not_ignored() {
    let dynamic = |l: Loc| rc(Node::Send(l.clone(), None, Id(l.clone(), "require".to_owned()), vec![rc(Node::Lvar(l, "x".to_owned()))]));

    let (mut t, _) = fresh();
    evaluate(&mut t, &dynamic(typed_loc()), false);
    assert!(t.emit);
    assert_eq!(messages(&t), vec![(false, "Could not resolve dynamic path in require".to_owned())]);

    let (mut t, _) = fresh();
    evaluate(&mut t, &dynamic(typed_loc()), true);
    assert!(!t.emit);
    assert!(t.notes.is_empty());

    let (mut t, _) = fresh();
    evaluate(&mut t, &dynamic(loc(0, 5)), false);
    assert!(!t.emit);
    assert!(t.notes.is_empty());
}

#[test]
fn a_second_walk_keeps_what_the_first_queued() {
    let (mut t, scope) = fresh();
    let mut vis = (MethodVisibility::Public, false);
    t.eval_node(&scope, false, &mut vis, &begin(vec![def("a"), call("require", vec![rc(Node::String(loc(30, 41), "x".to_owned()))])]));
    let first = queued(&t);
    t.eval_node(&scope, false, &mut vis, &begin(vec![def("b"), call("require", vec![rc(Node::String(loc(30, 41), "y".to_owned()))])]));
    let after = queued(&t);
    assert_eq!(after.len(), 2);
    assert_eq!(after[..1], first[..]);
    assert_eq!(after[1].2, "b");
    assert_eq!(t.actions.len(), 2);
    assert!(matches!(&t.actions[0], Action::Require { path, .. } if path == "x"));
}
