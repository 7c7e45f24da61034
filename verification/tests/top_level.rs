use std::rc::Rc;

use typedruby::ast::{Id, Loc, Node, SourceFile};
use typedruby::object::{ConstantEntry, ObjectGraph, RubyObject, Scope};
use typedruby::top_level::{
    decl_class, decl_constant, decl_module, resolve_static, source_type_for_file, AttrType, Notice, Severity,
    SourceType,
};

fn loc(b: usize, e: usize) -> Loc {
    let file = Rc::new(SourceFile::new("t.rb".into(), "class Foo < Bar; end # some text here".to_owned()));
    Loc { file, begin_pos: b, end_pos: e }
}

fn cname(s: &str) -> Node {
    Node::Const(loc(6, 9), None, Id(loc(6, 9), s.to_owned()))
}

fn root(g: &ObjectGraph) -> Rc<Scope> {
    Rc::new(Scope { parent: None, module: g.Object })
}

fn said(notes: &[Notice]) -> Vec<(bool, String)> {
    notes.iter().map(|n| (n.severity == Severity::Warning, n.report.message.clone())).collect()
}

fn file(src: &str) -> SourceFile {
    SourceFile::new("f.rb".into(), src.to_owned())
}

#[test]
fn files_that_say_so_in_their_header_are_typed() {
    assert_eq!(source_type_for_file(&file("# @typedruby\nclass A; end\n")), SourceType::TypedRuby);
    assert_eq!(source_type_for_file(&file("# frozen\n#   @typedruby here\n")), SourceType::TypedRuby);
    assert_eq!(source_type_for_file(&file("class A; end\n# @typedruby\n")), SourceType::Ruby);
    assert_eq!(source_type_for_file(&file("# frozen\n\n# @typedruby\n")), SourceType::Ruby);
    assert_eq!(source_type_for_file(&file("")), SourceType::Ruby);
    assert_eq!(source_type_for_file(&file("#@typedrub")), SourceType::Ruby);
}

#[test]
fn attribute_kinds_declare_readers_and_writers() {
    assert!(AttrType::Reader.reader() && !AttrType::Reader.writer());
    assert!(!AttrType::Writer.reader() && AttrType::Writer.writer());
    assert!(AttrType::Accessor.reader() && AttrType::Accessor.writer());
}

#[test]
fn static_references_are_self_and_constant_paths() {
    let g = ObjectGraph::new();
    let scope = root(&g);
    assert_eq!(resolve_static(&g, &scope, &Node::Self_(loc(0, 1))).ok(), Some(g.Object));
    assert_eq!(resolve_static(&g, &scope, &cname("String")).ok(), Some(g.String));
    assert_eq!(resolve_static(&g, &scope, &cname("Nope")).err().map(|e| e.1), Some("No such constant"));
    assert_eq!(resolve_static(&g, &scope, &Node::Nil(loc(0, 1))).err().map(|e| e.1), Some("unknown static node"));
}

#[test]
fn a_new_module_is_made_once_and_reopened() {
    let mut g = ObjectGraph::new();
    let scope = root(&g);
    let mut notes = Vec::new();
    let n = g.size();
    let m = decl_module(&mut g, &scope, &cname("Mod"), true, &mut notes).unwrap();
    assert_eq!(m, n);
    assert!(matches!(g.object(m), RubyObject::Module { .. }));
    assert_eq!(g.name_of(m), "Mod");
    assert_eq!(decl_module(&mut g, &scope, &cname("Mod"), true, &mut notes), Some(m));
    assert!(notes.is_empty());
    let c = decl_module(&mut g, &scope, &cname("String"), true, &mut notes);
    assert_eq!(c, Some(g.String));
    assert_eq!(said(&notes), vec![(false, "String is not a module".to_owned())]);
}

#[test]
fn a_new_class_gets_its_superclass_and_a_mismatch_is_reported() {
    let mut g = ObjectGraph::new();
    let scope = root(&g);
    let mut notes = Vec::new();
    let sup = Some(Rc::new(cname("String")));
    let n = g.size();
    let c = decl_class(&mut g, &scope, &cname("Foo"), &[], &sup, true, &mut notes).unwrap();
    assert_eq!(c, n);
    assert_eq!(g.superclass_of(c), Some(g.String));
    assert_eq!(g.name_of(c), "Foo");
    assert!(notes.is_empty());
    let other = Some(Rc::new(cname("Integer")));
    assert_eq!(decl_class(&mut g, &scope, &cname("Foo"), &[], &other, true, &mut notes), Some(c));
    assert_eq!(said(&notes), vec![(false, "Superclass does not match existing superclass String".to_owned())]);
    let bad = Some(Rc::new(cname("Kernel")));
    let mut notes2 = Vec::new();
    assert_eq!(decl_class(&mut g, &scope, &cname("Foo"), &[], &bad, true, &mut notes2), Some(c));
    assert_eq!(said(&notes2), vec![(false, "Superclass is not a class".to_owned())]);
    let mut quiet = Vec::new();
    decl_class(&mut g, &scope, &cname("Foo"), &[], &other, false, &mut quiet);
    assert!(quiet.is_empty());
    let size = g.size();
    assert_eq!(decl_class(&mut g, &scope, &cname("Foo"), &[], &None, true, &mut quiet), Some(c));
    assert!(quiet.is_empty());
    assert_eq!(g.size(), size);
}

#[test]
fn a_class_declares_type_parameters_and_rejects_constraints() {
    let mut g = ObjectGraph::new();
    let scope = root(&g);
    let mut notes = Vec::new();
    let params = vec![
        Rc::new(Node::TyGendeclarg(loc(0, 1), "T".to_owned(), None)),
        Rc::new(Node::TyGendeclarg(loc(2, 3), "U".to_owned(), Some(Rc::new(Node::TyAny(loc(4, 5)))))),
    ];
    let c = decl_class(&mut g, &scope, &cname("Box"), &params, &None, true, &mut notes).unwrap();
    let names: Vec<String> = g.object(c).type_parameters().iter().map(|id| id.1.clone()).collect();
    assert_eq!(names, vec!["T".to_owned(), "U".to_owned()]);
    assert_eq!(said(&notes), vec![(false, "Type constraints not permitted on class type parameters".to_owned())]);
    let sup = Some(Rc::new(cname("Box")));
    let mut notes2 = Vec::new();
    let sub = decl_class(&mut g, &scope, &cname("Sub"), &params[..1], &sup, true, &mut notes2).unwrap();
    assert_eq!(g.object(sub).type_parameters().len(), 2);
    assert_eq!(said(&notes2), vec![(false, "Subclasses of generic classes may not specify type parameters".to_owned())]);
}

#[test]
fn a_class_statement_on_a_module_or_unknown_base_is_refused() {
    let mut g = ObjectGraph::new();
    let scope = root(&g);
    let mut notes = Vec::new();
    assert_eq!(decl_class(&mut g, &scope, &cname("Kernel"), &[], &None, true, &mut notes), None);
    assert_eq!(said(&notes), vec![(false, "Kernel is not a static class".to_owned())]);
    let nested = Node::Const(loc(0, 3), Some(Rc::new(cname("Nope"))), Id(loc(0, 3), "X".to_owned()));
    let mut notes2 = Vec::new();
    assert_eq!(decl_class(&mut g, &scope, &nested, &[], &None, true, &mut notes2), None);
    assert_eq!(said(&notes2), vec![(true, "No such constant".to_owned())]);
}

#[test]
fn constant_assignments_alias_or_define_once() {
    let mut g = ObjectGraph::new();
    let scope = root(&g);
    let mut notes = Vec::new();
    decl_constant(&mut g, &scope, &None, &Id(loc(0, 3), "Str".to_owned()), &cname("String"), true, &mut notes);
    assert_eq!(g.get_own_const(g.Object, "Str").and_then(|c| c.module()), Some(g.String));
    decl_constant(&mut g, &scope, &None, &Id(loc(0, 3), "N".to_owned()), &Node::Nil(loc(5, 8)), true, &mut notes);
    assert!(matches!(g.get_own_const(g.Object, "N").as_deref(), Some(ConstantEntry::Expression { .. })));
    assert!(notes.is_empty());
    decl_constant(&mut g, &scope, &None, &Id(loc(0, 3), "N".to_owned()), &Node::Nil(loc(5, 8)), true, &mut notes);
    assert_eq!(said(&notes), vec![(false, "Duplicate constant definition".to_owned())]);
    assert_eq!(notes[0].report.details.len(), 2);
    let mut notes2 = Vec::new();
    decl_constant(&mut g, &scope, &None, &Id(loc(0, 3), "Q".to_owned()), &cname("Nope"), true, &mut notes2);
    assert_eq!(said(&notes2), vec![(true, "Could not statically resolve expression in constant assignment".to_owned())]);
    assert!(g.get_own_const(g.Object, "Q").is_none());
}
