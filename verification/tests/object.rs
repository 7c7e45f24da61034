use std::rc::Rc;

use typedruby::ast::{Loc, SourceFile};
use typedruby::object::{ConstantEntry, IncludeError, ObjectGraph, RubyObject, Scope};

fn loc() -> Loc {
    let file = Rc::new(SourceFile::new("t.rb".into(), "include M".to_owned()));
    Loc { file, begin_pos: 0, end_pos: 9 }
}

fn module_value(c: Option<Rc<ConstantEntry>>) -> Option<usize> {
    c.and_then(|c| c.module())
}

#[test]
fn core_graph_names_and_ancestry() {
    let g = ObjectGraph::new();
    assert_eq!(g.name_of(g.Integer), "Integer");
    assert_eq!(g.name_of(g.StandardError), "StandardError");
    assert_eq!(g.ancestors_of(g.Integer), vec![g.Integer, g.Numeric, g.Object, g.BasicObject]);
    assert_eq!(g.ancestors_of(g.Class), vec![g.Class, g.Module, g.Object, g.BasicObject]);
    assert_eq!(g.superclass_of(g.TrueClass), Some(g.Boolean));
    assert_eq!(g.superclass_of(g.BasicObject), None);
    assert_eq!(module_value(g.get_const(g.Object, "Integer")), Some(g.Integer));
    assert_eq!(module_value(g.get_const(g.Integer, "String")), Some(g.String));
    assert!(g.get_const(g.Object, "Nope").is_none());
    assert!(g.lookup_method(g.Class, "new").is_some());
    assert!(g.lookup_method(g.Integer, "raise").is_none());
}

#[test]
fn defined_class_gets_path_and_constant() {
    let mut g = ObjectGraph::new();
    let outer = g.define_module(None, g.Object, "Outer", vec![]);
    let inner = g.define_class(None, outer, "Inner", g.Object, vec![]);
    assert_eq!(g.name_of(inner), "Outer::Inner");
    assert_eq!(g.constant_path(g.Object, "X"), "X");
    assert_eq!(g.constant_path(outer, "X"), "Outer::X");
    assert_eq!(module_value(g.get_own_const(outer, "Inner")), Some(inner));
    assert!(g.get_own_const(g.Object, "Inner").is_none());
    assert_eq!(g.ancestors_of(inner), vec![inner, g.Object, g.BasicObject]);
}

#[test]
fn set_const_refuses_a_second_definition() {
    let mut g = ObjectGraph::new();
    let a = g.new_module("A".to_owned(), vec![]);
    let first = g.set_const(a, "C", Rc::new(ConstantEntry::Module { loc: None, value: a }));
    let second = g.set_const(a, "C", Rc::new(ConstantEntry::Module { loc: None, value: g.Object }));
    assert_eq!(first, Ok(()));
    assert_eq!(second, Err(()));
    assert_eq!(module_value(g.get_own_const(a, "C")), Some(a));
}

#[test]
fn include_puts_module_after_class_and_makes_it_an_ancestor() {
    let mut g = ObjectGraph::new();
    let m = g.define_module(None, g.Object, "Comparable", vec![]);
    let c = g.define_class(None, g.Object, "Version", g.Object, vec![]);
    assert!(g.include_module(c, m, vec![], loc()).is_ok());
    let anc = g.ancestors_of(c);
    assert_eq!(anc.len(), 4);
    assert_eq!(anc[0], c);
    assert_eq!(g.delegate_index(anc[1]), m);
    assert_eq!(anc[2], g.Object);
    assert!(g.object(c).is_a(&g, m));
    assert!(!g.object(g.Object).is_a(&g, m));
    assert_eq!(g.superclass_of(c), Some(g.Object));
    assert_eq!(g.name_of(anc[1]), "iclass for Comparable (included from Version at t.rb:0..9)");
}

#[test]
fn including_twice_is_skipped() {
    let mut g = ObjectGraph::new();
    let m = g.define_module(None, g.Object, "M", vec![]);
    let c = g.define_class(None, g.Object, "C", g.Object, vec![]);
    assert!(g.include_module(c, m, vec![], loc()).is_ok());
    assert!(g.include_module(c, m, vec![], loc()).is_ok());
    assert_eq!(g.ancestors_of(c).len(), 4);
}

#[test]
fn including_a_module_into_itself_is_cyclic() {
    let mut g = ObjectGraph::new();
    let m = g.define_module(None, g.Object, "M", vec![]);
    let n = g.define_module(None, g.Object, "N", vec![]);
    assert!(matches!(g.include_module(m, m, vec![], loc()), Err(IncludeError::CyclicInclude)));
    assert!(g.include_module(n, m, vec![], loc()).is_ok());
    assert!(matches!(g.include_module(m, n, vec![], loc()), Err(IncludeError::CyclicInclude)));
}

#[test]
fn included_module_brings_its_own_includes() {
    let mut g = ObjectGraph::new();
    let inner = g.define_module(None, g.Object, "Inner", vec![]);
    let outer = g.define_module(None, g.Object, "Outer", vec![]);
    let c = g.define_class(None, g.Object, "C", g.Object, vec![]);
    assert!(g.include_module(outer, inner, vec![], loc()).is_ok());
    assert!(g.include_module(c, outer, vec![], loc()).is_ok());
    let anc = g.ancestors_of(c);
    let delegates: Vec<usize> = anc.iter().map(|a| g.delegate_index(*a)).collect();
    assert_eq!(delegates, vec![c, outer, inner, g.Object, g.BasicObject]);
    assert!(g.object(c).is_a(&g, inner));
}

#[test]
fn metaclass_is_made_once_under_the_superclass_metaclass() {
    let mut g = ObjectGraph::new();
    let c = g.define_class(None, g.Object, "C", g.Object, vec![]);
    let meta = g.metaclass(c);
    assert_eq!(g.metaclass(c), meta);
    let object_meta = g.metaclass(g.Object);
    assert_eq!(g.superclass_of(meta), Some(object_meta));
    assert_eq!(g.name_of(meta), "Class::[C]");
    match g.object(meta) {
        RubyObject::Metaclass { of, .. } => assert_eq!(*of, c),
        _ => panic!("expected a metaclass"),
    }
    let basic_meta = g.metaclass(g.BasicObject);
    assert_eq!(g.superclass_of(object_meta), Some(basic_meta));
    assert_eq!(g.superclass_of(basic_meta), Some(g.Class));
    let m = g.new_module("M".to_owned(), vec![]);
    let mm = g.metaclass(m);
    assert_eq!(g.superclass_of(mm), Some(g.Module));
}

#[test]
fn methods_are_found_along_the_ancestry() {
    let g = ObjectGraph::new();
    let raise = g.lookup_method(g.Kernel, "raise");
    assert!(raise.is_some());
    assert_eq!(raise.unwrap().owner, g.Kernel);
    assert!(g.lookup_method_direct(g.Class, "new").is_some());
    assert!(g.lookup_method_direct(g.Module, "new").is_none());
    assert!(g.lookup_ivar(g.Object, "@x").is_none());
}

#[test]
fn scopes_nest() {
    let root = Rc::new(Scope { parent: None, module: 1 });
    let inner = Scope::spawn(&root, 7);
    let innermost = Scope::spawn(&inner, 9);
    assert_eq!(Scope::root(&innermost).module, 1);
    let mods: Vec<usize> = Scope::ancestors(&innermost).iter().map(|s| s.module).collect();
    assert_eq!(mods, vec![9, 7, 1]);
}

#[test]
fn include_chain_follows_includes_outward() {
    let mut g = ObjectGraph::new();
    let inner = g.define_module(None, g.Object, "Inner", vec![]);
    let outer = g.define_module(None, g.Object, "Outer", vec![]);
    let c = g.define_class(None, g.Object, "Thing", g.Object, vec![]);
    assert!(g.include_module(outer, inner, vec![], loc()).is_ok());
    assert!(g.include_module(c, outer, vec![], loc()).is_ok());
    let thing = g.object(c);
    let chain = thing.include_chain(&g, inner);
    assert_eq!(chain.len(), 2);
    assert_eq!(chain[0].module, outer);
    assert_eq!(chain[0].reason, c);
    assert_eq!(chain[1].module, inner);
    assert_eq!(chain[1].reason, outer);
    let direct = thing.include_chain(&g, outer);
    assert_eq!(direct.len(), 1);
    assert!(thing.include_chain(&g, g.Kernel).is_empty());
}

#[test]
fn iterators_walk_ancestry_and_scopes() {
    let g = ObjectGraph::new();
    let mut it = g.object(g.Integer).ancestor_iter(&g);
    let mut seen = Vec::new();
    while let Some(o) = it.next(&g) {
        seen.push(o);
    }
    assert_eq!(seen, g.ancestors_of(g.Integer));
    let root = Rc::new(Scope { parent: None, module: g.Object });
    let inner = Scope::spawn(&root, g.Integer);
    let mut s = typedruby::object::ScopeIter { scope: Some(inner) };
    let mut modules = Vec::new();
    while let Some(sc) = s.next() {
        modules.push(sc.module);
    }
    assert_eq!(modules, vec![g.Integer, g.Object]);
}

#[test]
fn core_classes_hang_from_object_and_are_its_constants() {
    let g = ObjectGraph::new();
    assert_eq!(g.ancestors_of(g.TrueClass), vec![g.TrueClass, g.Boolean, g.Object, g.BasicObject]);
    assert_eq!(g.ancestors_of(g.FalseClass), vec![g.FalseClass, g.Boolean, g.Object, g.BasicObject]);
    assert_eq!(g.ancestors_of(g.Float), vec![g.Float, g.Numeric, g.Object, g.BasicObject]);
    for c in [g.NilClass, g.Symbol, g.String, g.Regexp, g.Proc, g.Exception, g.Boolean, g.Numeric] {
        assert_eq!(g.ancestors_of(c), vec![c, g.Object, g.BasicObject]);
    }
    assert_eq!(g.ancestors_of(g.Kernel), vec![g.Kernel]);
    let pairs = [
        ("Boolean", g.Boolean), ("TrueClass", g.TrueClass), ("FalseClass", g.FalseClass),
        ("NilClass", g.NilClass), ("Symbol", g.Symbol), ("String", g.String),
        ("Numeric", g.Numeric), ("Float", g.Float), ("Regexp", g.Regexp),
        ("Proc", g.Proc), ("Exception", g.Exception),
    ];
    for (name, c) in pairs {
        assert_eq!(module_value(g.get_const(g.Object, name)), Some(c));
        assert_eq!(g.name_of(c), name);
    }
}

#[test]
fn delegating_twice_is_delegating_once() {
    let mut g = ObjectGraph::new();
    let m = g.define_module(None, g.Object, "Mixin", vec![]);
    let c = g.define_class(None, g.Object, "Host", g.Object, vec![]);
    assert!(g.include_module(c, m, vec![], loc()).is_ok());
    for i in g.ancestors_of(c) {
        let d = g.delegate_index(i);
        assert_eq!(g.delegate_index(d), d);
    }
    assert_eq!(g.delegate_index(g.ancestors_of(c)[1]), m);
}

#[test]
fn the_last_scope_of_the_ancestors_is_the_root() {
    let root = Rc::new(Scope { parent: None, module: 1 });
    let inner = Scope::spawn(&root, 7);
    let innermost = Scope::spawn(&inner, 9);
    let all = Scope::ancestors(&innermost);
    let last = all.last().unwrap();
    assert!(Rc::ptr_eq(last, &root));
    assert!(last.parent.is_none());
    assert_eq!(Scope::root(&innermost).module, last.module);
}

#[test]
fn asking_twice_for_a_metaclass_gives_the_same_one() {
    let mut g = ObjectGraph::new();
    let c = g.define_class(None, g.Object, "Widget", g.Object, vec![]);
    let m1 = g.metaclass(c);
    let n = g.ancestors_of(g.Object).len();
    let m2 = g.metaclass(c);
    assert_eq!(m1, m2);
    assert_eq!(g.ancestors_of(g.Object).len(), n);
    assert!(matches!(g.object(m1), RubyObject::Metaclass { .. }));
}

#[test]
fn every_ancestry_ends_at_basic_object() {
    let mut g = ObjectGraph::new();
    let m = g.define_module(None, g.Object, "Mixin2", vec![]);
    let c = g.define_class(None, g.Object, "Host2", g.Object, vec![]);
    assert!(g.include_module(c, m, vec![], loc()).is_ok());
    for o in [c, g.Integer, g.TrueClass, g.Object] {
        assert_eq!(*g.ancestors_of(o).last().unwrap(), g.BasicObject);
    }
    assert_eq!(*g.ancestors_of(m).last().unwrap(), m);
}
