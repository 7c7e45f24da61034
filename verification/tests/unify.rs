use std::rc::Rc;

use typedruby::ast::{Id, Loc, SourceFile};
use typedruby::object::ObjectGraph;
use typedruby::typecheck::types::{Type, TypeEnv, UnificationError};

fn loc() -> Loc {
    let file = Rc::new(SourceFile::new("t.rb".into(), "x = 1".to_owned()));
    Loc { file, begin_pos: 0, end_pos: 1 }
}

#[test]
fn a_variable_is_bound_to_the_other_type() {
    let g = ObjectGraph::new();
    let mut e = TypeEnv::new(&g);
    let v = e.new_var(loc());
    let int = e.instance0(&g, loc(), g.Integer);
    assert!(e.unify(v, int).is_ok());
    assert_eq!(e.prune(v), int);
    // a second variable unified with the first now stands for the integer too
    let w = e.new_var(loc());
    assert!(e.unify(int, w).is_ok());
    assert_eq!(e.prune(w), int);
    // unifying a variable with itself binds nothing
    let u = e.new_var(loc());
    assert!(e.unify(u, u).is_ok());
    assert_eq!(e.prune(u), u);
}

#[test]
fn instances_of_different_classes_do_not_unify() {
    let g = ObjectGraph::new();
    let mut e = TypeEnv::new(&g);
    let int = e.instance0(&g, loc(), g.Integer);
    let s = e.instance0(&g, loc(), g.String);
    match e.unify(int, s) {
        Err(UnificationError::Incompatible(a, b)) => {
            assert_eq!(a, int);
            assert_eq!(b, s);
        }
        _ => panic!("expected a mismatch"),
    }
    let any = e.any(loc());
    assert!(e.unify(int, any).is_err());
    let any2 = e.any(loc());
    assert!(e.unify(any, any2).is_ok());
}

fn graph_with_box() -> (ObjectGraph, usize) {
    let mut g = ObjectGraph::new();
    let object = g.Object;
    let bx = g.new_class("Box".to_owned(), object, vec![Id(loc(), "T".into())]);
    (g, bx)
}

#[test]
fn type_parameters_of_one_class_are_unified() {
    let (g, bx) = graph_with_box();
    let mut e = TypeEnv::new(&g);
    let v = e.new_var(loc());
    let int = e.instance0(&g, loc(), g.Integer);
    let a = e.instance(&g, loc(), bx, vec![v]);
    let b = e.instance(&g, loc(), bx, vec![int]);
    assert!(e.unify(a, b).is_ok());
    assert_eq!(e.prune(v), int);
}

#[test]
fn the_occurs_check_refuses_a_cyclic_binding() {
    let (g, bx) = graph_with_box();
    let mut e = TypeEnv::new(&g);
    let v = e.new_var(loc());
    let holder = e.instance(&g, loc(), bx, vec![v]);
    assert!(e.unify(v, holder).is_err());
    assert!(matches!(e.get(e.prune(v)), Type::Var { .. }));
}

#[test]
fn tuples_unify_element_by_element() {
    let g = ObjectGraph::new();
    let mut e = TypeEnv::new(&g);
    let v = e.new_var(loc());
    let int = e.instance0(&g, loc(), g.Integer);
    let s = e.instance0(&g, loc(), g.String);
    let t1 = e.tuple(loc(), vec![v, s], None, vec![]);
    let t2 = e.tuple(loc(), vec![int, s], None, vec![]);
    assert!(e.unify(t1, t2).is_ok());
    assert_eq!(e.prune(v), int);
    let t3 = e.tuple(loc(), vec![int], None, vec![]);
    assert!(e.unify(t1, t3).is_err());
}

#[test]
fn unions_match_their_members() {
    let g = ObjectGraph::new();
    let mut e = TypeEnv::new(&g);
    let int = e.instance0(&g, loc(), g.Integer);
    let s = e.instance0(&g, loc(), g.String);
    let nil = e.instance0(&g, loc(), g.NilClass);
    let u1 = e.union(&loc(), int, s);
    let v = e.new_var(loc());
    let u2 = e.union(&loc(), s, v);
    assert!(e.unify(u1, u2).is_ok());
    assert_eq!(e.prune(v), int);
    let u3 = e.union(&loc(), int, nil);
    let u4 = e.union(&loc(), nil, int);
    assert!(e.unify(u3, u4).is_ok());
    let u5 = e.union(&loc(), int, s);
    assert!(e.unify(u5, int).is_err());
}

#[test]
fn a_binding_made_stays_through_later_unifications() {
    let g = ObjectGraph::new();
    let mut e = TypeEnv::new(&g);
    let v = e.new_var(loc());
    let int = e.instance0(&g, loc(), g.Integer);
    let s = e.instance0(&g, loc(), g.String);
    assert!(e.unify(v, int).is_ok());
    // a failing unification through the bound variable leaves it bound
    assert!(e.unify(v, s).is_err());
    assert_eq!(e.prune(v), int);
    let w = e.new_var(loc());
    assert!(e.unify(w, s).is_ok());
    assert_eq!(e.prune(v), int);
    assert_eq!(e.prune(w), s);
}

#[test]
fn update_loc_gives_a_fresh_variable_for_the_type() {
    let g = ObjectGraph::new();
    let mut e = TypeEnv::new(&g);
    let int = e.instance0(&g, loc(), g.Integer);
    let v = e.update_loc(int, loc());
    assert_ne!(v, int);
    assert!(matches!(e.get(v), Type::Var { .. }));
    assert_eq!(e.prune(v), int);
}
