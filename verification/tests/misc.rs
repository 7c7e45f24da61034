use std::rc::Rc;

use typedruby::abstract_type::{AnnotationStatus, TypeScope};
use typedruby::ast::{Id, Level, Loc, SourceFile};
use typedruby::config::{ProjectConfig, Strings};
use typedruby::deferred_cell::DeferredCell;
use typedruby::define::{Definitions, MethodDef, MethodVisibility};
use typedruby::ffi::{Driver, Token};
use typedruby::object::{ObjectGraph, Scope};
use typedruby::phase::{Phase, PhaseCell};
use typedruby::seq_map::{SeqMap, NULL_ID};
use typedruby::slice_util::{Consumer, ForwardConsumer, ReverseConsumer, SliceView};
use typedruby::text::{decimal_string, parse_decimal};
use typedruby::util::Or;

fn file(src: &str) -> Rc<SourceFile> {
    Rc::new(SourceFile::new("f.rb".into(), src.to_owned()))
}

#[test]
fn seq_map_gives_back_by_id() {
    let mut m: SeqMap<&str> = SeqMap::new();
    assert_eq!(m.insert(None), NULL_ID);
    let a = m.insert(Some("a"));
    let b = m.insert(Some("b"));
    assert_eq!((a, b), (1, 2));
    assert_eq!(m.get(a), Some(&"a"));
    assert_eq!(m.get(b), Some(&"b"));
    assert_eq!(m.get(NULL_ID), None);
}

#[test]
fn phases_go_forward() {
    let mut p = PhaseCell::new(Phase::Load);
    assert!(p.get().can_load());
    p.set(Phase::Define);
    assert!(!p.get().can_load());
    p.set(Phase::TypeCheck);
    assert_eq!(p.get(), Phase::TypeCheck);
}

#[test]
fn deferred_cell_holds_what_was_set() {
    let mut c: DeferredCell<u32> = DeferredCell::new();
    DeferredCell::set(&mut c, 7);
    assert_eq!(*c.get(), 7);
}

#[test]
fn or_maps_and_flattens() {
    let l: Or<i32, i32> = Or::Left(2);
    match l.map_left(|x| x * 10) {
        Or::Left(20) => {},
        _ => panic!("expected Left(20)"),
    }
    let b: Or<i32, i32> = Or::Both(1, 2);
    match b.map_right(|x| x + 1) {
        Or::Both(1, 3) => {},
        _ => panic!("expected Both(1, 3)"),
    }
}

#[test]
fn slice_consumers_take_from_each_end() {
    let items = [1, 2, 3];
    let mut view = SliceView(&items[..]);
    {
        let mut fwd = ForwardConsumer(&mut view);
        assert_eq!(fwd.peek(), Some(&1));
        fwd.consume();
        assert_eq!(fwd.peek(), Some(&2));
    }
    {
        let mut rev = ReverseConsumer(&mut view);
        assert_eq!(rev.peek(), Some(&3));
        rev.consume();
        assert_eq!(rev.peek(), Some(&2));
    }
    assert_eq!(view.first(), Some(&2));
    assert_eq!(view.last(), Some(&2));
}

#[test]
fn strings_setting_as_slice() {
    assert!(Strings::Absent.as_slice().is_empty());
    assert_eq!(Strings::One("a".into()).as_slice(), &["a".to_owned()][..]);
    assert_eq!(Strings::Many(vec!["a".into(), "b".into()]).as_slice().len(), 2);
    let c = ProjectConfig::default();
    assert!(!c.typedruby.bundler);
    assert!(c.typedruby.source.as_slice().is_empty());
}

#[test]
fn decimal_round_trip() {
    assert_eq!(decimal_string(0), "0");
    assert_eq!(decimal_string(4096), "4096");
    assert_eq!(parse_decimal("4096"), 4096);
}

#[test]
fn line_for_pos_counts_from_one() {
    let f = file("ab\ncd\n\nef");
    let l = f.line_for_pos(4);
    assert_eq!((l.number, l.begin_pos, l.end_pos), (2, 3, 5));
    let l = f.line_for_pos(6);
    assert_eq!((l.number, l.begin_pos, l.end_pos), (3, 6, 6));
    let l = f.line_for_pos(0);
    assert_eq!((l.number, l.begin_pos, l.end_pos), (1, 0, 2));
}

#[test]
fn join_covers_both_locations() {
    let f = file("0123456789");
    let a = Loc { file: f.clone(), begin_pos: 2, end_pos: 4 };
    let b = Loc { file: f.clone(), begin_pos: 3, end_pos: 8 };
    let j = a.join(&b);
    assert_eq!((j.begin_pos, j.end_pos), (2, 8));
}

#[test]
fn annotation_status_append() {
    use_status();
}

fn use_status() {
    let (e, t, p, u) = (AnnotationStatus::Empty, AnnotationStatus::Typed, AnnotationStatus::Partial, AnnotationStatus::Untyped);
    assert_eq!(t.append(t), t);
    assert_eq!(u.append(u), u);
    assert_eq!(e.append(u), u);
    assert_eq!(t.append(u), p);
    assert_eq!(t.append(e), p);
    assert_eq!(p.append(t), p);
}

#[test]
fn type_scope_knows_its_parameters() {
    let mut g = ObjectGraph::new();
    let f = file("class Box[T]; end");
    let t = Id(Loc { file: f.clone(), begin_pos: 10, end_pos: 11 }, "T".to_owned());
    let boxed = g.define_class(None, g.Object, "Box", g.Object, vec![t]);
    let scope = Rc::new(Scope { parent: None, module: boxed });
    let ts = TypeScope::new(&g, scope, boxed);
    assert!(ts.is_param(&g, "T"));
    assert!(!ts.is_param(&g, "U"));
    let ts2 = TypeScope::extend(ts, "U".to_owned());
    assert!(ts2.is_param(&g, "U"));
    assert!(ts2.is_param(&g, "T"));
    assert_eq!(ts2.constant_scope().module, boxed);
}

#[test]
fn definitions_queue_in_order() {
    let f = file("def a; end");
    let mut d = Definitions::new();
    d.add_method(MethodDef::AttrReader {
        module: 1,
        visi: MethodVisibility::Public,
        name: Id(Loc { file: f.clone(), begin_pos: 4, end_pos: 5 }, "a".to_owned()),
    });
    let _ = d;
}

#[test]
fn driver_records_declarations_and_diagnostics() {
    let f = file("x = 1");
    let mut driver = Driver::new(f.clone());
    assert!(!driver.is_declared("x"));
    driver.declare("x");
    assert!(driver.is_declared("x"));
    let tok = Token::new(0, 1, "x".to_owned());
    driver.error("bad".to_owned(), tok.location(f.clone()));
    let ds = driver.into_diagnostics();
    assert_eq!(ds.len(), 1);
    assert_eq!(ds[0].level, Level::Error);
    assert_eq!((ds[0].loc.begin_pos, ds[0].loc.end_pos), (0, 1));
}

#[test]
fn a_sequence_of_inserts_reads_back_by_id() {
    let mut m: SeqMap<u32> = SeqMap::new();
    let inserts = [Some(10), None, Some(20), Some(30), None, Some(40)];
    let mut ids = Vec::new();
    for v in inserts {
        ids.push(m.insert(v));
    }
    assert_eq!(ids, vec![1, NULL_ID, 2, 3, NULL_ID, 4]);
    for (k, v) in inserts.iter().enumerate() {
        if let Some(x) = v {
            assert_eq!(m.get(ids[k]), Some(x));
        }
    }
    assert_eq!(m.get(NULL_ID), None);
}

#[test]
fn an_extended_type_scope_has_the_added_and_the_module_parameters() {
    let mut g = ObjectGraph::new();
    let f = file("class Pair[A]; end");
    let a = Id(Loc { file: f.clone(), begin_pos: 11, end_pos: 12 }, "A".to_owned());
    let pair = g.define_class(None, g.Object, "Pair", g.Object, vec![a]);
    let scope = Rc::new(Scope { parent: None, module: pair });
    let ts = TypeScope::new(&g, scope.clone(), g.Object);
    let ts = TypeScope::extend(TypeScope::extend(ts, "X".to_owned()), "Y".to_owned());
    for n in ["X", "Y", "A"] {
        assert!(ts.is_param(&g, n));
    }
    assert!(!ts.is_param(&g, "Z"));
    assert!(Rc::ptr_eq(&ts.constant_scope(), &scope));
}
