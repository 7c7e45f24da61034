use std::rc::Rc;

use typedruby::ast::{Id, Loc, Node, SourceFile};
use typedruby::object::{ConstantEntry, ObjectGraph};
use typedruby::typecheck::call::{match_prototype_with_invocation, ArgError};
use typedruby::typecheck::eval::BlockArg;
use typedruby::typecheck::locals::{BoundType, LocalEntry, LocalEntryMerge, LocalTable, Locals, PinnedType};
use typedruby::typecheck::types::{Arg, SplatArg, Type, TypeContext, TypeEnv, TypeRef};

fn loc(b: usize, e: usize) -> Loc {
    let file = Rc::new(SourceFile::new("t.rb".into(), "def foo(a, b) end".to_owned()));
    Loc { file, begin_pos: b, end_pos: e }
}

fn graph_with_hash() -> ObjectGraph {
    let mut g = ObjectGraph::new();
    let object = g.Object;
    let h = g.new_class("Hash".to_owned(), object, vec![Id(loc(0, 1), "K".into()), Id(loc(0, 1), "V".into())]);
    assert!(g.set_const(object, "Hash", Rc::new(ConstantEntry::Module { loc: None, value: h })).is_ok());
    g
}

fn env() -> (ObjectGraph, TypeEnv) {
    let g = graph_with_hash();
    let e = TypeEnv::new(&g);
    (g, e)
}

fn req(ty: TypeRef) -> Arg {
    Arg::Required { loc: loc(0, 1), ty }
}

fn opt(ty: TypeRef) -> Arg {
    Arg::Optional { loc: loc(0, 1), ty, expr: Rc::new(Node::Nil(loc(0, 1))) }
}

fn kwarg(name: &str, ty: TypeRef) -> Arg {
    Arg::Kwarg { loc: loc(2, 3), name: name.to_owned(), ty }
}

fn kwopt(name: &str, ty: TypeRef) -> Arg {
    Arg::Kwoptarg { loc: loc(4, 6), name: name.to_owned(), ty, expr: Rc::new(Node::Nil(loc(0, 1))) }
}

fn errors_of(errors: &[ArgError]) -> Vec<String> {
    errors.iter().map(|e| match e {
        ArgError::TooFewArguments => "too few".to_owned(),
        ArgError::TooManyArguments(l) => format!("too many at {}", l.begin_pos),
        ArgError::MissingKeyword(n) => format!("missing {}", n),
        ArgError::UnknownKeyword(n) => format!("unknown {}", n),
        ArgError::UnexpectedSplat(l) => format!("splat at {}", l.begin_pos),
    }).collect()
}

#[test]
fn pruning_follows_a_local_variable_to_its_type() {
    let (g, mut e) = env();
    let any = e.any(loc(0, 3));
    let var = e.new_var(loc(4, 7));
    let lv = e.local_variable(loc(8, 9), "x".to_owned(), any);
    assert_eq!(e.prune(lv), any);
    assert_eq!(e.prune(var), var);
    assert_eq!(e.prune(any), any);
    assert_eq!(e.get(lv).loc().begin_pos, 8);
    assert_eq!(SplatArg::Value(lv).loc(&e).begin_pos, 8);
    assert!(matches!(any.deref(&e), Type::Any { .. }));
}

#[test]
fn type_context_pairs_parameter_names_with_types() {
    let (g, mut e) = env();
    let k = e.any(loc(0, 1));
    let v = e.new_var(loc(0, 1));
    let hash = g.get_const(g.Object, "Hash").and_then(|c| c.module()).unwrap();
    let ctx = TypeContext::instance(&g, hash, vec![k, v]);
    let names: Vec<(String, TypeRef)> = ctx.type_names.iter().map(|(n, t)| (n.clone(), *t)).collect();
    assert_eq!(names, vec![("K".to_owned(), k), ("V".to_owned(), v)]);
    let ctx2 = TypeContext::with_type(&g, k, g.Object, vec![]);
    assert!(ctx2.type_names.is_empty());
    assert_eq!(ctx2.class, g.Object);
}

#[test]
fn required_arguments_pair_up_from_both_ends() {
    let (g, mut e) = env();
    let p1 = e.any(loc(0, 1));
    let p2 = e.any(loc(0, 1));
    let a1 = e.new_var(loc(5, 6));
    let a2 = e.new_var(loc(7, 8));
    let r = match_prototype_with_invocation(&mut e, &g, &[req(p1), req(p2)], &[SplatArg::Value(a1), SplatArg::Value(a2)]);
    assert_eq!(r.matches, vec![(p1, a1), (p2, a2)]);
    assert!(r.errors.is_empty());
}

#[test]
fn missing_and_extra_arguments_are_errors() {
    let (g, mut e) = env();
    let p1 = e.any(loc(0, 1));
    let p2 = e.any(loc(0, 1));
    let a1 = e.new_var(loc(5, 6));
    let a2 = e.new_var(loc(7, 8));
    let r = match_prototype_with_invocation(&mut e, &g, &[req(p1), req(p2)], &[SplatArg::Value(a1)]);
    assert_eq!(r.matches, vec![(p1, a1)]);
    assert_eq!(errors_of(&r.errors), vec!["too few"]);
    let r = match_prototype_with_invocation(&mut e, &g, &[req(p1)], &[SplatArg::Value(a1), SplatArg::Value(a2)]);
    assert_eq!(r.matches, vec![(p1, a1)]);
    assert_eq!(errors_of(&r.errors), vec!["too many at 7"]);
}

#[test]
fn optional_and_rest_arguments_take_what_is_left() {
    let (g, mut e) = env();
    let p1 = e.any(loc(0, 1));
    let o1 = e.any(loc(0, 1));
    let rest = e.any(loc(0, 1));
    let a: Vec<TypeRef> = (0..4).map(|i| e.new_var(loc(i, i + 1))).collect();
    let proto = vec![req(p1), opt(o1), Arg::Rest { loc: loc(0, 1), ty: rest }];
    let args: Vec<SplatArg> = a.iter().map(|t| SplatArg::Value(*t)).collect();
    let r = match_prototype_with_invocation(&mut e, &g, &proto, &args);
    assert_eq!(r.matches, vec![(p1, a[0]), (o1, a[1]), (rest, a[2]), (rest, a[3])]);
    assert!(r.errors.is_empty());
    let r = match_prototype_with_invocation(&mut e, &g, &proto, &args[..1]);
    assert_eq!(r.matches, vec![(p1, a[0])]);
    assert!(r.errors.is_empty());
}

#[test]
fn a_splat_matches_every_required_argument() {
    let (g, mut e) = env();
    let p1 = e.any(loc(0, 1));
    let p2 = e.any(loc(0, 1));
    let s = e.new_var(loc(3, 4));
    let r = match_prototype_with_invocation(&mut e, &g, &[req(p1), req(p2)], &[SplatArg::Splat(s)]);
    assert_eq!(r.matches, vec![(p1, s), (p2, s)]);
    assert_eq!(errors_of(&r.errors), vec!["too many at 3"]);
}

#[test]
fn keywords_match_by_name() {
    let (g, mut e) = env();
    let ka = e.any(loc(0, 1));
    let kb = e.any(loc(0, 1));
    let va = e.new_var(loc(1, 2));
    let vc = e.new_var(loc(3, 4));
    let hash = e.keyword_hash(loc(9, 10), vec![("a".to_owned(), va), ("c".to_owned(), vc)], None);
    let proto = vec![kwarg("a", ka), kwarg("b", kb)];
    let r = match_prototype_with_invocation(&mut e, &g, &proto, &[SplatArg::Value(hash)]);
    assert_eq!(r.matches, vec![(ka, va)]);
    assert_eq!(errors_of(&r.errors), vec!["missing b", "unknown c"]);
}

#[test]
fn a_double_splat_parameter_takes_unknown_keywords() {
    let (g, mut e) = env();
    let ka = e.any(loc(0, 1));
    let rest = e.any(loc(0, 1));
    let va = e.new_var(loc(1, 2));
    let vc = e.new_var(loc(3, 4));
    let sp = e.new_var(loc(5, 6));
    let hash = e.keyword_hash(loc(9, 10), vec![("c".to_owned(), vc), ("a".to_owned(), va)], Some(sp));
    let proto = vec![kwopt("a", ka), Arg::Kwrest { loc: loc(0, 1), ty: rest }];
    let r = match_prototype_with_invocation(&mut e, &g, &proto, &[SplatArg::Value(hash)]);
    assert_eq!(r.matches, vec![(ka, va), (rest, vc), (rest, sp)]);
    assert!(r.errors.is_empty());
}

#[test]
fn without_a_keyword_hash_required_keywords_are_missing() {
    let (g, mut e) = env();
    let ka = e.any(loc(0, 1));
    let kb = e.any(loc(0, 1));
    let r = match_prototype_with_invocation(&mut e, &g, &[kwopt("b", kb), kwarg("a", ka)], &[]);
    assert!(r.matches.is_empty());
    assert_eq!(errors_of(&r.errors), vec!["missing a"]);
}

#[test]
fn a_hash_value_meets_the_keywords_as_a_keyword_hash() {
    let (g, mut e) = env();
    let ka = e.any(loc(0, 1));
    let kb = e.any(loc(0, 1));
    let k = e.any(loc(0, 1));
    let v = e.any(loc(0, 1));
    let hash_class = e.hash_class;
    let h = e.instance(&g, loc(7, 8), hash_class, vec![k, v]);
    let before = e.types.len();
    let r = match_prototype_with_invocation(&mut e, &g, &[kwarg("a", ka), kwopt("b", kb)], &[SplatArg::Value(h)]);
    assert!(r.errors.is_empty());
    assert_eq!(r.matches, vec![(TypeRef(before), h)]);
    match e.get(TypeRef(before)) {
        Type::KeywordHash { keywords, splat, loc: l, .. } => {
            let names: Vec<&str> = keywords.iter().map(|(n, _)| n.as_str()).collect();
            assert_eq!(names, vec!["b", "a"]);
            assert!(splat.is_none());
            assert_eq!((l.begin_pos, l.end_pos), (2, 6));
        },
        _ => panic!("expected a keyword hash"),
    }
}

fn bound(ty: TypeRef, at: usize) -> LocalEntry {
    LocalEntry::Bound(BoundType { ty, asgn_loc: loc(at, at + 1) })
}

fn ty_of(e: &Option<LocalEntry>) -> Option<TypeRef> {
    match e {
        Some(LocalEntry::Bound(b)) => Some(b.ty),
        Some(LocalEntry::Pinned(p)) | Some(LocalEntry::ConditionallyPinned(p)) => Some(p.ty),
        None => None,
    }
}

#[test]
fn the_most_recent_binding_is_found() {
    let t = LocalTable::new();
    let t1 = t.insert("x".to_owned(), bound(TypeRef(1), 0));
    let t2 = t1.insert("y".to_owned(), bound(TypeRef(2), 1));
    let t3 = t2.insert("x".to_owned(), LocalEntry::Pinned(PinnedType { ty: TypeRef(3), pinned_loc: loc(2, 3) }));
    assert_eq!(ty_of(&t3.get("x")), Some(TypeRef(3)));
    assert_eq!(ty_of(&t1.get("x")), Some(TypeRef(1)));
    assert_eq!(ty_of(&t3.get("y")), Some(TypeRef(2)));
    assert!(t3.get("z").is_none());
    assert_eq!(t3.iter().len(), 4);
}

#[test]
fn bindings_since_an_earlier_table_keep_the_latest_of_each_name() {
    let t1 = LocalTable::new().insert("a".to_owned(), bound(TypeRef(1), 0));
    let t2 = t1.insert("x".to_owned(), bound(TypeRef(2), 1));
    let t3 = t2.insert("y".to_owned(), bound(TypeRef(3), 2));
    let t4 = t3.insert("x".to_owned(), bound(TypeRef(4), 3));
    let since = t4.bindings_since(&t1);
    let got: Vec<(String, Option<TypeRef>)> = since.iter().map(|(n, e)| (n.clone(), ty_of(&Some(e.clone())))).collect();
    assert_eq!(got, vec![("x".to_owned(), Some(TypeRef(4))), ("y".to_owned(), Some(TypeRef(3)))]);
    assert!(t4.ref_eq(&t4.clone()));
    assert!(!t4.ref_eq(&t3));
    assert!(LocalTable::new().ref_eq(&LocalTable::new()));
}

#[test]
fn an_assignment_reads_back_in_its_scope() {
    let l = Locals::new();
    let (pin, l2) = l.assign("x".to_owned(), TypeRef(5), &loc(3, 4));
    assert!(pin.is_none());
    let (e, _) = l2.lookup("x", &loc(9, 10));
    assert!(matches!(e, Some(LocalEntry::Bound(b)) if b.ty == TypeRef(5) && b.asgn_loc.begin_pos == 3));
    let (none, _) = l2.lookup("y", &loc(0, 1));
    assert!(none.is_none());
}

#[test]
fn reading_an_outer_variable_pins_it() {
    let outer = Locals::new().assign_shadow("x".to_owned(), TypeRef(7), &loc(0, 1));
    let inner = outer.extend();
    let (e, after) = inner.lookup("x", &loc(11, 12));
    assert!(matches!(e, Some(LocalEntry::Pinned(p)) if p.ty == TypeRef(7) && p.pinned_loc.begin_pos == 11));
    let (pin, _) = after.extend().assign("x".to_owned(), TypeRef(8), &loc(13, 14));
    assert!(matches!(pin, Some(p) if p.ty == TypeRef(7)));
    let back = after.unextend();
    let (e2, _) = back.lookup("x", &loc(0, 1));
    assert!(matches!(e2, Some(LocalEntry::Pinned(_))));
}

#[test]
fn refining_narrows_a_bound_variable_only() {
    let l = Locals::new().assign_shadow("x".to_owned(), TypeRef(1), &loc(2, 3));
    let r = l.refine("x", TypeRef(2));
    let (e, _) = r.lookup("x", &loc(0, 1));
    assert!(matches!(e, Some(LocalEntry::Bound(b)) if b.ty == TypeRef(2) && b.asgn_loc.begin_pos == 2));
    let r2 = Locals::new().refine("y", TypeRef(2));
    assert!(r2.lookup("y", &loc(0, 1)).0.is_none());
}

#[test]
fn unions_keep_distinct_members_once() {
    let (g, mut e) = env();
    let string = g.String;
    let integer = g.Integer;
    let s1 = e.instance(&g, loc(0, 1), string, vec![]);
    let s2 = e.instance(&g, loc(2, 3), string, vec![]);
    let i1 = e.instance(&g, loc(4, 5), integer, vec![]);
    assert!(e.same_type(s1, s2));
    assert!(!e.same_type(s1, i1));
    assert_eq!(e.union(&loc(0, 9), s1, s2), s1);
    let u = e.union(&loc(0, 9), s1, i1);
    match e.get(u) {
        Type::Union { types, .. } => assert_eq!(types.clone(), vec![s1, i1]),
        _ => panic!("expected a union"),
    }
    assert_eq!(e.possible_types(u), vec![s1, i1]);
    let before = e.types.len();
    let u2 = e.union(&loc(0, 9), u, s2);
    assert!(matches!(e.get(u2), Type::Union { types, .. } if types.clone() == vec![s1, i1]));
    assert_eq!(e.types.len(), before + 1);
}

#[test]
fn nillable_adds_nil_to_a_type() {
    let (g, mut e) = env();
    let string = g.String;
    let s = e.instance(&g, loc(0, 1), string, vec![]);
    let n = e.nillable(&loc(0, 1), s);
    match e.get(n) {
        Type::Union { types, .. } => {
            assert_eq!(types.len(), 2);
            assert!(matches!(e.get(types[0]), Type::Instance { class, .. } if *class == e.nil_class));
            assert_eq!(types[1], s);
        },
        _ => panic!("expected a union"),
    }
}

#[test]
fn merging_entries_where_paths_meet() {
    let (g, mut e) = env();
    let string = g.String;
    let integer = g.Integer;
    let s = e.instance(&g, loc(0, 1), string, vec![]);
    let i = e.instance(&g, loc(2, 3), integer, vec![]);
    let m = LocalEntry::merge(Some(bound(s, 4)), Some(bound(i, 6)), &mut e);
    match m {
        LocalEntryMerge::Okay(LocalEntry::Bound(b)) => {
            assert_eq!(b.asgn_loc.begin_pos, 4);
            assert!(matches!(e.get(b.ty), Type::Union { types, .. } if types.clone() == vec![s, i]));
        },
        _ => panic!("expected a bound entry"),
    }
    let pin = PinnedType { ty: s, pinned_loc: loc(7, 8) };
    let m2 = LocalEntry::merge(None, Some(LocalEntry::Pinned(pin.clone())), &mut e);
    assert!(matches!(m2, LocalEntryMerge::Okay(LocalEntry::ConditionallyPinned(p)) if p.ty == s));
    let m3 = LocalEntry::merge(Some(bound(i, 1)), Some(LocalEntry::Pinned(pin)), &mut e);
    assert!(matches!(m3, LocalEntryMerge::MustMatch(LocalEntry::Pinned(_), LocalEntry::Bound(_))));
    let m4 = LocalEntry::merge(Some(bound(i, 1)), None, &mut e);
    assert!(matches!(m4, LocalEntryMerge::Okay(LocalEntry::Bound(b)) if matches!(e.get(b.ty), Type::Union { .. })));
}

#[test]
fn a_subclass_of_hash_also_meets_the_keywords() {
    let (mut g, _) = env();
    let hash = g.get_const(g.Object, "Hash").and_then(|c| c.module()).unwrap();
    let sub = g.new_class("MyHash".to_owned(), hash, vec![]);
    let mut e = TypeEnv::new(&g);
    let ka = e.any(loc(0, 1));
    let h = e.instance(&g, loc(7, 8), sub, vec![]);
    let before = e.types.len();
    let r = match_prototype_with_invocation(&mut e, &g, &[kwarg("a", ka)], &[SplatArg::Value(h)]);
    assert_eq!(r.matches, vec![(TypeRef(before), h)]);
    assert!(r.errors.is_empty());
}

#[test]
fn instance_and_variable_questions_look_through_bindings() {
    let (g, mut e) = env();
    let string = g.String;
    let s = e.instance(&g, loc(0, 1), string, vec![]);
    let v = e.new_var(loc(0, 1));
    let lv = e.local_variable(loc(0, 1), "x".to_owned(), s);
    assert!(e.is_unresolved_var(v));
    assert!(!e.is_unresolved_var(lv));
    assert!(e.is_instance(&g, lv, string));
    assert!(e.is_instance(&g, lv, g.Object));
    assert!(!e.is_instance(&g, lv, g.Integer));
    assert!(!e.is_instance(&g, v, g.Object));
}

#[test]
fn a_tuple_spreads_into_passed_arguments() {
    let (_g, mut e) = env();
    let a = e.any(loc(0, 1));
    let b = e.any(loc(0, 1));
    let c = e.any(loc(0, 1));
    let t = e.tuple(loc(0, 1), vec![a], Some(b), vec![c]);
    assert_eq!(e.elements_from_tuple(t), vec![SplatArg::Value(a), SplatArg::Splat(b), SplatArg::Value(c)]);
}

#[test]
fn a_hash_with_symbol_keys_stands_for_keywords() {
    let (g, mut e) = env();
    let hash = g.get_const(g.Object, "Hash").and_then(|c| c.module()).unwrap();
    let sym = g.Symbol;
    let string = g.String;
    let k = e.instance(&g, loc(0, 1), sym, vec![]);
    let v = e.any(loc(0, 1));
    let h = e.instance(&g, loc(5, 6), hash, vec![k, v]);
    assert!(e.is_keyword_hash(&g, h));
    let before = e.types.len();
    let kh = e.to_keyword_hash(&g, h).unwrap();
    assert_eq!(kh, TypeRef(before));
    assert!(matches!(e.get(kh), Type::KeywordHash { keywords, splat: Some(s), loc: l, .. }
        if keywords.is_empty() && *s == v && l.begin_pos == 5));
    assert!(e.is_keyword_hash(&g, kh));
    assert_eq!(e.to_keyword_hash(&g, kh), Some(kh));
    let sk = e.instance(&g, loc(0, 1), string, vec![]);
    let h2 = e.instance(&g, loc(0, 1), hash, vec![sk, v]);
    assert!(!e.is_keyword_hash(&g, h2));
    assert_eq!(e.to_keyword_hash(&g, h2), None);
}

#[test]
fn a_block_is_where_it_is_written() {
    let b = BlockArg::Pass { loc: loc(3, 5), node: Rc::new(Node::Nil(loc(4, 5))) };
    assert_eq!(b.loc().begin_pos, 3);
    let l = BlockArg::Literal { loc: loc(6, 9), args: None, body: None };
    assert_eq!(l.loc().end_pos, 9);
}

#[test]
fn builders_make_arrays_hashes_and_the_any_prototype() {
    let mut g = graph_with_hash();
    let object = g.Object;
    let array = g.new_class("Array".to_owned(), object, vec![Id(loc(0, 1), "E".into())]);
    assert!(g.set_const(object, "Array", Rc::new(ConstantEntry::Module { loc: None, value: array })).is_ok());
    let mut e = TypeEnv::new(&g);
    let x = e.any(loc(0, 1));
    let a = e.array(&g, loc(1, 2), x);
    assert!(matches!(e.get(a), Type::Instance { class, type_parameters, .. } if *class == array && type_parameters.clone() == vec![x]));
    let h = e.hash(&g, loc(1, 2), x, a);
    assert!(matches!(e.get(h), Type::Instance { type_parameters, .. } if type_parameters.clone() == vec![x, a]));
    let i = e.instance0(&g, loc(3, 4), g.String);
    assert!(matches!(e.get(i), Type::Instance { class, .. } if *class == g.String));
    let before = e.types.len();
    let p = e.any_prototype(loc(5, 6));
    assert_eq!(p.retn, TypeRef(before));
    assert!(matches!(&p.args[..], [Arg::Rest { .. }, Arg::Block { .. }]));
    assert!(p.constraints.is_empty());
}
