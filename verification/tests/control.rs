use typedruby::typecheck::control::{Computation, ComputationKind, ComputationPredicate, EvalResult};
use typedruby::typecheck::locals::Locals;
use typedruby::typecheck::types::TypeRef;

fn is_divergent(c: &Computation) -> bool {
    matches!(&*c.0, ComputationKind::Divergent(..))
}

#[test]
fn a_computation_has_results_where_some_branch_gives_a_value() {
    let r = Computation::result(TypeRef(3), Locals::new());
    assert!(r.has_results());
    assert!(!Computation::return_(TypeRef(1)).has_results());
    assert!(!Computation::raise(Locals::new()).has_results());
    assert!(!Computation::redo().has_results());
    let no = Computation::divergent(Computation::retry(), Computation::redo());
    assert!(!no.has_results());
    let yes = Computation::divergent(Computation::retry(), Computation::divergent(Computation::redo(), r));
    assert!(yes.has_results());
    assert!(yes.capture_next().has_results());
}

#[test]
fn divergent_option_keeps_what_there_is() {
    assert!(Computation::divergent_option(None, None).is_none());
    let one = Computation::divergent_option(Some(Computation::redo()), None).unwrap();
    assert!(matches!(&*one.0, ComputationKind::Redo));
    let other = Computation::divergent_option(None, Some(Computation::retry())).unwrap();
    assert!(matches!(&*other.0, ComputationKind::Retry));
    let both = Computation::divergent_option(Some(Computation::redo()), Some(Computation::retry())).unwrap();
    assert!(is_divergent(&both));
}

#[test]
fn appended_predicates_end_either_way() {
    let a = ComputationPredicate::result(Some(Computation::result(TypeRef(1), Locals::new())), None);
    let b = ComputationPredicate::non_result(Computation::redo());
    let c = a.append(b);
    assert!(c.truthy.as_ref().unwrap().has_results());
    assert!(c.falsy.is_none());
    assert!(matches!(&*c.non_result.as_ref().unwrap().0, ComputationKind::Redo));
    let d = ComputationPredicate::result(Some(Computation::redo()), Some(Computation::retry()));
    let e = ComputationPredicate::result(Some(Computation::retry()), None);
    let f = d.append(e);
    assert!(is_divergent(f.truthy.as_ref().unwrap()));
    assert!(matches!(&*f.falsy.as_ref().unwrap().0, ComputationKind::Retry));
    assert!(f.non_result.is_none());
}

#[test]
fn an_evaluation_result_becomes_a_computation() {
    let c = EvalResult::Value(TypeRef(2), Locals::new()).into_computation();
    assert!(matches!(&*c.0, ComputationKind::Result(TypeRef(2), _)));
    let d = EvalResult::Both(TypeRef(2), Locals::new(), Computation::redo()).into_computation();
    match &*d.0 {
        ComputationKind::Divergent(a, b) => {
            assert!(a.has_results());
            assert!(matches!(&*b.0, ComputationKind::Redo));
        }
        _ => panic!("expected two ways"),
    }
    let e = EvalResult::NonResult(Computation::retry()).into_computation();
    assert!(matches!(&*e.0, ComputationKind::Retry));
}

#[test]
fn seq_goes_on_from_each_value_and_keeps_the_rest() {
    let c = Computation::divergent(Computation::result(TypeRef(4), Locals::new()), Computation::redo());
    let r = c.seq(&|ty, _locals| Computation::return_(TypeRef(ty.0 + 1)));
    match &*r.0 {
        ComputationKind::Divergent(a, b) => {
            assert!(matches!(&*a.0, ComputationKind::Return(TypeRef(5))));
            assert!(matches!(&*b.0, ComputationKind::Redo));
        }
        _ => panic!("expected two ways"),
    }
    assert!(!r.has_results());
}

#[test]
fn map_locals_passes_the_locals_of_values_and_raises() {
    let c = Computation::divergent(Computation::raise(Locals::new()), Computation::result(TypeRef(1), Locals::new()));
    let r = c.map_locals(&|l: Locals| l.extend());
    match &*r.0 {
        ComputationKind::Divergent(a, b) => {
            match &*a.0 {
                ComputationKind::Raise(l) => assert!(l.sc.parent.is_some()),
                _ => panic!("expected a raise"),
            }
            match &*b.0 {
                ComputationKind::Result(TypeRef(1), l) => assert!(l.sc.parent.is_some()),
                _ => panic!("expected a value"),
            }
        }
        _ => panic!("expected two ways"),
    }
}

#[test]
fn evaluation_results_chain() {
    let m = EvalResult::Value(2usize, Locals::new()).map(|v| v * 10);
    assert!(matches!(m, EvalResult::Value(20, _)));
    let b = EvalResult::Both(3usize, Locals::new(), Computation::redo()).map(|v| v + 1);
    match b {
        EvalResult::Both(4, _, c) => assert!(matches!(&*c.0, ComputationKind::Redo)),
        _ => panic!("expected both"),
    }
    let n = EvalResult::<usize>::NonResult(Computation::retry()).map(|v| v + 1);
    assert!(matches!(n, EvalResult::NonResult(_)));

    let t = EvalResult::Both(1usize, Locals::new(), Computation::redo())
        .and_then(|v, l| EvalResult::Both(v + 1, l, Computation::retry()));
    match t {
        EvalResult::Both(2, _, c) => match &*c.0 {
            ComputationKind::Divergent(a, b) => {
                assert!(matches!(&*a.0, ComputationKind::Redo));
                assert!(matches!(&*b.0, ComputationKind::Retry));
            }
            _ => panic!("expected two ways"),
        },
        _ => panic!("expected both"),
    }
    let u = EvalResult::Both(1usize, Locals::new(), Computation::redo())
        .and_then(|_v, _l| EvalResult::<usize>::NonResult(Computation::retry()));
    assert!(matches!(u, EvalResult::NonResult(_)));

    let c = EvalResult::Both(TypeRef(7), Locals::new(), Computation::redo())
        .and_then_comp(|ty, l| Computation::result(ty, l));
    match &*c.0 {
        ComputationKind::Divergent(a, b) => {
            assert!(matches!(&*a.0, ComputationKind::Redo));
            assert!(matches!(&*b.0, ComputationKind::Result(TypeRef(7), _)));
        }
        _ => panic!("expected two ways"),
    }
}
