//! A value that is a left one, a right one, or both.

use vstd::prelude::*;

verus! {

/// A left value, a right value, or both.
pub enum Or<L, R> {
    Left(L),
    Right(R),
    Both(L, R),
}

impl<L, R> Or<L, R> {
    /// Applies `f` to the left value, if there is one.
    pub fn map_left<F, Lt>(self, f: F) -> (r: Or<Lt, R>)
        where
            F: FnOnce(L) -> Lt,
        requires
            match self {
                Or::Left(l) => f.requires((l,)),
                Or::Both(l, _) => f.requires((l,)),
                Or::Right(_) => true,
            },
        ensures
            match (self, r) {
                (Or::Left(l), Or::Left(x)) => f.ensures((l,), x),
                (Or::Both(l, b), Or::Both(x, y)) => f.ensures((l,), x) && y == b,
                (Or::Right(b), Or::Right(y)) => y == b,
                _ => false,
            },
    {
        match self {
            Or::Left(l) => Or::Left(f(l)),
            Or::Both(l, r) => Or::Both(f(l), r),
            Or::Right(r) => Or::Right(r),
        }
    }

    /// Applies `f` to the right value, if there is one.
    pub fn map_right<F, Rt>(self, f: F) -> (r: Or<L, Rt>)
        where
            F: FnOnce(R) -> Rt,
        requires
            match self {
                Or::Right(x) => f.requires((x,)),
                Or::Both(_, x) => f.requires((x,)),
                Or::Left(_) => true,
            },
        ensures
            match (self, r) {
                (Or::Left(a), Or::Left(x)) => x == a,
                (Or::Both(a, b), Or::Both(x, y)) => x == a && f.ensures((b,), y),
                (Or::Right(b), Or::Right(y)) => f.ensures((b,), y),
                _ => false,
            },
    {
        match self {
            Or::Left(l) => Or::Left(l),
            Or::Both(l, r) => Or::Both(l, f(r)),
            Or::Right(r) => Or::Right(f(r)),
        }
    }

    /// Combines two values: the left values are merged with `lf` and the
    /// right values with `rf` where both sides have one; a side that only one
    /// of them has is kept.
    pub fn append<Lf, Rf>(self, other: Or<L, R>, lf: Lf, rf: Rf) -> (r: Or<L, R>)
        where
            Lf: FnOnce(L, L) -> L,
            Rf: FnOnce(R, R) -> R,
        requires
            match (self, other) {
                (Or::Left(l1), Or::Left(l2)) => lf.requires((l1, l2)),
                (Or::Right(r1), Or::Right(r2)) => rf.requires((r1, r2)),
                (Or::Left(l1), Or::Both(l2, _)) => lf.requires((l1, l2)),
                (Or::Both(l1, _), Or::Left(l2)) => lf.requires((l1, l2)),
                (Or::Both(_, r1), Or::Right(r2)) => rf.requires((r1, r2)),
                (Or::Right(r1), Or::Both(_, r2)) => rf.requires((r1, r2)),
                (Or::Both(l1, r1), Or::Both(l2, r2)) => lf.requires((l1, l2)) && rf.requires((r1, r2)),
                _ => true,
            },
        ensures
            match (self, other) {
                (Or::Left(l1), Or::Left(l2)) => r matches Or::Left(x) && lf.ensures((l1, l2), x),
                (Or::Right(r1), Or::Right(r2)) => r matches Or::Right(y) && rf.ensures((r1, r2), y),
                (Or::Right(b), Or::Left(a)) => r == Or::Both(a, b),
                (Or::Left(a), Or::Right(b)) => r == Or::Both(a, b),
                (Or::Left(l1), Or::Both(l2, b)) => r matches Or::Both(x, y) && lf.ensures((l1, l2), x) && y == b,
                (Or::Both(l1, b), Or::Left(l2)) => r matches Or::Both(x, y) && lf.ensures((l1, l2), x) && y == b,
                (Or::Both(a, r1), Or::Right(r2)) => r matches Or::Both(x, y) && x == a && rf.ensures((r1, r2), y),
                (Or::Right(r1), Or::Both(a, r2)) => r matches Or::Both(x, y) && x == a && rf.ensures((r1, r2), y),
                (Or::Both(l1, r1), Or::Both(l2, r2)) => r matches Or::Both(x, y) && lf.ensures((l1, l2), x)
                    && rf.ensures((r1, r2), y),
            },
    {
        match (self, other) {
            (Or::Left(l1), Or::Left(l2)) => Or::Left(lf(l1, l2)),
            (Or::Right(r1), Or::Right(r2)) => Or::Right(rf(r1, r2)),
            (Or::Right(r), Or::Left(l)) => Or::Both(l, r),
            (Or::Left(l), Or::Right(r)) => Or::Both(l, r),
            (Or::Left(l1), Or::Both(l2, r)) => Or::Both(lf(l1, l2), r),
            (Or::Both(l1, r), Or::Left(l2)) => Or::Both(lf(l1, l2), r),
            (Or::Both(l, r1), Or::Right(r2)) => Or::Both(l, rf(r1, r2)),
            (Or::Right(r1), Or::Both(l, r2)) => Or::Both(l, rf(r1, r2)),
            (Or::Both(l1, r1), Or::Both(l2, r2)) => Or::Both(lf(l1, l2), rf(r1, r2)),
        }
    }
}

impl<T> Or<T, T> {
    /// The single value, or both values merged with `f`.
    pub fn flatten<F>(self, f: F) -> (r: T)
        where
            F: FnOnce(T, T) -> T,
        requires
            self matches Or::Both(l, r) ==> f.requires((l, r)),
        ensures
            match self {
                Or::Left(v) => r == v,
                Or::Right(v) => r == v,
                Or::Both(l, x) => f.ensures((l, x), r),
            },
    {
        match self {
            Or::Left(val) => val,
            Or::Right(val) => val,
            Or::Both(l, r) => f(l, r),
        }
    }
}

} // verus!
