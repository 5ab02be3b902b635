//! A value that is one of two cases.

use vstd::prelude::*;

verus! {

/// Holds either a left payload or a right payload.
pub enum Either<L, R> {
    Left(L),
    Right(R),
}

impl<L, R> Either<L, R> {
    /// Applies `f` to a left payload; a right payload stays as it is.
    pub fn map_left<F, T>(self, f: F) -> (r: Either<T, R>)
        where
            F: FnOnce(L) -> T,
        requires
            match self {
                Either::Left(l) => f.requires((l,)),
                Either::Right(_) => true,
            },
        ensures
            match self {
                Either::Left(l) => match r {
                    Either::Left(t) => f.ensures((l,), t),
                    Either::Right(_) => false,
                },
                Either::Right(x) => match r {
                    Either::Left(_) => false,
                    Either::Right(y) => y == x,
                },
            },
    {
        match self {
            Either::Left(l) => Either::Left(f(l)),
            Either::Right(r) => Either::Right(r),
        }
    }

    /// Applies `f` to a right payload; a left payload stays as it is.
    pub fn map_right<F, T>(self, f: F) -> (r: Either<L, T>)
        where
            F: FnOnce(R) -> T,
        requires
            match self {
                Either::Left(_) => true,
                Either::Right(x) => f.requires((x,)),
            },
        ensures
            match self {
                Either::Left(l) => match r {
                    Either::Left(y) => y == l,
                    Either::Right(_) => false,
                },
                Either::Right(x) => match r {
                    Either::Left(_) => false,
                    Either::Right(t) => f.ensures((x,), t),
                },
            },
    {
        match self {
            Either::Left(l) => Either::Left(l),
            Either::Right(x) => Either::Right(f(x)),
        }
    }
}

} // verus!
