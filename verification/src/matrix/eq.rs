use super::Matrix;
use vstd::prelude::*;
use vstd::std_specs::cmp::PartialEqSpec;

verus! {

impl<T, const M: usize, const N: usize> vstd::std_specs::cmp::PartialEqSpecImpl
    for Matrix<T, M, N> where
    T: PartialEq,
{
    open spec fn obeys_eq_spec() -> bool {
        T::obeys_eq_spec()
    }

    /// Two matrices are equal when their entries are, in every cell.
    open spec fn eq_spec(&self, other: &Self) -> bool {
        forall|i: int, j: int|
            0 <= i < M && 0 <= j < N ==> (#[trigger] self.at(i, j)).eq_spec(&other.at(i, j))
    }
}

impl<T, const M: usize, const N: usize> PartialEq
    for Matrix<T, M, N> where
    T: PartialEq,
{
    fn eq(&self, other: &Self) -> (r: bool) {
        let mut i: usize = 0;
        while i < M
            invariant
                i <= M,
                forall|a: int, b: int|
                    0 <= a < i && 0 <= b < N && T::obeys_eq_spec() ==> (#[trigger] self.at(
                        a,
                        b,
                    )).eq_spec(&other.at(a, b)),
            decreases M - i,
        {
            let mut j: usize = 0;
            while j < N
                invariant
                    i < M,
                    j <= N,
                    forall|a: int, b: int|
                        0 <= a < i && 0 <= b < N && T::obeys_eq_spec() ==> (#[trigger] self.at(
                            a,
                            b,
                        )).eq_spec(&other.at(a, b)),
                    forall|b: int|
                        0 <= b < j && T::obeys_eq_spec() ==> (#[trigger] self.at(i as int, b)).eq_spec(
                            &other.at(i as int, b),
                        ),
                decreases N - j,
            {
                if !(self[(i, j)] == other[(i, j)]) {
                    proof {
                        if T::obeys_eq_spec() {
                            assert(!self.at(i as int, j as int).eq_spec(
                                &other.at(i as int, j as int),
                            ));
                        }
                    }
                    return false;
                }
                j += 1;
            }
            i += 1;
        }
        true
    }
}

impl<T, const M: usize, const N: usize> Eq for Matrix<T, M, N> where T: Eq {

}

} // verus!
