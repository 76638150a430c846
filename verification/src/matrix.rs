use crate::error::Error;
use crate::identity::{IdAdd, IdMul};
use vstd::prelude::*;

pub mod aliases;
pub mod dets;
pub mod display;
pub mod eq;
pub mod iter;
pub mod ops;

verus! {

/// `core::array::from_fn`: builds an array by calling `f` once for each index,
/// in increasing order. Element `i` of the result is what `f` returned for `i`.
pub assume_specification<T, const N: usize, F>[ core::array::from_fn::<T, N, F> ](f: F) -> (r: [
    T;
    N
]) where F: FnMut(usize) -> T
    requires
        forall|i: usize| i < N ==> call_requires(f, (i,)),
    ensures
        forall|i: int| 0 <= i < N ==> call_ensures(f, (i as usize,), #[trigger] r@[i]),
;

/// A matrix of `M` rows and `N` columns, stored row by row.
///
/// The shape is part of the type, so the storage always holds exactly `M * N`
/// entries; a matrix with `M == 0` or `N == 0` holds none. In specifications the
/// entry in row `i` and column `j` is `m.at(i, j)`, the rows are `m@`, and
/// `m.flat()` lists all entries in row-major order.
#[derive(Debug, Clone)]
pub struct Matrix<T, const M: usize, const N: usize>([[T; N]; M]);

impl<T, const M: usize, const N: usize> View for Matrix<T, M, N> {
    type V = Seq<Seq<T>>;

    open spec fn view(&self) -> Seq<Seq<T>> {
        Seq::new(M as nat, |i: int| Seq::new(N as nat, |j: int| self.at(i, j)))
    }
}

proof fn lemma_array_exists<A, const K: usize>(f: spec_fn(int) -> A, n: nat) -> (a: [A; K])
    requires
        n <= K,
    ensures
        forall|i: int| 0 <= i < n ==> a[i] == f(i),
    decreases n,
{
    if n == 0 {
        arbitrary()
    } else {
        let prev = lemma_array_exists::<A, K>(f, (n - 1) as nat);
        vstd::array::spec_array_update(prev, n - 1, f(n - 1))
    }
}

/// In row-major order, position `i * n + j` with `j < n` lies in row `i` and
/// column `j`, and it lies before position `m * n` when `i < m`.
pub proof fn lemma_row_major(i: int, j: int, m: int, n: int)
    requires
        0 <= i < m,
        0 <= j < n,
    ensures
        0 <= i * n + j < m * n,
        (i * n + j) / n == i,
        (i * n + j) % n == j,
{
    vstd::arithmetic::div_mod::lemma_fundamental_div_mod_converse(i * n + j, n, i, j);
    assert(i * n + j < m * n) by (nonlinear_arith)
        requires
            0 <= i < m,
            0 <= j < n,
    ;
    assert(0 <= i * n) by (nonlinear_arith)
        requires
            0 <= i,
            0 <= n,
    ;
}

/// Every position `k` before `m * n` lies in a row `k / n` before `m` and a
/// column `k % n` before `n`.
pub proof fn lemma_row_major_inverse(k: int, m: int, n: int)
    requires
        0 <= k < m * n,
        0 <= m,
        0 <= n,
    ensures
        0 < n,
        0 <= k / n < m,
        0 <= k % n < n,
        (k / n) * n + k % n == k,
{
    assert(0 < n) by (nonlinear_arith)
        requires
            0 <= k < m * n,
            0 <= m,
            0 <= n,
    ;
    vstd::arithmetic::div_mod::lemma_fundamental_div_mod(k, n);
    vstd::arithmetic::div_mod::lemma_mod_bound(k, n);
    let q = k / n;
    assert(q * n == n * q) by (nonlinear_arith);
    assert(0 <= q < m) by (nonlinear_arith)
        requires
            0 <= k < m * n,
            0 < n,
            q * n + k % n == k,
            0 <= k % n < n,
    ;
}

impl<T, const M: usize, const N: usize> Matrix<T, M, N> {
    /// The entry in row `i` and column `j`, for `i < M` and `j < N`.
    pub closed spec fn at(self, i: int, j: int) -> T {
        self.0[i][j]
    }

    /// All entries in row-major order: row 0 first, each row from left to right.
    pub open spec fn flat(self) -> Seq<T> {
        Seq::new((M * N) as nat, |k: int| self.at(k / (N as int), k % (N as int)))
    }

    spec fn row_holds(row: [T; N], f: spec_fn(int, int) -> T, i: int) -> bool {
        forall|j: int| 0 <= j < N ==> row[j] == f(i, j)
    }

    spec fn rows_hold(rows: [[T; N]; M], f: spec_fn(int, int) -> T) -> bool {
        forall|i: int| 0 <= i < M ==> Self::row_holds(#[trigger] rows[i], f, i)
    }

    /// The matrix whose entry in row `i` and column `j` is `f(i, j)`.
    pub closed spec fn tabulate(f: spec_fn(int, int) -> T) -> Self {
        Matrix(choose|rows: [[T; N]; M]| Self::rows_hold(rows, f))
    }

    /// `tabulate(f)` holds `f(i, j)` in every cell.
    pub broadcast proof fn lemma_tabulate(f: spec_fn(int, int) -> T, i: int, j: int)
        requires
            0 <= i < M,
            0 <= j < N,
        ensures
            #[trigger] Self::tabulate(f).at(i, j) == f(i, j),
    {
        let row_of = |a: int| choose|row: [T; N]| Self::row_holds(row, f, a);
        let rows = lemma_array_exists::<[T; N], M>(row_of, M as nat);
        assert forall|a: int| 0 <= a < M implies Self::row_holds(#[trigger] rows[a], f, a) by {
            let row = lemma_array_exists::<T, N>(|b: int| f(a, b), N as nat);
            assert(Self::row_holds(row, f, a));
            assert(rows[a] == row_of(a));
        }
        assert(Self::rows_hold(rows, f));
        let chosen = choose|rows: [[T; N]; M]| Self::rows_hold(rows, f);
        assert(Self::row_holds(chosen[i], f, i));
    }

    /// Two matrices with the same entry in every cell are equal.
    pub proof fn lemma_ext_equal(self, other: Self)
        requires
            forall|i: int, j: int| 0 <= i < M && 0 <= j < N ==> self.at(i, j) == other.at(i, j),
        ensures
            self == other,
    {
        assert forall|i: int| 0 <= i < M implies self.0[i] == other.0[i] by {
            assert forall|j: int| 0 <= j < N implies self.0[i][j] == other.0[i][j] by {
                assert(self.at(i, j) == other.at(i, j));
            }
            assert(self.0[i] =~= other.0[i]);
        }
        assert(self.0 =~= other.0);
    }

    /// Position `i * N + j` of the row-major layout holds the entry of row `i`
    /// and column `j`.
    pub proof fn lemma_flat_index(self, i: int, j: int)
        requires
            0 <= i < M,
            0 <= j < N,
        ensures
            0 <= i * N + j < self.flat().len(),
            self.flat()[i * N + j] == self.at(i, j),
    {
        lemma_row_major(i, j, M as int, N as int);
    }

    /// Builds a matrix from its rows.
    pub fn new(rows: [[T; N]; M]) -> (r: Self)
        ensures
            forall|i: int, j: int| 0 <= i < M && 0 <= j < N ==> #[trigger] r.at(i, j) == rows[i][j],
    {
        Matrix(rows)
    }

    /// Builds a matrix from `M * N` entries given in row-major order.
    ///
    /// A list of any other length is rejected, and the error reports the shape
    /// that was asked for together with the length that was offered.
    pub fn from_entries(entries: &[T]) -> (r: Result<Self, Error>) where T: Copy
        ensures
            entries@.len() == M * N ==> r is Ok && r->Ok_0.flat() == entries@,
            entries@.len() == M * N ==> forall|i: int, j: int|
                0 <= i < M && 0 <= j < N ==> #[trigger] r->Ok_0.at(i, j) == entries@[i * N + j],
            entries@.len() != M * N ==> r == Err::<Self, Error>(
                Error::WrongEntriesLength { rows: M, cols: N, len: entries.len() },
            ),
    {
        let fits = match M.checked_mul(N) {
            Some(total) => total == entries.len(),
            None => false,
        };
        if !fits {
            return Err(Error::WrongEntriesLength { rows: M, cols: N, len: entries.len() });
        }
        let rows: [[T; N]; M] = core::array::from_fn(
            |i: usize| -> (row: [T; N])
                requires
                    i < M,
                ensures
                    forall|j: int| 0 <= j < N ==> #[trigger] row[j] == entries@[i * N + j],
                {
                    let row: [T; N] = core::array::from_fn(
                        |j: usize| -> (x: T)
                            requires
                                j < N,
                            ensures
                                x == entries@[i * N + j],
                            {
                                proof {
                                    lemma_row_major(i as int, j as int, M as int, N as int);
                                }
                                entries[i * N + j]
                            }
                    );
                    assert forall|j: int| 0 <= j < N implies #[trigger] row[j] == entries@[i * N
                        + j] by {
                        assert(row@[j] == entries@[i * N + j]);
                    }
                    row
                }
        );
        let m = Matrix(rows);
        proof {
            assert forall|i: int, j: int| 0 <= i < M && 0 <= j < N implies #[trigger] m.at(i, j)
                == entries@[i * N + j] by {
                assert(rows@[i][j] == entries@[i * N + j]);
            }
            assert forall|k: int| 0 <= k < M * N implies m.flat()[k] == entries@[k] by {
                lemma_row_major_inverse(k, M as int, N as int);
                assert(m.at(k / (N as int), k % (N as int)) == entries@[(k / (N as int)) * N + k % (
                N as int)]);
            }
            assert(m.flat() =~= entries@);
        }
        Ok(m)
    }

    /// The number of entries is zero.
    pub fn is_empty(&self) -> (r: bool)
        ensures
            r == (M == 0 || N == 0),
            r == (self.flat().len() == 0),
    {
        proof {
            if M > 0 && N > 0 {
                lemma_row_major(0, 0, M as int, N as int);
            } else {
                assert(M * N == 0) by (nonlinear_arith)
                    requires
                        M == 0 || N == 0,
                ;
            }
        }
        M == 0 || N == 0
    }

    /// The matrix has exactly one row.
    pub fn is_row(&self) -> (r: bool)
        ensures
            r == (M == 1),
    {
        M == 1
    }

    /// The matrix has exactly one column.
    pub fn is_col(&self) -> (r: bool)
        ensures
            r == (N == 1),
    {
        N == 1
    }

    /// The matrix has as many rows as columns.
    pub fn is_square(&self) -> (r: bool)
        ensures
            r == (M == N),
    {
        M == N
    }

    /// A reference to the entry in row `i` and column `j`, or `None` when the
    /// position lies outside the matrix.
    pub fn get(&self, i: usize, j: usize) -> (r: Option<&T>)
        ensures
            r == (if i < M && j < N {
                Some(&self.at(i as int, j as int))
            } else {
                None
            }),
    {
        if i < M && j < N {
            Some(&self.0[i][j])
        } else {
            None
        }
    }

    /// A mutable reference to the entry in row `i` and column `j`, or `None`
    /// when the position lies outside the matrix. Writing through the reference
    /// changes that entry and no other.
    pub fn get_mut(&mut self, i: usize, j: usize) -> (r: Option<&mut T>)
        ensures
            r is Some == (i < M && j < N),
            r is Some ==> *r->0 == old(self).at(i as int, j as int),
            r is Some ==> forall|a: int, b: int|
                0 <= a < M && 0 <= b < N ==> #[trigger] final(self).at(a, b) == (if a == i && b
                    == j {
                    *final(r->0)
                } else {
                    old(self).at(a, b)
                }),
            r is None ==> *final(self) == *old(self),
    {
        if i < M && j < N {
            Some(&mut self.0[i][j])
        } else {
            None
        }
    }
}

impl<T, const M: usize, const N: usize> Matrix<T, M, N> {
    /// References to all entries, arranged as the matrix is.
    pub fn rows(&self) -> (r: [[&T; N]; M])
        ensures
            forall|i: int, j: int|
                0 <= i < M && 0 <= j < N ==> *(#[trigger] r[i][j]) == self.at(i, j),
    {
        let r: [[&T; N]; M] = core::array::from_fn(
            |i: usize| -> (row: [&T; N])
                requires
                    i < M,
                ensures
                    forall|j: int| 0 <= j < N ==> *(#[trigger] row[j]) == self.at(i as int, j),
                {
                    core::array::from_fn(
                        |j: usize| -> (x: &T)
                            requires
                                j < N,
                            ensures
                                *x == self.at(i as int, j as int),
                            {
                                &self.0[i][j]
                            }
                    )
                }
        );
        assert forall|i: int, j: int| 0 <= i < M && 0 <= j < N implies *(#[trigger] r[i][j])
            == self.at(i, j) by {
            let row = r@[i];
            assert(*row[j] == self.at(i, j));
        }
        r
    }

    /// Gives up the matrix for its rows.
    pub fn into_rows(self) -> (r: [[T; N]; M])
        ensures
            forall|i: int, j: int| 0 <= i < M && 0 <= j < N ==> (#[trigger] r[i][j]) == self.at(i, j),
    {
        self.0
    }

    /// References to the entries of row `i` from left to right, or `None` when
    /// there is no such row.
    pub fn row(&self, i: usize) -> (r: Option<[&T; N]>)
        ensures
            r is Some == (i < M),
            r is Some ==> forall|j: int| 0 <= j < N ==> *(#[trigger] r->0[j]) == self.at(i as int, j),
    {
        if i < M {
            Some(
                core::array::from_fn(
                    |j: usize| -> (x: &T)
                        requires
                            j < N,
                        ensures
                            *x == self.at(i as int, j as int),
                        {
                            &self.0[i][j]
                        }
                ),
            )
        } else {
            None
        }
    }

    /// References to the entries of column `j` from top to bottom, or `None`
    /// when there is no such column.
    pub fn col(&self, j: usize) -> (r: Option<[&T; M]>)
        ensures
            r is Some == (j < N),
            r is Some ==> forall|i: int| 0 <= i < M ==> *(#[trigger] r->0[i]) == self.at(i, j as int),
    {
        if j < N {
            Some(
                core::array::from_fn(
                    |i: usize| -> (x: &T)
                        requires
                            i < M,
                        ensures
                            *x == self.at(i as int, j as int),
                        {
                            &self.0[i][j]
                        }
                ),
            )
        } else {
            None
        }
    }

    /// Gives up the matrix for the entry in row `i` and column `j`, or for
    /// nothing when the position lies outside the matrix.
    pub fn take(self, i: usize, j: usize) -> (r: Option<T>) where T: Copy
        ensures
            r == (if i < M && j < N {
                Some(self.at(i as int, j as int))
            } else {
                None
            }),
    {
        if i < M && j < N {
            Some(self.0[i][j])
        } else {
            None
        }
    }

    /// Gives up the matrix for its row `i`, or for nothing when there is no such
    /// row.
    pub fn take_row(self, i: usize) -> (r: Option<[T; N]>) where T: Copy
        ensures
            r is Some == (i < M),
            r is Some ==> forall|j: int| 0 <= j < N ==> (#[trigger] r->0[j]) == self.at(i as int, j),
    {
        if i < M {
            Some(self.0[i])
        } else {
            None
        }
    }

    /// Gives up the matrix for its column `j`, or for nothing when there is no
    /// such column.
    pub fn take_col(self, j: usize) -> (r: Option<[T; M]>) where T: Copy
        ensures
            r is Some == (j < N),
            r is Some ==> forall|i: int| 0 <= i < M ==> (#[trigger] r->0[i]) == self.at(i, j as int),
    {
        if j < N {
            Some(
                core::array::from_fn(
                    |i: usize| -> (x: T)
                        requires
                            i < M,
                        ensures
                            x == self.at(i as int, j as int),
                        {
                            self.0[i][j]
                        }
                ),
            )
        } else {
            None
        }
    }

    /// A new matrix whose entry in each cell is what `f` returns for the cell's
    /// row, column and entry. `f` is called once per cell, row by row.
    pub fn map<U, F>(&self, f: F) -> (r: Matrix<U, M, N>) where F: Fn(usize, usize, &T) -> U
        requires
            forall|i: int, j: int|
                0 <= i < M && 0 <= j < N ==> call_requires(
                    f,
                    (i as usize, j as usize, &#[trigger] self.at(i, j)),
                ),
        ensures
            forall|i: int, j: int|
                0 <= i < M && 0 <= j < N ==> call_ensures(
                    f,
                    (i as usize, j as usize, &self.at(i, j)),
                    #[trigger] r.at(i, j),
                ),
    {
        let rows: [[U; N]; M] = core::array::from_fn(
            |i: usize| -> (row: [U; N])
                requires
                    i < M,
                ensures
                    forall|j: int|
                        0 <= j < N ==> call_ensures(
                            f,
                            (i, j as usize, &self.at(i as int, j)),
                            #[trigger] row[j],
                        ),
                {
                    core::array::from_fn(
                        |j: usize| -> (x: U)
                            requires
                                j < N,
                            ensures
                                call_ensures(f, (i, j, &self.at(i as int, j as int)), x),
                            {
                                f(i, j, &self.0[i][j])
                            }
                    )
                }
        );
        let r = Matrix(rows);
        assert forall|i: int, j: int| 0 <= i < M && 0 <= j < N implies call_ensures(
            f,
            (i as usize, j as usize, &self.at(i, j)),
            #[trigger] r.at(i, j),
        ) by {
            let row = rows@[i];
            assert(call_ensures(f, (i as usize, j as usize, &self.at(i, j)), row[j]));
        }
        r
    }

    /// Replaces the entry of each cell by what `f` returns for the cell's row,
    /// column and entry. `f` is called once per cell, row by row.
    pub fn into_map<F>(self, f: F) -> (r: Self) where F: FnMut(usize, usize, T) -> T, T: Copy
        requires
            forall|i: int, j: int|
                0 <= i < M && 0 <= j < N ==> call_requires(
                    f,
                    (i as usize, j as usize, #[trigger] self.at(i, j)),
                ),
        ensures
            forall|i: int, j: int|
                0 <= i < M && 0 <= j < N ==> call_ensures(
                    f,
                    (i as usize, j as usize, self.at(i, j)),
                    #[trigger] r.at(i, j),
                ),
    {
        let ghost f0 = f;
        let mut f = f;
        let mut out = Matrix(self.0);
        let mut i: usize = 0;
        while i < M
            invariant
                i <= M,
                f == f0,
                forall|a: int, b: int|
                    0 <= a < M && 0 <= b < N ==> call_requires(
                        f,
                        (a as usize, b as usize, #[trigger] self.at(a, b)),
                    ),
                forall|a: int, b: int|
                    0 <= a < i && 0 <= b < N ==> call_ensures(
                        f,
                        (a as usize, b as usize, self.at(a, b)),
                        #[trigger] out.at(a, b),
                    ),
                forall|a: int, b: int|
                    i <= a < M && 0 <= b < N ==> #[trigger] out.at(a, b) == self.at(a, b),
            decreases M - i,
        {
            let mut j: usize = 0;
            while j < N
                invariant
                    i < M,
                    j <= N,
                    f == f0,
                    forall|a: int, b: int|
                        0 <= a < M && 0 <= b < N ==> call_requires(
                            f,
                            (a as usize, b as usize, #[trigger] self.at(a, b)),
                        ),
                    forall|a: int, b: int|
                        0 <= a < i && 0 <= b < N ==> call_ensures(
                            f,
                            (a as usize, b as usize, self.at(a, b)),
                            #[trigger] out.at(a, b),
                        ),
                    forall|b: int|
                        0 <= b < j ==> call_ensures(
                            f,
                            (i, b as usize, self.at(i as int, b)),
                            #[trigger] out.at(i as int, b),
                        ),
                    forall|b: int| j <= b < N ==> #[trigger] out.at(i as int, b) == self.at(i as int, b),
                    forall|a: int, b: int|
                        i < a < M && 0 <= b < N ==> #[trigger] out.at(a, b) == self.at(a, b),
                decreases N - j,
            {
                let ghost prev = out;
                assert(out.at(i as int, j as int) == self.at(i as int, j as int));
                let x = f(i, j, out.0[i][j]);
                out.0[i][j] = x;
                assert(forall|a: int, b: int|
                    0 <= a < M && 0 <= b < N ==> #[trigger] out.at(a, b) == (if a == i && b == j {
                        x
                    } else {
                        prev.at(a, b)
                    }));
                j += 1;
            }
            i += 1;
        }
        out
    }
}

impl<T, const M: usize, const N: usize> Matrix<T, M, N> {
    /// Whether row `i`, column `j` names a cell of a matrix of this shape.
    pub open spec fn in_shape(i: int, j: int) -> bool {
        0 <= i < M && 0 <= j < N
    }

    /// Lets `f` change each entry in place, given the cell's row and column.
    /// `f` is called once per cell, row by row: for each cell there is a call
    /// that was handed the old entry and left the new one behind.
    pub fn map_mut<F>(&mut self, f: F) where F: FnMut(usize, usize, &mut T)
        requires
            forall|i: usize, j: usize, x: &mut T|
                i < M && j < N && *x == old(self).at(i as int, j as int) ==> #[trigger] call_requires(
                    f,
                    (i, j, x),
                ),
        ensures
            forall|i: int, j: int| #[trigger]
                Self::in_shape(i, j) ==> exists|x: &mut T|
                    *x == old(self).at(i, j) && *final(x) == final(self).at(i, j)
                        && #[trigger] call_ensures(f, (i as usize, j as usize, x), ()),
    {
        let ghost f0 = f;
        let mut f = f;
        let mut i: usize = 0;
        while i < M
            invariant
                i <= M,
                f == f0,
                forall|a: usize, b: usize, x: &mut T|
                    a < M && b < N && *x == old(self).at(a as int, b as int)
                        ==> #[trigger] call_requires(f, (a, b, x)),
                forall|a: int, b: int| #[trigger]
                    Self::in_shape(a, b) && a < i ==> exists|x: &mut T|
                        *x == old(self).at(a, b) && *final(x) == self.at(a, b)
                            && #[trigger] call_ensures(f, (a as usize, b as usize, x), ()),
                forall|a: int, b: int|
                    i <= a < M && 0 <= b < N ==> #[trigger] self.at(a, b) == old(self).at(a, b),
            decreases M - i,
        {
            let mut j: usize = 0;
            while j < N
                invariant
                    i < M,
                    j <= N,
                    f == f0,
                    forall|a: usize, b: usize, x: &mut T|
                        a < M && b < N && *x == old(self).at(a as int, b as int)
                            ==> #[trigger] call_requires(f, (a, b, x)),
                    forall|a: int, b: int| #[trigger]
                        Self::in_shape(a, b) && (a < i || (a == i && b < j)) ==> exists|x: &mut T|
                            *x == old(self).at(a, b) && *final(x) == self.at(a, b)
                                && #[trigger] call_ensures(f, (a as usize, b as usize, x), ()),
                    forall|a: int, b: int|
                        0 <= a < M && 0 <= b < N && (i < a || (a == i && j <= b))
                            ==> #[trigger] self.at(a, b) == old(self).at(a, b),
                decreases N - j,
            {
                let ghost prev = *self;
                assert(self.at(i as int, j as int) == old(self).at(i as int, j as int));
                let cell = &mut self.0[i][j];
                f(i, j, cell);
                assert(exists|x: &mut T|
                    *x == prev.at(i as int, j as int) && *final(x) == self.at(i as int, j as int)
                        && #[trigger] call_ensures(f, (i, j, x), ()));
                assert(forall|a: int, b: int|
                    0 <= a < M && 0 <= b < N && !(a == i && b == j) ==> #[trigger] self.at(a, b)
                        == prev.at(a, b));
                assert forall|a: int, b: int| #[trigger]
                    Self::in_shape(a, b) && (a < i || (a == i && b < j + 1)) implies exists|
                    x: &mut T,
                |
                    *x == old(self).at(a, b) && *final(x) == self.at(a, b) && #[trigger] call_ensures(
                        f,
                        (a as usize, b as usize, x),
                        (),
                    ) by {
                    if a == i && b == j {
                        assert(a as usize == i && b as usize == j);
                    } else {
                        assert(Self::in_shape(a, b) && (a < i || (a == i && b < j)));
                        assert(self.at(a, b) == prev.at(a, b));
                    }
                }
                j += 1;
            }
            i += 1;
        }
    }
}

/// `<[A; K]>::each_mut`: one mutable reference to each element of the array, in
/// order. The references are disjoint, and what they hold in the end is what the
/// array holds in the end.
#[verifier::external_body]
fn each_mut<A, const K: usize>(array: &mut [A; K]) -> (r: [&mut A; K])
    ensures
        forall|k: int| 0 <= k < K ==> *(#[trigger] r[k]) == old(array)[k],
        forall|k: int|
            #![trigger r[k]]
            #![trigger final(array)[k]]
            0 <= k < K ==> final(array)[k] == *final(r[k]),
{
    array.each_mut()
}

/// `<[A; K]>::map`: the array of what `f` returns for each element, in order.
#[verifier::external_body]
fn map_array<A, B, F, const K: usize>(array: [A; K], f: F) -> (r: [B; K]) where F: FnMut(A) -> B
    requires
        forall|k: int| 0 <= k < K ==> call_requires(f, (#[trigger] array[k],)),
    ensures
        forall|k: int| 0 <= k < K ==> call_ensures(f, (array[k],), #[trigger] r[k]),
{
    array.map(f)
}

impl<T, const M: usize, const N: usize> Matrix<T, M, N> {
    /// Mutable references to all entries, arranged as the matrix is. No two of
    /// them overlap, and what they hold in the end is what the matrix holds.
    pub fn rows_mut(&mut self) -> (r: [[&mut T; N]; M])
        ensures
            forall|i: int, j: int|
                0 <= i < M && 0 <= j < N ==> *(#[trigger] r[i][j]) == old(self).at(i, j),
            forall|i: int, j: int|
                0 <= i < M && 0 <= j < N ==> final(self).at(i, j) == *final(#[trigger] r[i][j]),
    {
        let rows = each_mut(&mut self.0);
        let r = map_array(
            rows,
            |row: &mut [T; N]| -> (cells: [&mut T; N])
                ensures
                    forall|k: int| 0 <= k < N ==> *(#[trigger] cells[k]) == old(row)[k],
                    forall|k: int| 0 <= k < N ==> final(row)[k] == *final(#[trigger] cells[k]),
                {
                    each_mut(row)
                }
        );
        assert forall|i: int, j: int| 0 <= i < M && 0 <= j < N implies *(#[trigger] r[i][j])
            == old(self).at(i, j) && (*final(rows[i]))[j] == *final(r[i][j]) by {
            let row = rows[i];
            let cells = r[i];
            assert(*cells[j] == (*row)[j]);
        }
        r
    }

    /// Mutable references to the entries of row `i` from left to right, or
    /// `None` when there is no such row. No two of them overlap; what they hold
    /// in the end is what the row holds, and the other rows stay as they are.
    pub fn row_mut(&mut self, i: usize) -> (r: Option<[&mut T; N]>)
        ensures
            r is Some == (i < M),
            r is Some ==> forall|j: int|
                0 <= j < N ==> *(#[trigger] r->0[j]) == old(self).at(i as int, j),
            r is Some ==> forall|a: int, b: int|
                0 <= a < M && 0 <= b < N ==> #[trigger] final(self).at(a, b) == (if a == i {
                    *final(r->0[b])
                } else {
                    old(self).at(a, b)
                }),
            r is None ==> *final(self) == *old(self),
    {
        if i < M {
            Some(each_mut(&mut self.0[i]))
        } else {
            None
        }
    }

    /// Mutable references to the entries of column `j` from top to bottom, or
    /// `None` when there is no such column. Each reference comes from another
    /// row, so no two of them overlap; what they hold in the end is what the
    /// column holds, and the other columns stay as they are.
    pub fn col_mut(&mut self, j: usize) -> (r: Option<[&mut T; M]>)
        ensures
            r is Some == (j < N),
            r is Some ==> forall|i: int|
                0 <= i < M ==> *(#[trigger] r->0[i]) == old(self).at(i, j as int),
            r is Some ==> forall|a: int, b: int|
                0 <= a < M && 0 <= b < N ==> #[trigger] final(self).at(a, b) == (if b == j {
                    *final(r->0[a])
                } else {
                    old(self).at(a, b)
                }),
            r is None ==> *final(self) == *old(self),
    {
        if j < N {
            let rows = each_mut(&mut self.0);
            let r = map_array(
                rows,
                |row: &mut [T; N]| -> (cell: &mut T)
                    ensures
                        *cell == old(row)[j as int],
                        final(row)@ == old(row)@.update(j as int, *final(cell)),
                    {
                        &mut row[j]
                    }
            );
            assert forall|i: int| 0 <= i < M implies *(#[trigger] r[i]) == old(self).at(
                i,
                j as int,
            ) by {
                let row = rows[i];
                assert(*r[i] == (*row)[j as int]);
            }
            assert forall|a: int| 0 <= a < M implies final(#[trigger] rows[a])@ == (*rows[a])@.update(
                j as int,
                *final(r[a]),
            ) by {
                let row = rows[a];
                assert(final(row)@ == (*row)@.update(j as int, *final(r[a])));
            }
            Some(r)
        } else {
            None
        }
    }
}

impl<T, const M: usize> Matrix<T, M, M> {
    /// References to the entries on the main diagonal, from the top left.
    pub fn diag(&self) -> (r: [&T; M])
        ensures
            forall|i: int| 0 <= i < M ==> *(#[trigger] r[i]) == self.at(i, i),
    {
        core::array::from_fn(
            |i: usize| -> (x: &T)
                requires
                    i < M,
                ensures
                    *x == self.at(i as int, i as int),
                {
                    &self.0[i][i]
                }
        )
    }

    /// Gives up the matrix for the entries on its main diagonal.
    pub fn into_diag(self) -> (r: [T; M]) where T: Copy
        ensures
            forall|i: int| 0 <= i < M ==> (#[trigger] r[i]) == self.at(i, i),
    {
        core::array::from_fn(
            |i: usize| -> (x: T)
                requires
                    i < M,
                ensures
                    x == self.at(i as int, i as int),
                {
                    self.0[i][i]
                }
        )
    }
}

impl<T, const M: usize, const N: usize> IdAdd for Matrix<T, M, N> where T: IdAdd {
    /// The zero matrix: the additive identity of the entry type in every cell.
    open spec fn id_add_spec() -> Self {
        Matrix::tabulate(|i: int, j: int| T::id_add_spec())
    }

    fn id_add() -> (r: Self) {
        let rows: [[T; N]; M] = core::array::from_fn(
            |i: usize| -> (row: [T; N])
                ensures
                    forall|j: int| 0 <= j < N ==> #[trigger] row[j] == T::id_add_spec(),
                {
                    core::array::from_fn(
                        |j: usize| -> (x: T)
                            ensures
                                x == T::id_add_spec(),
                            {
                                T::id_add()
                            }
                    )
                }
        );
        let r = Matrix(rows);
        proof {
            broadcast use Matrix::lemma_tabulate;

            assert forall|i: int, j: int| 0 <= i < M && 0 <= j < N implies r.at(i, j)
                == T::id_add_spec() by {
                let row = rows@[i];
                assert(row[j] == T::id_add_spec());
            }
            r.lemma_ext_equal(Matrix::tabulate(|i: int, j: int| T::id_add_spec()));
        }
        r
    }
}

impl<T, const M: usize> IdMul for Matrix<T, M, M> where T: IdAdd + IdMul {
    /// The identity matrix: the multiplicative identity of the entry type on the
    /// main diagonal and its additive identity everywhere else.
    open spec fn id_mul_spec() -> Self {
        Matrix::tabulate(
            |i: int, j: int|
                if i == j {
                    T::id_mul_spec()
                } else {
                    T::id_add_spec()
                },
        )
    }

    fn id_mul() -> (r: Self) {
        let rows: [[T; M]; M] = core::array::from_fn(
            |i: usize| -> (row: [T; M])
                ensures
                    forall|j: int|
                        0 <= j < M ==> #[trigger] row[j] == (if i == j {
                            T::id_mul_spec()
                        } else {
                            T::id_add_spec()
                        }),
                {
                    core::array::from_fn(
                        |j: usize| -> (x: T)
                            ensures
                                x == (if i == j {
                                    T::id_mul_spec()
                                } else {
                                    T::id_add_spec()
                                }),
                            {
                                if i == j {
                                    T::id_mul()
                                } else {
                                    T::id_add()
                                }
                            }
                    )
                }
        );
        let r = Matrix(rows);
        proof {
            broadcast use Matrix::lemma_tabulate;

            let f = |i: int, j: int|
                if i == j {
                    T::id_mul_spec()
                } else {
                    T::id_add_spec()
                };
            assert forall|i: int, j: int| 0 <= i < M && 0 <= j < M implies r.at(i, j) == f(
                i,
                j,
            ) by {
                let row = rows@[i];
                assert(row[j] == f(i, j));
            }
            r.lemma_ext_equal(Matrix::tabulate(f));
        }
        r
    }
}

impl<T, const M: usize, const N: usize> Default for Matrix<T, M, N> where T: Default {
    /// The matrix that holds in every cell a default value of the entry type.
    fn default() -> (r: Self)
        ensures
            forall|i: int, j: int|
                0 <= i < M && 0 <= j < N ==> call_ensures(T::default, (), #[trigger] r.at(i, j)),
    {
        let rows: [[T; N]; M] = core::array::from_fn(
            |i: usize| -> (row: [T; N])
                ensures
                    forall|j: int| 0 <= j < N ==> call_ensures(T::default, (), #[trigger] row[j]),
                {
                    core::array::from_fn(
                        |j: usize| -> (x: T)
                            ensures
                                call_ensures(T::default, (), x),
                            {
                                T::default()
                            }
                    )
                }
        );
        let r = Matrix(rows);
        assert forall|i: int, j: int| 0 <= i < M && 0 <= j < N implies call_ensures(
            T::default,
            (),
            #[trigger] r.at(i, j),
        ) by {
            let row = rows@[i];
            assert(call_ensures(T::default, (), row[j]));
        }
        r
    }
}

} // verus!
