use super::{lemma_row_major, lemma_row_major_inverse, Matrix};
use vstd::prelude::*;

pub mod cursor;

verus! {

/// Whether `(i, j)` is a place where a row-major walk over `m` rows of `n`
/// cells can stand: on a cell, or behind the last one at `(m, 0)`.
pub open spec fn walk_valid(i: int, j: int, m: int, n: int) -> bool {
    &&& 0 <= i <= m
    &&& 0 <= j
    &&& i < m ==> j < n
    &&& i == m ==> j == 0
}

/// The cells of a run of rows, one row after the other.
pub open spec fn joined<T, const N: usize>(rows: Seq<[T; N]>) -> Seq<T>
    decreases rows.len(),
{
    if rows.len() == 0 {
        Seq::empty()
    } else {
        rows[0]@ + joined(rows.drop_first())
    }
}

/// Joined rows are in row-major order: cell `k` is the cell of row `k / N` and
/// column `k % N`.
pub proof fn lemma_joined<T, const N: usize>(rows: Seq<[T; N]>)
    ensures
        joined(rows).len() == rows.len() * N,
        forall|k: int|
            0 <= k < rows.len() * N ==> #[trigger] joined(rows)[k] == rows[k / (N as int)][k % (
            N as int)],
    decreases rows.len(),
{
    if rows.len() > 0 {
        let rest = rows.drop_first();
        lemma_joined(rest);
        assert(rows.len() * N == N + rest.len() * N) by (nonlinear_arith)
            requires
                rows.len() == rest.len() + 1,
        ;
        assert forall|k: int| 0 <= k < rows.len() * N implies #[trigger] joined(rows)[k]
            == rows[k / (N as int)][k % (N as int)] by {
            lemma_row_major_inverse(k, rows.len() as int, N as int);
            let q = k / (N as int);
            let r = k % (N as int);
            if q == 0 {
                assert(q * N == 0) by (nonlinear_arith)
                    requires
                        q == 0,
                ;
                assert(k == r);
            } else {
                lemma_row_major(q - 1, r, rest.len() as int, N as int);
                assert((q - 1) * N + r == k - N) by (nonlinear_arith)
                    requires
                        q * N + r == k,
                ;
                assert(joined(rows)[k] == joined(rest)[k - N]);
                assert(rest[q - 1] == rows[q]);
            }
        }
    } else {
        assert(rows.len() * N == 0) by (nonlinear_arith)
            requires
                rows.len() == 0,
        ;
    }
}

/// Walks over references to the entries of a matrix in row-major order.
pub struct Iter<'a, T, const M: usize, const N: usize> {
    rows: [[&'a T; N]; M],
    i: usize,
    j: usize,
}

/// Walks over mutable references to the entries of a matrix in row-major
/// order. Each entry is handed out once, so no two of the references overlap.
///
/// `row` is what is left of the row that is being handed out, and `rows` are the
/// rows that have not been begun.
pub struct IterMut<'a, T, const M: usize, const N: usize> {
    pub row: &'a mut [T],
    pub rows: &'a mut [[T; N]],
}

/// Walks over the entries of a matrix by value, in row-major order.
pub struct IntoIter<T, const M: usize, const N: usize> {
    rows: [[T; N]; M],
    i: usize,
    j: usize,
}

impl<T, const M: usize, const N: usize> Matrix<T, M, N> {
    /// An iterator over references to the entries, in row-major order.
    pub fn iter(&self) -> (it: Iter<'_, T, M, N>)
        ensures
            it.remaining() == self.flat(),
    {
        let it = Iter::new(self.rows());
        proof {
            assert forall|k: int| 0 <= k < M * N implies it.remaining()[k] == self.flat()[k] by {
                lemma_row_major_inverse(k, M as int, N as int);
            }
            assert(it.remaining() =~= self.flat());
        }
        it
    }

    /// An iterator over mutable references to the entries, in row-major order.
    /// When the iterator and the references it gave are gone, the matrix holds
    /// what they left behind.
    pub fn iter_mut(&mut self) -> (it: IterMut<'_, T, M, N>)
        ensures
            it.remaining() == old(self).flat(),
            final(it.row)@ + joined(final(it.rows)@) == final(self).flat(),
    {
        let ghost before = *self;
        let rows: &mut [[T; N]] = &mut self.0;
        let ghost all = rows;
        let it = IterMut { row: &mut [], rows };
        proof {
            lemma_joined(before.0@);
            assert(it.remaining() =~= before.flat());
            lemma_joined(final(all)@);
            assert(final(it.row)@.len() == 0);
            assert(final(it.row)@ + joined(final(it.rows)@) =~= Seq::new(
                (M * N) as nat,
                |k: int| final(all)@[k / (N as int)][k % (N as int)],
            ));
        }
        it
    }

    /// An iterator that takes the entries out by value, in row-major order.
    pub fn into_iter(self) -> (it: IntoIter<T, M, N>)
        ensures
            it.remaining() == self.flat(),
    {
        let it = IntoIter::new(self.0);
        proof {
            assert(it.remaining() =~= self.flat());
        }
        it
    }
}

impl<'a, T, const M: usize, const N: usize> Iter<'a, T, M, N> {
    #[verifier::type_invariant]
    spec fn valid(self) -> bool {
        walk_valid(self.i as int, self.j as int, M as int, N as int)
    }

    /// The entries that are still to come, in the order in which they will.
    pub closed spec fn remaining(self) -> Seq<T> {
        let done = self.i * N + self.j;
        let left = if done <= M * N {
            (M * N - done) as nat
        } else {
            0
        };
        Seq::new(left, |k: int| *self.rows[(done + k) / (N as int)][(done + k) % (N as int)])
    }

    /// There are never more entries to come than the matrix has cells.
    pub proof fn lemma_remaining_bound(self)
        ensures
            self.remaining().len() <= M * N,
    {
        assert(0 <= self.i * N) by (nonlinear_arith);
    }

    fn new(rows: [[&'a T; N]; M]) -> (it: Self)
        ensures
            it.rows == rows,
            it.j == 0,
            it.i == (if N == 0 {
                M
            } else {
                0
            }),
    {
        Iter {
            rows,
            i: if N == 0 {
                M
            } else {
                0
            },
            j: 0,
        }
    }

    /// The next entry, or `None` when all have been given. Once exhausted, the
    /// iterator stays so.
    pub fn next(&mut self) -> (r: Option<&'a T>)
        ensures
            old(self).remaining().len() == 0 ==> r is None && *final(self) == *old(self),
            old(self).remaining().len() > 0 ==> r is Some && *r->0 == old(self).remaining()[0]
                && final(self).remaining() == old(self).remaining().drop_first(),
    {
        proof {
            use_type_invariant(&*self);
            lemma_walk(self.i as int, self.j as int, M as int, N as int);
        }
        if self.i == M {
            return None;
        }
        let item = self.rows[self.i][self.j];
        if self.j + 1 == N {
            self.j = 0;
            self.i = self.i + 1;
        } else {
            self.j = self.j + 1;
        }
        proof {
            lemma_row_major(old(self).i as int, old(self).j as int, M as int, N as int);
            assert(self.remaining() =~= old(self).remaining().drop_first());
        }
        Some(item)
    }

    /// All entries that are still to come, in the order in which `next` gives
    /// them.
    pub fn collect(self) -> (items: Vec<&'a T>)
        ensures
            items@.len() == self.remaining().len(),
            forall|k: int| 0 <= k < items@.len() ==> *(#[trigger] items@[k]) == self.remaining()[k],
    {
        let mut it = self;
        let mut items: Vec<&'a T> = Vec::new();
        loop
            invariant
                items@.len() <= self.remaining().len(),
                it.remaining() == self.remaining().skip(items@.len() as int),
                forall|k: int|
                    0 <= k < items@.len() ==> *(#[trigger] items@[k]) == self.remaining()[k],
            ensures
                items@.len() == self.remaining().len(),
                forall|k: int|
                    0 <= k < items@.len() ==> *(#[trigger] items@[k]) == self.remaining()[k],
            decreases it.remaining().len(),
        {
            match it.next() {
                None => {
                    break ;
                },
                Some(x) => {
                    items.push(x);
                    assert(it.remaining() =~= self.remaining().skip(items@.len() as int));
                },
            }
        }
        items
    }

    /// How many entries are still to come.
    pub fn len(&self) -> (r: usize)
        requires
            M * N <= usize::MAX,
        ensures
            r == self.remaining().len(),
    {
        proof {
            use_type_invariant(self);
            lemma_walk(self.i as int, self.j as int, M as int, N as int);
        }
        N * (M - self.i) - self.j
    }
}

/// A walk that stands at `(i, j)` has passed `i * n + j` cells; that is all
/// `m * n` of them exactly when it stands behind the last row.
pub proof fn lemma_walk(i: int, j: int, m: int, n: int)
    requires
        0 <= n,
        walk_valid(i, j, m, n),
    ensures
        0 <= i * n + j <= m * n,
        i * n + j == m * n <==> i == m,
        n * (m - i) == m * n - i * n,
        0 <= n * (m - i) <= m * n,
        (i + 1) * n == i * n + n,
{
    assert(n * (m - i) == m * n - i * n) by (nonlinear_arith);
    assert((i + 1) * n == i * n + n) by (nonlinear_arith);
    assert(0 <= i * n) by (nonlinear_arith)
        requires
            0 <= i,
            0 <= n,
    ;
    assert(0 <= n * (m - i)) by (nonlinear_arith)
        requires
            0 <= m - i,
            0 <= n,
    ;
    if i < m {
        lemma_row_major(i, j, m, n);
    }
}

impl<'a, T, const M: usize, const N: usize> IterMut<'a, T, M, N> {
    /// The entries that are still to come, in the order in which they will, as
    /// they stand now.
    pub open spec fn remaining(self) -> Seq<T> {
        self.row@ + joined(self.rows@)
    }

    /// The next entry, or `None` when all have been given. Once exhausted, the
    /// iterator stays so.
    ///
    /// What the part not yet handed out holds in the end is what the reference
    /// given here holds in the end, followed by what the rest holds in the end.
    pub fn next(&mut self) -> (r: Option<&'a mut T>)
        ensures
            old(self).remaining().len() == 0 ==> r is None && final(self).remaining().len() == 0
                && final(old(self).row)@ + joined(final(old(self).rows)@) == Seq::<T>::empty(),
            old(self).remaining().len() > 0 ==> r is Some && *r->0 == old(self).remaining()[0]
                && final(self).remaining() == old(self).remaining().drop_first()
                && final(old(self).row)@ + joined(final(old(self).rows)@) == seq![*final(r->0)]
                + (final(final(self).row)@ + joined(final(final(self).rows)@)),
    {
        let mut row: &'a mut [T] = &mut [];
        core::mem::swap(&mut self.row, &mut row);
        let mut rows: &'a mut [[T; N]] = &mut [];
        core::mem::swap(&mut self.rows, &mut rows);
        assert(joined(self.rows@) =~= Seq::<T>::empty());
        loop
            invariant
                self.row@.len() == 0,
                self.rows@.len() == 0,
                row@ + joined(rows@) == old(self).remaining(),
                final(old(self).row)@ + joined(final(old(self).rows)@) == final(row)@ + joined(
                    final(rows)@,
                ),
            decreases rows@.len(),
        {
            if row.len() > 0 {
                let (head, tail) = row.split_at_mut(1);
                self.row = tail;
                self.rows = rows;
                let r = head.first_mut();
                assert(self.remaining() =~= old(self).remaining().drop_first());
                return r;
            }
            if rows.len() == 0 {
                assert(joined(rows@) =~= Seq::<T>::empty());
                return None;
            }
            let ghost before = rows@;
            let ghost old_rows = rows;
            let ghost old_row = row;
            let mut taken: &'a mut [[T; N]] = &mut [];
            core::mem::swap(&mut rows, &mut taken);
            let (head, tail) = taken.split_at_mut(1);
            rows = tail;
            let next_row: &'a mut [T; N] = head.first_mut().unwrap();
            let ghost fetched = next_row;
            row = next_row;
            assert(rows@ =~= before.drop_first());
            assert(row@ == before[0]@);
            assert(row@ + joined(rows@) =~= Seq::<T>::empty() + joined(before));
            assert(final(old_row)@.len() == 0);
            assert(final(old_rows)@ =~= seq![*final(fetched)] + final(rows)@);
            assert(final(old_rows)@.drop_first() =~= final(rows)@);
            assert(final(row)@ == (*final(fetched))@);
            assert(final(old_row)@ + joined(final(old_rows)@) =~= final(row)@ + joined(
                final(rows)@,
            ));
        }
    }

    /// All entries that are still to come, in the order in which `next` gives
    /// them. What the part not yet handed out holds in the end is what the
    /// references hold in the end, one after the other.
    pub fn collect(self) -> (items: Vec<&'a mut T>)
        ensures
            items@.len() == self.remaining().len(),
            forall|k: int| 0 <= k < items@.len() ==> *(#[trigger] items@[k]) == self.remaining()[k],
            (final(self.row)@ + joined(final(self.rows)@)).len() == items@.len(),
            forall|k: int|
                0 <= k < items@.len() ==>
                    (final(self.row)@ + joined(final(self.rows)@))[k]
                        == *final(#[trigger] items@[k]),
    {
        let mut it = self;
        let mut items: Vec<&'a mut T> = Vec::new();
        loop
            invariant
                items@.len() <= self.remaining().len(),
                it.remaining() == self.remaining().skip(items@.len() as int),
                forall|k: int|
                    0 <= k < items@.len() ==> *(#[trigger] items@[k]) == self.remaining()[k],
                (final(self.row)@ + joined(final(self.rows)@)).len()
                    == items@.len() + (final(it.row)@ + joined(final(it.rows)@)).len(),
                forall|k: int|
                    0 <= k < items@.len() ==>
                        (final(self.row)@ + joined(final(self.rows)@))[k]
                            == *final(#[trigger] items@[k]),
                forall|k: int|
                    0 <= k < (final(it.row)@ + joined(final(it.rows)@)).len() ==>
                        (final(self.row)@ + joined(final(self.rows)@))[items@.len() + k]
                            == #[trigger] (final(it.row)@ + joined(final(it.rows)@))[k],
            ensures
                items@.len() == self.remaining().len(),
                forall|k: int|
                    0 <= k < items@.len() ==> *(#[trigger] items@[k]) == self.remaining()[k],
                (final(self.row)@ + joined(final(self.rows)@)).len() == items@.len(),
                forall|k: int|
                    0 <= k < items@.len() ==>
                        (final(self.row)@ + joined(final(self.rows)@))[k]
                            == *final(#[trigger] items@[k]),
            decreases it.remaining().len(),
        {
            let ghost before = it;
            let ghost taken = items@;
            match it.next() {
                None => {
                    break ;
                },
                Some(x) => {
                    items.push(x);
                    assert(it.remaining() =~= self.remaining().skip(items@.len() as int));
                    assert((final(before.row)@ + joined(final(before.rows)@))
                        == seq![*final(items@[taken.len() as int])] + (final(it.row)@ + joined(final(it.rows)@)));
                    assert(forall|k: int| 0 <= k < taken.len() ==> items@[k] == taken[k]);
                    assert forall|k: int| 0 <= k < items@.len() implies
                        (final(self.row)@ + joined(final(self.rows)@))[k]
                            == *final(#[trigger] items@[k]) by {
                        if k == taken.len() {
                            assert((final(self.row)@ + joined(final(self.rows)@))[taken.len() as int + 0]
                                == ((final(before.row)@ + joined(final(before.rows)@)))[0]);
                        }
                    }
                    assert forall|k: int| 0 <= k < (final(it.row)@ + joined(final(it.rows)@)).len() implies
                        (final(self.row)@ + joined(final(self.rows)@))[items@.len() + k]
                        == #[trigger] (final(it.row)@ + joined(final(it.rows)@))[k] by {
                        assert((final(self.row)@ + joined(final(self.rows)@))[taken.len() + (k + 1)]
                            == ((final(before.row)@ + joined(final(before.rows)@)))[k + 1]);
                    }
                },
            }
        }
        items
    }

    /// How many entries are still to come.
    pub fn len(&self) -> (r: usize)
        requires
            self.remaining().len() <= usize::MAX,
        ensures
            r == self.remaining().len(),
    {
        proof {
            lemma_joined(self.rows@);
        }
        self.row.len() + self.rows.len() * N
    }
}

impl<T, const M: usize, const N: usize> IntoIter<T, M, N> {
    #[verifier::type_invariant]
    spec fn valid(self) -> bool {
        walk_valid(self.i as int, self.j as int, M as int, N as int)
    }

    /// The entries that are still to come, in the order in which they will.
    pub closed spec fn remaining(self) -> Seq<T> {
        let done = self.i * N + self.j;
        let left = if done <= M * N {
            (M * N - done) as nat
        } else {
            0
        };
        Seq::new(left, |k: int| self.rows[(done + k) / (N as int)][(done + k) % (N as int)])
    }

    /// There are never more entries to come than the matrix has cells.
    pub proof fn lemma_remaining_bound(self)
        ensures
            self.remaining().len() <= M * N,
    {
        assert(0 <= self.i * N) by (nonlinear_arith);
    }

    fn new(rows: [[T; N]; M]) -> (it: Self)
        ensures
            it.rows == rows,
            it.j == 0,
            it.i == (if N == 0 {
                M
            } else {
                0
            }),
    {
        IntoIter {
            rows,
            i: if N == 0 {
                M
            } else {
                0
            },
            j: 0,
        }
    }

    /// The next entry, or `None` when all have been given. Once exhausted, the
    /// iterator stays so.
    pub fn next(&mut self) -> (r: Option<T>) where T: Copy
        ensures
            old(self).remaining().len() == 0 ==> r is None && *final(self) == *old(self),
            old(self).remaining().len() > 0 ==> r == Some(old(self).remaining()[0])
                && final(self).remaining() == old(self).remaining().drop_first(),
    {
        proof {
            use_type_invariant(&*self);
            lemma_walk(self.i as int, self.j as int, M as int, N as int);
        }
        if self.i == M {
            return None;
        }
        let item = self.rows[self.i][self.j];
        if self.j + 1 == N {
            self.j = 0;
            self.i = self.i + 1;
        } else {
            self.j = self.j + 1;
        }
        proof {
            lemma_row_major(old(self).i as int, old(self).j as int, M as int, N as int);
            assert(self.remaining() =~= old(self).remaining().drop_first());
        }
        Some(item)
    }

    /// All entries that are still to come, in the order in which `next` gives
    /// them.
    pub fn collect(self) -> (items: Vec<T>) where T: Copy
        ensures
            items@.len() == self.remaining().len(),
            forall|k: int| 0 <= k < items@.len() ==> (#[trigger] items@[k]) == self.remaining()[k],
    {
        let mut it = self;
        let mut items: Vec<T> = Vec::new();
        loop
            invariant
                items@.len() <= self.remaining().len(),
                it.remaining() == self.remaining().skip(items@.len() as int),
                forall|k: int|
                    0 <= k < items@.len() ==> (#[trigger] items@[k]) == self.remaining()[k],
            ensures
                items@.len() == self.remaining().len(),
                forall|k: int|
                    0 <= k < items@.len() ==> (#[trigger] items@[k]) == self.remaining()[k],
            decreases it.remaining().len(),
        {
            match it.next() {
                None => {
                    break ;
                },
                Some(x) => {
                    items.push(x);
                    assert(it.remaining() =~= self.remaining().skip(items@.len() as int));
                },
            }
        }
        items
    }

    /// How many entries are still to come.
    pub fn len(&self) -> (r: usize)
        requires
            M * N <= usize::MAX,
        ensures
            r == self.remaining().len(),
    {
        proof {
            use_type_invariant(self);
            lemma_walk(self.i as int, self.j as int, M as int, N as int);
        }
        N * (M - self.i) - self.j
    }
}

} // verus!
