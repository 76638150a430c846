use super::super::{lemma_row_major, lemma_row_major_inverse};
use super::{joined, IntoIter, Iter, IterMut};
use vstd::prelude::*;

verus! {

/// An iterator over a matrix of `M` rows and `N` columns that can be wrapped in
/// a [`Cursor`].
pub trait CursorIterator<const M: usize, const N: usize>: Sized {
    /// How many items the iterator has yet to give.
    spec fn pending(&self) -> nat;

    /// Wraps the iterator in a cursor that counts from row 0, column 0.
    fn cursor(self) -> (c: Cursor<Self, M, N>)
        ensures
            c.iter == self,
            c.i == 0,
            c.j == 0,
    ;
}

/// An iterator that gives, with each item of the iterator it wraps, the row and
/// the column that the item has in a row-major walk. The position is counted
/// from the items that went through the cursor: `i` full rows and `j` more.
pub struct Cursor<I, const M: usize, const N: usize> where I: CursorIterator<M, N> {
    pub iter: I,
    pub i: usize,
    pub j: usize,
}

impl<I, const M: usize, const N: usize> Cursor<I, M, N> where I: CursorIterator<M, N> {
    /// How many items went through the cursor.
    pub open spec fn count(self) -> nat {
        (self.i * N + self.j) as nat
    }

    /// The count of a cursor never runs ahead of its iterator: together with
    /// the items yet to come it stays within the `M * N` cells of the matrix.
    pub open spec fn wf(self) -> bool {
        &&& self.j <= N
        &&& self.count() + self.iter.pending() <= M * N
    }

    /// Counts one more item and gives its row and column: the column counter
    /// runs first and wraps to the next row when it reaches `N`.
    fn step(&mut self) -> (r: (usize, usize))
        requires
            old(self).j <= N,
            old(self).count() < M * N,
        ensures
            final(self).iter == old(self).iter,
            final(self).j <= N,
            final(self).count() == old(self).count() + 1,
            r.0 == old(self).count() / (N as nat),
            r.1 == old(self).count() % (N as nat),
            r.0 < M,
            r.1 < N,
    {
        proof {
            lemma_row_major_inverse(self.count() as int, M as int, N as int);
            assert((self.i + 1) * N == self.i * N + N) by (nonlinear_arith);
            if self.j == N {
                lemma_row_major(self.i + 1, 0, self.i + 2, N as int);
                assert(self.i + 1 < M) by (nonlinear_arith)
                    requires
                        (self.i + 1) * N < M * N,
                ;
            } else {
                lemma_row_major(self.i as int, self.j as int, self.i + 1, N as int);
            }
        }
        if self.j == N {
            self.i = self.i + 1;
            self.j = 0;
        }
        let j = self.j;
        self.j = self.j + 1;
        (self.i, j)
    }
}

impl<'a, T, const M: usize, const N: usize> CursorIterator<M, N> for Iter<'a, T, M, N> {
    open spec fn pending(&self) -> nat {
        self.remaining().len()
    }

    /// The iterator never has more to give than the matrix has cells, so the
    /// cursor made from it is well formed, whatever was given before.
    fn cursor(self) -> (c: Cursor<Self, M, N>)
        ensures
            c.iter.remaining().len() <= M * N,
    {
        proof {
            self.lemma_remaining_bound();
        }
        Cursor { iter: self, i: 0, j: 0 }
    }
}

impl<'a, T, const M: usize, const N: usize> CursorIterator<M, N> for IterMut<'a, T, M, N> {
    open spec fn pending(&self) -> nat {
        self.remaining().len()
    }

    fn cursor(self) -> (c: Cursor<Self, M, N>) {
        Cursor { iter: self, i: 0, j: 0 }
    }
}

impl<T, const M: usize, const N: usize> CursorIterator<M, N> for IntoIter<T, M, N> {
    open spec fn pending(&self) -> nat {
        self.remaining().len()
    }

    /// The iterator never has more to give than the matrix has cells, so the
    /// cursor made from it is well formed, whatever was given before.
    fn cursor(self) -> (c: Cursor<Self, M, N>)
        ensures
            c.iter.remaining().len() <= M * N,
    {
        proof {
            self.lemma_remaining_bound();
        }
        Cursor { iter: self, i: 0, j: 0 }
    }
}

impl<'a, T, const M: usize, const N: usize> Cursor<Iter<'a, T, M, N>, M, N> {
    /// The next entry with its row and column, or `None` when all have been
    /// given. Once exhausted, the cursor stays so and counts no further.
    pub fn next(&mut self) -> (r: Option<(usize, usize, &'a T)>)
        requires
            old(self).wf(),
        ensures
            final(self).wf(),
            old(self).iter.remaining().len() == 0 ==> r is None && *final(self) == *old(self),
            old(self).iter.remaining().len() > 0 ==> (r matches Some(item)
                && item.0 == old(self).count() / (N as nat)
                && item.1 == old(self).count() % (N as nat)
                && *item.2 == old(self).iter.remaining()[0]),
            old(self).iter.remaining().len() > 0 ==> final(self).iter.remaining()
                == old(self).iter.remaining().drop_first()
                && final(self).count() == old(self).count() + 1,
    {
        match self.iter.next() {
            None => None,
            Some(x) => {
                let (i, j) = self.step();
                Some((i, j, x))
            },
        }
    }

    /// All entries that are still to come, each with its row and column, in the
    /// order in which `next` gives them.
    pub fn collect(self) -> (items: Vec<(usize, usize, &'a T)>)
        requires
            self.wf(),
        ensures
            items@.len() == self.iter.remaining().len(),
            forall|k: int|
                0 <= k < items@.len() ==> (#[trigger] items@[k]).0 == (self.count() + k) / (
                N as int) && items@[k].1 == (self.count() + k) % (N as int) && *items@[k].2
                    == self.iter.remaining()[k],
    {
        let mut cursor = self;
        let mut items: Vec<(usize, usize, &'a T)> = Vec::new();
        loop
            invariant
                cursor.wf(),
                items@.len() <= self.iter.remaining().len(),
                cursor.count() == self.count() + items@.len(),
                cursor.iter.remaining() == self.iter.remaining().skip(items@.len() as int),
                forall|k: int|
                    0 <= k < items@.len() ==> (#[trigger] items@[k]).0 == (self.count() + k) / (
                    N as int) && items@[k].1 == (self.count() + k) % (N as int) && *items@[k].2
                        == self.iter.remaining()[k],
            ensures
                items@.len() == self.iter.remaining().len(),
                forall|k: int|
                    0 <= k < items@.len() ==> (#[trigger] items@[k]).0 == (self.count() + k) / (
                    N as int) && items@[k].1 == (self.count() + k) % (N as int) && *items@[k].2
                        == self.iter.remaining()[k],
            decreases cursor.iter.remaining().len(),
        {
            match cursor.next() {
                None => {
                    break ;
                },
                Some(item) => {
                    items.push(item);
                    assert(cursor.iter.remaining() =~= self.iter.remaining().skip(
                        items@.len() as int,
                    ));
                },
            }
        }
        items
    }

    /// How many entries are still to come.
    pub fn len(&self) -> (r: usize)
        requires
            M * N <= usize::MAX,
        ensures
            r == self.iter.remaining().len(),
    {
        self.iter.len()
    }
}

impl<'a, T, const M: usize, const N: usize> Cursor<IterMut<'a, T, M, N>, M, N> {
    /// The next entry with its row and column, or `None` when all have been
    /// given. Once exhausted, the cursor stays so and counts no further.
    pub fn next(&mut self) -> (r: Option<(usize, usize, &'a mut T)>)
        requires
            old(self).wf(),
        ensures
            final(self).wf(),
            old(self).iter.remaining().len() == 0 ==> r is None
                && final(self).iter.remaining().len() == 0
                && final(self).i == old(self).i
                && final(self).j == old(self).j
                && (final(old(self).iter.row)@ + joined(final(old(self).iter.rows)@)).len() == 0,
            old(self).iter.remaining().len() > 0 ==> (r matches Some(item)
                && item.0 == old(self).count() / (N as nat)
                && item.1 == old(self).count() % (N as nat)
                && *item.2 == old(self).iter.remaining()[0]),
            old(self).iter.remaining().len() > 0 ==> final(self).iter.remaining()
                == old(self).iter.remaining().drop_first()
                && final(self).count() == old(self).count() + 1,
            old(self).iter.remaining().len() > 0 ==> (r matches Some(item)
                && (final(old(self).iter.row)@ + joined(final(old(self).iter.rows)@))
                    == seq![*final(item.2)]
                        + (final(final(self).iter.row)@ + joined(final(final(self).iter.rows)@))),
    {
        match self.iter.next() {
            None => None,
            Some(x) => {
                let (i, j) = self.step();
                Some((i, j, x))
            },
        }
    }

    /// All entries that are still to come, each with its row and column, in the
    /// order in which `next` gives them. What the part not yet handed out holds
    /// in the end is what the references hold in the end, one after the other.
    pub fn collect(self) -> (items: Vec<(usize, usize, &'a mut T)>)
        requires
            self.wf(),
        ensures
            items@.len() == self.iter.remaining().len(),
            forall|k: int|
                0 <= k < items@.len() ==> (#[trigger] items@[k]).0 == (self.count() + k) / (
                N as int) && items@[k].1 == (self.count() + k) % (N as int) && *items@[k].2
                    == self.iter.remaining()[k],
            (final(self.iter.row)@ + joined(final(self.iter.rows)@)).len() == items@.len(),
            forall|k: int|
                0 <= k < items@.len() ==>
                    (final(self.iter.row)@ + joined(final(self.iter.rows)@))[k]
                        == *final((#[trigger] items@[k]).2),
    {
        let mut cursor = self;
        let mut items: Vec<(usize, usize, &'a mut T)> = Vec::new();
        loop
            invariant
                cursor.wf(),
                items@.len() <= self.iter.remaining().len(),
                cursor.count() == self.count() + items@.len(),
                cursor.iter.remaining() == self.iter.remaining().skip(items@.len() as int),
                forall|k: int|
                    0 <= k < items@.len() ==> (#[trigger] items@[k]).0 == (self.count() + k) / (
                    N as int) && items@[k].1 == (self.count() + k) % (N as int) && *items@[k].2
                        == self.iter.remaining()[k],
                (final(self.iter.row)@ + joined(final(self.iter.rows)@)).len()
                    == items@.len()
                        + (final(cursor.iter.row)@ + joined(final(cursor.iter.rows)@)).len(),
                forall|k: int|
                    0 <= k < items@.len() ==>
                        (final(self.iter.row)@ + joined(final(self.iter.rows)@))[k]
                            == *final((#[trigger] items@[k]).2),
                forall|k: int|
                    0 <= k < (final(cursor.iter.row)@ + joined(final(cursor.iter.rows)@)).len() ==>
                        (final(self.iter.row)@ + joined(final(self.iter.rows)@))[items@.len()
                        + k] == #[trigger] (final(cursor.iter.row)@ + joined(final(cursor.iter.rows)@))[k],
            ensures
                items@.len() == self.iter.remaining().len(),
                forall|k: int|
                    0 <= k < items@.len() ==> (#[trigger] items@[k]).0 == (self.count() + k) / (
                    N as int) && items@[k].1 == (self.count() + k) % (N as int) && *items@[k].2
                        == self.iter.remaining()[k],
                (final(self.iter.row)@ + joined(final(self.iter.rows)@)).len() == items@.len(),
                forall|k: int|
                    0 <= k < items@.len() ==>
                        (final(self.iter.row)@ + joined(final(self.iter.rows)@))[k]
                            == *final((#[trigger] items@[k]).2),
            decreases cursor.iter.remaining().len(),
        {
            let ghost before = cursor;
            let ghost taken = items@;
            match cursor.next() {
                None => {
                    break ;
                },
                Some(item) => {
                    items.push(item);
                    assert(cursor.iter.remaining() =~= self.iter.remaining().skip(
                        items@.len() as int,
                    ));
                    assert((final(before.iter.row)@ + joined(final(before.iter.rows)@)) == seq![
                        *final(items@[taken.len() as int].2),
                    ] + (final(cursor.iter.row)@ + joined(final(cursor.iter.rows)@)));
                    assert(forall|k: int| 0 <= k < taken.len() ==> items@[k] == taken[k]);
                    assert forall|k: int| 0 <= k < items@.len() implies
                        (final(self.iter.row)@ + joined(final(self.iter.rows)@))[k]
                        == *final((#[trigger] items@[k]).2) by {
                        if k == taken.len() {
                            assert((final(self.iter.row)@ + joined(final(self.iter.rows)@))[taken.len() as int + 0]
                                == (final(before.iter.row)@ + joined(final(before.iter.rows)@))[0]);
                        }
                    }
                    assert forall|k: int| 0 <= k < (final(cursor.iter.row)@ + joined(final(cursor.iter.rows)@)).len() implies
                        (final(self.iter.row)@ + joined(final(self.iter.rows)@))[items@.len() + k]
                            == #[trigger] (final(cursor.iter.row)@ + joined(final(cursor.iter.rows)@))[k] by {
                        assert((final(self.iter.row)@ + joined(final(self.iter.rows)@))[taken.len() + (k + 1)]
                            == (final(before.iter.row)@ + joined(final(before.iter.rows)@))[k + 1]);
                    }
                },
            }
        }
        items
    }

    /// How many entries are still to come.
    pub fn len(&self) -> (r: usize)
        requires
            self.iter.remaining().len() <= usize::MAX,
        ensures
            r == self.iter.remaining().len(),
    {
        self.iter.len()
    }
}

impl<T, const M: usize, const N: usize> Cursor<IntoIter<T, M, N>, M, N> {
    /// The next entry with its row and column, or `None` when all have been
    /// given. Once exhausted, the cursor stays so and counts no further.
    pub fn next(&mut self) -> (r: Option<(usize, usize, T)>) where T: Copy
        requires
            old(self).wf(),
        ensures
            final(self).wf(),
            old(self).iter.remaining().len() == 0 ==> r is None && *final(self) == *old(self),
            old(self).iter.remaining().len() > 0 ==> (r matches Some(item)
                && item.0 == old(self).count() / (N as nat)
                && item.1 == old(self).count() % (N as nat)
                && item.2 == old(self).iter.remaining()[0]),
            old(self).iter.remaining().len() > 0 ==> final(self).iter.remaining()
                == old(self).iter.remaining().drop_first()
                && final(self).count() == old(self).count() + 1,
    {
        match self.iter.next() {
            None => None,
            Some(x) => {
                let (i, j) = self.step();
                Some((i, j, x))
            },
        }
    }

    /// All entries that are still to come, each with its row and column, in the
    /// order in which `next` gives them.
    pub fn collect(self) -> (items: Vec<(usize, usize, T)>) where T: Copy
        requires
            self.wf(),
        ensures
            items@.len() == self.iter.remaining().len(),
            forall|k: int|
                0 <= k < items@.len() ==> (#[trigger] items@[k]).0 == (self.count() + k) / (
                N as int) && items@[k].1 == (self.count() + k) % (N as int) && items@[k].2
                    == self.iter.remaining()[k],
    {
        let mut cursor = self;
        let mut items: Vec<(usize, usize, T)> = Vec::new();
        loop
            invariant
                cursor.wf(),
                items@.len() <= self.iter.remaining().len(),
                cursor.count() == self.count() + items@.len(),
                cursor.iter.remaining() == self.iter.remaining().skip(items@.len() as int),
                forall|k: int|
                    0 <= k < items@.len() ==> (#[trigger] items@[k]).0 == (self.count() + k) / (
                    N as int) && items@[k].1 == (self.count() + k) % (N as int) && items@[k].2
                        == self.iter.remaining()[k],
            ensures
                items@.len() == self.iter.remaining().len(),
                forall|k: int|
                    0 <= k < items@.len() ==> (#[trigger] items@[k]).0 == (self.count() + k) / (
                    N as int) && items@[k].1 == (self.count() + k) % (N as int) && items@[k].2
                        == self.iter.remaining()[k],
            decreases cursor.iter.remaining().len(),
        {
            match cursor.next() {
                None => {
                    break ;
                },
                Some(item) => {
                    items.push(item);
                    assert(cursor.iter.remaining() =~= self.iter.remaining().skip(
                        items@.len() as int,
                    ));
                },
            }
        }
        items
    }

    /// How many entries are still to come.
    pub fn len(&self) -> (r: usize)
        requires
            M * N <= usize::MAX,
        ensures
            r == self.iter.remaining().len(),
    {
        self.iter.len()
    }
}

} // verus!
