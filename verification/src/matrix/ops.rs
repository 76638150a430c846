use super::Matrix;
use crate::identity::IdAdd;
use crate::recip::Recip;
use std::ops::Neg;
use vstd::prelude::*;
use vstd::std_specs::ops::{AddSpec, MulSpec, NegSpec, SubSpec};

verus! {

impl<T, const M: usize, const N: usize> vstd::std_specs::core::IndexSpecImpl<(usize, usize)> for Matrix<T, M, N> {
    /// A position can be indexed when it lies inside the matrix.
    open spec fn index_req(&self, index: &(usize, usize)) -> bool {
        index.0 < M && index.1 < N
    }
}

impl<T, const M: usize, const N: usize> std::ops::Index<(usize, usize)> for Matrix<T, M, N> {
    type Output = T;

    /// `m[(i, j)]` is the entry in row `i` and column `j`.
    fn index(&self, index: (usize, usize)) -> (r: &T)
        ensures
            *r == self.at(index.0 as int, index.1 as int),
    {
        &self.0[index.0][index.1]
    }
}

impl<T, const M: usize, const N: usize> Matrix<T, M, N> {
    /// A mutable reference to the entry in row `index.0` and column `index.1`,
    /// which must lie inside the matrix. Writing through the reference changes
    /// that entry and no other.
    pub fn index_mut(&mut self, index: (usize, usize)) -> (r: &mut T)
        requires
            index.0 < M,
            index.1 < N,
        ensures
            *r == old(self).at(index.0 as int, index.1 as int),
            forall|a: int, b: int|
                0 <= a < M && 0 <= b < N ==> #[trigger] final(self).at(a, b) == (if a == index.0
                    && b == index.1 {
                    *final(r)
                } else {
                    old(self).at(a, b)
                }),
    {
        &mut self.0[index.0][index.1]
    }
}

impl<T, const M: usize, const N: usize> Matrix<T, M, N> {
    /// The matrix that holds in every cell the sum of the entries of `self` and
    /// `rhs` there.
    pub open spec fn sum<U, V>(self, rhs: Matrix<U, M, N>) -> Matrix<V, M, N> where
        T: std::ops::Add<U, Output = V>,
     {
        Matrix::tabulate(|i: int, j: int| self.at(i, j).add_spec(rhs.at(i, j)))
    }
}

impl<T, U, V, const M: usize, const N: usize> vstd::std_specs::ops::AddSpecImpl<Matrix<U, M, N>>
    for Matrix<T, M, N> where
    T: Copy + std::ops::Add<U, Output = V>,
    U: Copy,
{
    open spec fn obeys_add_spec() -> bool {
        T::obeys_add_spec()
    }

    /// The sum is defined when the sum of the two entries is, in every cell.
    open spec fn add_req(self, rhs: Matrix<U, M, N>) -> bool {
        self.sum_req(rhs)
    }

    /// The sum holds in every cell the sum of the two entries.
    open spec fn add_spec(self, rhs: Matrix<U, M, N>) -> Matrix<V, M, N> {
        self.sum(rhs)
    }
}

impl<T, U, V, const M: usize, const N: usize> std::ops::Add<Matrix<U, M, N>>
    for Matrix<T, M, N> where
    T: Copy + std::ops::Add<U, Output = V>,
    U: Copy,
{
    type Output = Matrix<V, M, N>;

    fn add(self, rhs: Matrix<U, M, N>) -> (r: Matrix<V, M, N>) {
        let r = self.map(
            |i: usize, j: usize, x: &T| -> (y: V)
                requires
                    i < M,
                    j < N,
                    *x == self.at(i as int, j as int),
                ensures
                    T::obeys_add_spec() ==> y == self.at(i as int, j as int).add_spec(
                        rhs.at(i as int, j as int),
                    ),
                {
                    *x + rhs[(i, j)]
                }
        );
        proof {
            if T::obeys_add_spec() {
                broadcast use Matrix::lemma_tabulate;
                r.lemma_ext_equal(self.sum(rhs));
            }
        }
        r
    }
}

impl<T, const M: usize, const N: usize> Matrix<T, M, N> {
    /// The matrix that holds in every cell the entry of `self` less the entry of
    /// `rhs` there.
    pub open spec fn difference<U, V>(self, rhs: Matrix<U, M, N>) -> Matrix<V, M, N> where
        T: std::ops::Sub<U, Output = V>,
     {
        Matrix::tabulate(|i: int, j: int| self.at(i, j).sub_spec(rhs.at(i, j)))
    }

    /// The matrix that holds in every cell the negated entry of `self`.
    pub open spec fn negation<U>(self) -> Matrix<U, M, N> where T: std::ops::Neg<Output = U> {
        Matrix::tabulate(|i: int, j: int| self.at(i, j).neg_spec())
    }

    /// The matrix that holds in every cell the entry of `self` times `factor`.
    pub open spec fn scaled<U, V>(self, factor: U) -> Matrix<V, M, N> where
        T: std::ops::Mul<U, Output = V>,
     {
        Matrix::tabulate(|i: int, j: int| self.at(i, j).mul_spec(factor))
    }

    /// Whether every entry can be multiplied by `factor`.
    pub open spec fn scale_req<U, V>(self, factor: U) -> bool where
        T: std::ops::Mul<U, Output = V>,
     {
        forall|i: int, j: int|
            0 <= i < M && 0 <= j < N ==> (#[trigger] self.at(i, j)).mul_req(factor)
    }

    /// A new matrix with every entry multiplied by `factor`.
    pub fn scale<U, V>(&self, factor: U) -> (r: Matrix<V, M, N>) where
        T: Copy + std::ops::Mul<U, Output = V>,
        U: Copy,

        requires
            self.scale_req(factor),
        ensures
            T::obeys_mul_spec() ==> r == self.scaled(factor),
    {
        let r = self.map(
            |i: usize, j: usize, x: &T| -> (y: V)
                requires
                    i < M,
                    j < N,
                    *x == self.at(i as int, j as int),
                ensures
                    T::obeys_mul_spec() ==> y == self.at(i as int, j as int).mul_spec(factor),
                {
                    *x * factor
                }
        );
        proof {
            if T::obeys_mul_spec() {
                broadcast use Matrix::lemma_tabulate;

                r.lemma_ext_equal(self.scaled(factor));
            }
        }
        r
    }

    /// Multiplies every entry by `factor`, in place.
    pub fn scale_mut<U>(&mut self, factor: U) where T: Copy + std::ops::Mul<U, Output = T>, U: Copy
        requires
            old(self).scale_req(factor),
        ensures
            T::obeys_mul_spec() ==> *final(self) == old(self).scaled(factor),
    {
        let ghost before = *self;
        self.map_mut(
            |i: usize, j: usize, x: &mut T|
                requires
                    (*x).mul_req(factor),
                ensures
                    T::obeys_mul_spec() ==> *final(x) == (*old(x)).mul_spec(factor),
                {
                    *x = *x * factor;
                }
        );
        proof {
            if T::obeys_mul_spec() {
                broadcast use Matrix::lemma_tabulate;

                assert forall|i: int, j: int| 0 <= i < M && 0 <= j < N implies self.at(i, j)
                    == before.at(i, j).mul_spec(factor) by {
                    assert(Self::in_shape(i, j));
                }
                self.lemma_ext_equal(before.scaled(factor));
            }
        }
    }

    /// Whether the entries of `rhs` can be added to those of `self`, cell by
    /// cell.
    pub open spec fn sum_req<U, V>(self, rhs: Matrix<U, M, N>) -> bool where
        T: std::ops::Add<U, Output = V>,
     {
        forall|i: int, j: int|
            0 <= i < M && 0 <= j < N ==> (#[trigger] self.at(i, j)).add_req(rhs.at(i, j))
    }

    /// Whether the entries of `rhs` can be subtracted from those of `self`, cell
    /// by cell.
    pub open spec fn difference_req<U, V>(self, rhs: Matrix<U, M, N>) -> bool where
        T: std::ops::Sub<U, Output = V>,
     {
        forall|i: int, j: int|
            0 <= i < M && 0 <= j < N ==> (#[trigger] self.at(i, j)).sub_req(rhs.at(i, j))
    }

    /// Adds the entries of `rhs` to those of `self`, in place.
    pub fn add_assign<U>(&mut self, rhs: Matrix<U, M, N>) where
        T: Copy + std::ops::Add<U, Output = T>,
        U: Copy,

        requires
            old(self).sum_req(rhs),
        ensures
            T::obeys_add_spec() ==> *final(self) == old(self).sum(rhs),
    {
        let ghost before = *self;
        self.map_mut(
            |i: usize, j: usize, x: &mut T|
                requires
                    i < M,
                    j < N,
                    (*x).add_req(rhs.at(i as int, j as int)),
                ensures
                    T::obeys_add_spec() ==> *final(x) == (*old(x)).add_spec(
                        rhs.at(i as int, j as int),
                    ),
                {
                    *x = *x + rhs[(i, j)];
                }
        );
        proof {
            if T::obeys_add_spec() {
                broadcast use Matrix::lemma_tabulate;

                assert forall|i: int, j: int| 0 <= i < M && 0 <= j < N implies self.at(i, j)
                    == before.at(i, j).add_spec(rhs.at(i, j)) by {
                    assert(Self::in_shape(i, j));
                }
                self.lemma_ext_equal(before.sum(rhs));
            }
        }
    }

    /// Subtracts the entries of `rhs` from those of `self`, in place.
    pub fn sub_assign<U>(&mut self, rhs: Matrix<U, M, N>) where
        T: Copy + std::ops::Sub<U, Output = T>,
        U: Copy,

        requires
            old(self).difference_req(rhs),
        ensures
            T::obeys_sub_spec() ==> *final(self) == old(self).difference(rhs),
    {
        let ghost before = *self;
        self.map_mut(
            |i: usize, j: usize, x: &mut T|
                requires
                    i < M,
                    j < N,
                    (*x).sub_req(rhs.at(i as int, j as int)),
                ensures
                    T::obeys_sub_spec() ==> *final(x) == (*old(x)).sub_spec(
                        rhs.at(i as int, j as int),
                    ),
                {
                    *x = *x - rhs[(i, j)];
                }
        );
        proof {
            if T::obeys_sub_spec() {
                broadcast use Matrix::lemma_tabulate;

                assert forall|i: int, j: int| 0 <= i < M && 0 <= j < N implies self.at(i, j)
                    == before.at(i, j).sub_spec(rhs.at(i, j)) by {
                    assert(Self::in_shape(i, j));
                }
                self.lemma_ext_equal(before.difference(rhs));
            }
        }
    }
}

impl<T, U, V, const M: usize, const N: usize> vstd::std_specs::ops::SubSpecImpl<Matrix<U, M, N>>
    for Matrix<T, M, N> where
    T: Copy + std::ops::Sub<U, Output = V>,
    U: Copy,
{
    open spec fn obeys_sub_spec() -> bool {
        T::obeys_sub_spec()
    }

    /// The difference is defined when the difference of the two entries is, in
    /// every cell.
    open spec fn sub_req(self, rhs: Matrix<U, M, N>) -> bool {
        self.difference_req(rhs)
    }

    /// The difference holds in every cell the difference of the two entries.
    open spec fn sub_spec(self, rhs: Matrix<U, M, N>) -> Matrix<V, M, N> {
        self.difference(rhs)
    }
}

impl<T, U, V, const M: usize, const N: usize> std::ops::Sub<Matrix<U, M, N>>
    for Matrix<T, M, N> where
    T: Copy + std::ops::Sub<U, Output = V>,
    U: Copy,
{
    type Output = Matrix<V, M, N>;

    fn sub(self, rhs: Matrix<U, M, N>) -> (r: Matrix<V, M, N>) {
        let r = self.map(
            |i: usize, j: usize, x: &T| -> (y: V)
                requires
                    i < M,
                    j < N,
                    *x == self.at(i as int, j as int),
                ensures
                    T::obeys_sub_spec() ==> y == self.at(i as int, j as int).sub_spec(
                        rhs.at(i as int, j as int),
                    ),
                {
                    *x - rhs[(i, j)]
                }
        );
        proof {
            if T::obeys_sub_spec() {
                broadcast use Matrix::lemma_tabulate;

                r.lemma_ext_equal(self.difference(rhs));
            }
        }
        r
    }
}

impl<T, U, const M: usize, const N: usize> vstd::std_specs::ops::NegSpecImpl
    for Matrix<T, M, N> where
    T: Copy + std::ops::Neg<Output = U>,
{
    open spec fn obeys_neg_spec() -> bool {
        T::obeys_neg_spec()
    }

    /// The negation is defined when every entry can be negated.
    open spec fn neg_req(self) -> bool {
        forall|i: int, j: int| 0 <= i < M && 0 <= j < N ==> (#[trigger] self.at(i, j)).neg_req()
    }

    /// The negation holds in every cell the negated entry.
    open spec fn neg_spec(self) -> Matrix<U, M, N> {
        self.negation()
    }
}

impl<T, U, const M: usize, const N: usize> std::ops::Neg
    for Matrix<T, M, N> where
    T: Copy + std::ops::Neg<Output = U>,
{
    type Output = Matrix<U, M, N>;

    fn neg(self) -> (r: Matrix<U, M, N>) {
        let r = self.map(
            |i: usize, j: usize, x: &T| -> (y: U)
                requires
                    i < M,
                    j < N,
                    *x == self.at(i as int, j as int),
                ensures
                    T::obeys_neg_spec() ==> y == self.at(i as int, j as int).neg_spec(),
                {
                    (*x).neg()
                }
        );
        proof {
            if T::obeys_neg_spec() {
                broadcast use Matrix::lemma_tabulate;

                r.lemma_ext_equal(self.negation());
            }
        }
        r
    }
}

impl<T, const M: usize, const P: usize> Matrix<T, M, P> {
    /// The dot product of row `i` of `self` and column `j` of `rhs`, over the
    /// first `k` positions: it starts from the additive identity and adds the
    /// products one by one, in increasing order of position.
    pub open spec fn dot<U, V, W, const N: usize>(
        self,
        rhs: Matrix<U, P, N>,
        i: int,
        j: int,
        k: nat,
    ) -> W where T: std::ops::Mul<U, Output = V>, W: std::ops::Add<V, Output = W> + IdAdd
        decreases k,
    {
        if k == 0 {
            W::id_add_spec()
        } else {
            self.dot::<U, V, W, N>(rhs, i, j, (k - 1) as nat).add_spec(
                self.at(i, k - 1).mul_spec(rhs.at(k - 1, j)),
            )
        }
    }

    /// Whether every product and every partial sum of `dot(rhs, i, j, k)` is
    /// defined.
    pub open spec fn dot_req<U, V, W, const N: usize>(
        self,
        rhs: Matrix<U, P, N>,
        i: int,
        j: int,
        k: nat,
    ) -> bool where T: std::ops::Mul<U, Output = V>, W: std::ops::Add<V, Output = W> + IdAdd
        decreases k,
    {
        k > 0 ==> {
            &&& self.dot_req::<U, V, W, N>(rhs, i, j, (k - 1) as nat)
            &&& self.at(i, k - 1).mul_req(rhs.at(k - 1, j))
            &&& self.dot::<U, V, W, N>(rhs, i, j, (k - 1) as nat).add_req(
                self.at(i, k - 1).mul_spec(rhs.at(k - 1, j)),
            )
        }
    }

    /// A dot product that is defined over `n` positions is defined over fewer.
    pub proof fn lemma_dot_req_prefix<U, V, W, const N: usize>(
        self,
        rhs: Matrix<U, P, N>,
        i: int,
        j: int,
        k: nat,
        n: nat,
    ) where T: std::ops::Mul<U, Output = V>, W: std::ops::Add<V, Output = W> + IdAdd
        requires
            k <= n,
            self.dot_req::<U, V, W, N>(rhs, i, j, n),
        ensures
            self.dot_req::<U, V, W, N>(rhs, i, j, k),
        decreases n,
    {
        if k < n {
            self.lemma_dot_req_prefix::<U, V, W, N>(rhs, i, j, k, (n - 1) as nat);
        }
    }

    /// Whether the matrix product with `rhs` is defined: the entry types keep to
    /// the specification of their arithmetic, and every dot product of a row of
    /// `self` with a column of `rhs` is defined.
    pub open spec fn product_req<U, V, W, const N: usize>(self, rhs: Matrix<U, P, N>) -> bool where
        T: std::ops::Mul<U, Output = V>,
        W: std::ops::Add<V, Output = W> + IdAdd,
     {
        &&& T::obeys_mul_spec()
        &&& W::obeys_add_spec()
        &&& forall|i: int, j: int|
            0 <= i < M && 0 <= j < N ==> #[trigger] self.dot_req::<U, V, W, N>(rhs, i, j, P as nat)
    }

    /// The matrix product: the cell in row `i` and column `j` holds the dot
    /// product of row `i` of `self` and column `j` of `rhs`.
    pub open spec fn product<U, V, W, const N: usize>(self, rhs: Matrix<U, P, N>) -> Matrix<
        W,
        M,
        N,
    > where T: std::ops::Mul<U, Output = V>, W: std::ops::Add<V, Output = W> + IdAdd {
        Matrix::tabulate(|i: int, j: int| self.dot::<U, V, W, N>(rhs, i, j, P as nat))
    }

    /// Adds to `start` the products of row `i` of `self` with column `j` of
    /// `rhs`, in increasing order of position.
    fn dot_product<U, V, W, const N: usize>(
        &self,
        rhs: &Matrix<U, P, N>,
        i: usize,
        j: usize,
        start: W,
    ) -> (r: W) where
        T: Copy + std::ops::Mul<U, Output = V>,
        U: Copy,
        W: std::ops::Add<V, Output = W> + IdAdd,

        requires
            i < M,
            j < N,
            T::obeys_mul_spec(),
            W::obeys_add_spec(),
            start == W::id_add_spec(),
            self.dot_req::<U, V, W, N>(*rhs, i as int, j as int, P as nat),
        ensures
            r == self.dot::<U, V, W, N>(*rhs, i as int, j as int, P as nat),
    {
        let mut x = start;
        let mut k: usize = 0;
        while k < P
            invariant
                k <= P,
                i < M,
                j < N,
                T::obeys_mul_spec(),
                W::obeys_add_spec(),
                self.dot_req::<U, V, W, N>(*rhs, i as int, j as int, P as nat),
                x == self.dot::<U, V, W, N>(*rhs, i as int, j as int, k as nat),
            decreases P - k,
        {
            proof {
                self.lemma_dot_req_prefix::<U, V, W, N>(
                    *rhs,
                    i as int,
                    j as int,
                    (k + 1) as nat,
                    P as nat,
                );
            }
            x = x + self[(i, k)] * rhs[(k, j)];
            k += 1;
        }
        x
    }
}

/// The product of a matrix over `T` with one over `U`. The products of entries
/// have the type `V`, and the sums are kept in the type that adding two
/// products gives, `<V as std::ops::Add<V>>::Output`.
impl<T, U, V, const M: usize, const N: usize, const P: usize> vstd::std_specs::ops::MulSpecImpl<Matrix<U, P, N>>
    for Matrix<T, M, P> where
    T: Copy + std::ops::Mul<U, Output = V>,
    U: Copy,
    V: std::ops::Add<V>,
    <V as std::ops::Add<V>>::Output: Copy + std::ops::Add<V, Output = <V as std::ops::Add<V>>::Output> + IdAdd,
{
    open spec fn obeys_mul_spec() -> bool {
        true
    }

    open spec fn mul_req(self, rhs: Matrix<U, P, N>) -> bool {
        self.product_req::<U, V, <V as std::ops::Add<V>>::Output, N>(rhs)
    }

    open spec fn mul_spec(self, rhs: Matrix<U, P, N>) -> Matrix<<V as std::ops::Add<V>>::Output, M, N> {
        self.product::<U, V, <V as std::ops::Add<V>>::Output, N>(rhs)
    }
}

impl<T, U, V, const M: usize, const N: usize, const P: usize> std::ops::Mul<Matrix<U, P, N>>
    for Matrix<T, M, P> where
    T: Copy + std::ops::Mul<U, Output = V>,
    U: Copy,
    V: std::ops::Add<V>,
    <V as std::ops::Add<V>>::Output: Copy + std::ops::Add<V, Output = <V as std::ops::Add<V>>::Output> + IdAdd,
{
    type Output = Matrix<<V as std::ops::Add<V>>::Output, M, N>;

    fn mul(self, rhs: Matrix<U, P, N>) -> (r: Matrix<<V as std::ops::Add<V>>::Output, M, N>) {
        let zero = Matrix::<<V as std::ops::Add<V>>::Output, M, N>::id_add();
        proof {
            broadcast use Matrix::lemma_tabulate;

            assert forall|i: int, j: int| 0 <= i < M && 0 <= j < N implies #[trigger] zero.at(i, j)
                == <<V as std::ops::Add<V>>::Output>::id_add_spec() by {}
        }
        let r = zero.into_map(
            |i: usize, j: usize, x: <V as std::ops::Add<V>>::Output| -> (y: <V as std::ops::Add<V>>::Output)
                requires
                    i < M,
                    j < N,
                    x == <<V as std::ops::Add<V>>::Output>::id_add_spec(),
                ensures
                    y == self.dot::<U, V, <V as std::ops::Add<V>>::Output, N>(
                        rhs,
                        i as int,
                        j as int,
                        P as nat,
                    ),
                {
                    self.dot_product::<U, V, <V as std::ops::Add<V>>::Output, N>(&rhs, i, j, x)
                }
        );
        proof {
            broadcast use Matrix::lemma_tabulate;

            r.lemma_ext_equal(self.product::<U, V, <V as std::ops::Add<V>>::Output, N>(rhs));
        }
        r
    }
}

impl<T, const M: usize> Matrix<T, M, M> where T: Copy + std::ops::Mul<Output = T> + std::ops::Add<Output = T> + IdAdd {
    /// The matrix raised to the exponent `n`: the product of `n` copies of
    /// the matrix, taken from the left. Exponent 1 gives the matrix itself, and
    /// so does exponent 0.
    pub open spec fn power(self, n: nat) -> Self
        decreases n,
    {
        if n <= 1 {
            self
        } else {
            self.power((n - 1) as nat).product::<T, T, T, M>(self)
        }
    }

    /// Whether each of the products of `power(n)` is defined.
    pub open spec fn power_req(self, n: nat) -> bool
        decreases n,
    {
        n > 1 ==> self.power_req((n - 1) as nat) && self.power((n - 1) as nat).product_req::<T, T, T, M>(self)
    }

    /// A power that is defined for the exponent `n` is defined for every
    /// smaller exponent.
    pub proof fn lemma_power_req_prefix(self, k: nat, n: nat)
        requires
            k <= n,
            self.power_req(n),
        ensures
            self.power_req(k),
        decreases n,
    {
        if k < n && n > 1 {
            self.lemma_power_req_prefix(k, (n - 1) as nat);
        }
    }

    /// Raises the matrix to the exponent `exp` by repeated multiplication,
    /// starting from the matrix itself. So `pow(1)` is the matrix, `pow(2)` its
    /// square, and `pow(0)` is the matrix too, not the identity matrix.
    pub fn pow(self, exp: u32) -> (r: Self)
        requires
            self.power_req(exp as nat),
        ensures
            r == self.power(exp as nat),
    {
        let mut acc = Matrix(self.0);
        let mut k: u32 = 1;
        while k < exp
            invariant
                1 <= k,
                k == 1 || k <= exp,
                self.power_req(exp as nat),
                acc == self.power(k as nat),
            decreases exp - k,
        {
            proof {
                self.lemma_power_req_prefix((k + 1) as nat, exp as nat);
            }
            acc = acc * Matrix(self.0);
            k += 1;
        }
        acc
    }
}

impl<T> Matrix<T, 1, 1> where T: Recip<Output = T> {
    /// The one by one matrix that holds the reciprocal of the only entry.
    pub open spec fn reciprocal(self) -> Self {
        Matrix::tabulate(|i: int, j: int| self.at(0, 0).recip_spec())
    }
}

impl<T> Recip for Matrix<T, 1, 1> where T: Copy + Recip<Output = T> {
    type Output = Matrix<T, 1, 1>;

    open spec fn obeys_recip_spec() -> bool {
        T::obeys_recip_spec()
    }

    /// A one by one matrix has an inverse when its entry has a reciprocal.
    open spec fn recip_req(self) -> bool {
        self.at(0, 0).recip_req()
    }

    open spec fn recip_spec(self) -> Matrix<T, 1, 1> {
        self.reciprocal()
    }

    /// The inverse of a one by one matrix.
    fn recip(self) -> (r: Matrix<T, 1, 1>) {
        let r = Matrix::new([[self[(0, 0)].recip()]]);
        proof {
            if T::obeys_recip_spec() {
                broadcast use Matrix::lemma_tabulate;

                r.lemma_ext_equal(self.reciprocal());
            }
        }
        r
    }
}

impl<T> Matrix<T, 2, 2> where
    T: Copy + std::ops::Mul<Output = T> + std::ops::Sub<Output = T> + std::ops::Neg<Output = T>
        + Recip<Output = T>,
 {
    /// The adjugate of `[[a, b], [c, d]]`: `[[d, -b], [-c, a]]`.
    pub open spec fn adjugate(self) -> Self {
        Matrix::tabulate(
            |i: int, j: int|
                if i == 0 && j == 0 {
                    self.at(1, 1)
                } else if i == 0 {
                    self.at(0, 1).neg_spec()
                } else if j == 0 {
                    self.at(1, 0).neg_spec()
                } else {
                    self.at(0, 0)
                },
        )
    }

    /// Whether the inverse is defined: the entry type keeps to the specification
    /// of its arithmetic, the determinant is defined and has a reciprocal (for
    /// the primitive integers: it is not zero), the two off-diagonal entries can
    /// be negated, and every entry of the adjugate can be multiplied by the
    /// reciprocal of the determinant.
    pub open spec fn reciprocal_req(self) -> bool {
        &&& T::obeys_neg_spec()
        &&& T::obeys_recip_spec()
        &&& self.det_req()
        &&& self.det_spec().recip_req()
        &&& self.at(0, 1).neg_req()
        &&& self.at(1, 0).neg_req()
        &&& self.adjugate().scale_req(self.det_spec().recip_spec())
    }

    /// The adjugate scaled by the reciprocal of the determinant.
    pub open spec fn reciprocal(self) -> Self {
        self.adjugate().scaled(self.det_spec().recip_spec())
    }
}

impl<T> Recip for Matrix<T, 2, 2> where
    T: Copy + std::ops::Mul<Output = T> + std::ops::Sub<Output = T> + std::ops::Neg<Output = T>
        + Recip<Output = T>,
 {
    type Output = Matrix<T, 2, 2>;

    open spec fn obeys_recip_spec() -> bool {
        true
    }

    open spec fn recip_req(self) -> bool {
        self.reciprocal_req()
    }

    open spec fn recip_spec(self) -> Matrix<T, 2, 2> {
        self.reciprocal()
    }

    /// The inverse of a two by two matrix: its adjugate, scaled by the
    /// reciprocal of its determinant.
    fn recip(self) -> (r: Matrix<T, 2, 2>) {
        let factor = self.det().recip();
        let adjugate = Matrix::new(
            [[self[(1, 1)], self[(0, 1)].neg()], [self[(1, 0)].neg(), self[(0, 0)]]],
        );
        proof {
            broadcast use Matrix::lemma_tabulate;

            assert(adjugate.at(0, 0) == self.at(1, 1));
            assert(adjugate.at(0, 1) == self.at(0, 1).neg_spec());
            assert(adjugate.at(1, 0) == self.at(1, 0).neg_spec());
            assert(adjugate.at(1, 1) == self.at(0, 0));
            adjugate.lemma_ext_equal(self.adjugate());
        }
        adjugate.scale(factor)
    }
}

} // verus!
