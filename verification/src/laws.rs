//! Algebraic laws of the matrix operations, for entries that are machine
//! integers. Each law is a theorem about the specifications that the
//! operations promise to compute.

use crate::identity::{IdAdd, IdMul};
use crate::integral::{one_over, Integral, SignedIntegral};
use crate::recip::Recip;
use crate::matrix::dets::{product3, product3_req};
use crate::matrix::Matrix;
use vstd::prelude::*;
use vstd::std_specs::ops::{AddSpec, DivSpec, MulSpec, NegSpec, SubSpec};

verus! {

/// Adding the zero matrix is always defined and changes nothing:
/// `a + 0 == a`.
pub proof fn lemma_add_zero<T: Integral, const M: usize, const N: usize>(a: Matrix<T, M, N>)
    ensures
        a.sum_req::<T, T>(Matrix::id_add_spec()),
        a.sum::<T, T>(Matrix::id_add_spec()) == a,
{
    broadcast use Matrix::lemma_tabulate;

    T::lemma_integral();
    let zero = Matrix::<T, M, N>::id_add_spec();
    assert forall|i: int, j: int| 0 <= i < M && 0 <= j < N implies (#[trigger] a.at(i, j)).add_req(
        zero.at(i, j),
    ) && a.at(i, j).add_spec(zero.at(i, j)) == a.at(i, j) by {
        let x = a.at(i, j);
        let z = zero.at(i, j);
        assert(z == T::id_add_spec());
        assert(x.add_req(z));
        assert(x.add_spec(z).value() == x.value());
        assert(T::from_value(x.add_spec(z).value()) == T::from_value(x.value()));
    }
    a.sum::<T, T>(zero).lemma_ext_equal(a);
}

/// Addition is commutative: where `a + b` is defined, so is `b + a`, and the
/// two are equal.
pub proof fn lemma_add_commutative<T: Integral, const M: usize, const N: usize>(
    a: Matrix<T, M, N>,
    b: Matrix<T, M, N>,
)
    requires
        a.sum_req::<T, T>(b),
    ensures
        b.sum_req::<T, T>(a),
        a.sum::<T, T>(b) == b.sum::<T, T>(a),
{
    broadcast use Matrix::lemma_tabulate;

    T::lemma_integral();
    assert forall|i: int, j: int| 0 <= i < M && 0 <= j < N implies (#[trigger] b.at(i, j)).add_req(
        a.at(i, j),
    ) && a.at(i, j).add_spec(b.at(i, j)) == b.at(i, j).add_spec(a.at(i, j)) by {
        let x = a.at(i, j);
        let y = b.at(i, j);
        assert(x.add_req(y));
        assert(y.add_req(x));
        assert(x.add_spec(y).value() == y.add_spec(x).value());
        assert(T::from_value(x.add_spec(y).value()) == T::from_value(y.add_spec(x).value()));
    }
    a.sum::<T, T>(b).lemma_ext_equal(b.sum::<T, T>(a));
}

/// Scaling by one is always defined and changes nothing.
pub proof fn lemma_scale_one<T: Integral, const M: usize, const N: usize>(a: Matrix<T, M, N>)
    ensures
        a.scale_req::<T, T>(T::id_mul_spec()),
        a.scaled::<T, T>(T::id_mul_spec()) == a,
{
    broadcast use Matrix::lemma_tabulate;

    T::lemma_integral();
    let one = T::id_mul_spec();
    assert forall|i: int, j: int| 0 <= i < M && 0 <= j < N implies (#[trigger] a.at(i, j)).mul_req(
        one,
    ) && a.at(i, j).mul_spec(one) == a.at(i, j) by {
        let x = a.at(i, j);
        assert(x.value() * 1 == x.value());
        assert(x.mul_req(one));
        assert(x.mul_spec(one).value() == x.value());
        assert(T::from_value(x.mul_spec(one).value()) == T::from_value(x.value()));
    }
    a.scaled::<T, T>(one).lemma_ext_equal(a);
}

/// Scaling by zero is always defined and gives the zero matrix.
pub proof fn lemma_scale_zero<T: Integral, const M: usize, const N: usize>(a: Matrix<T, M, N>)
    ensures
        a.scale_req::<T, T>(T::id_add_spec()),
        a.scaled::<T, T>(T::id_add_spec()) == Matrix::<T, M, N>::id_add_spec(),
{
    broadcast use Matrix::lemma_tabulate;

    T::lemma_integral();
    let zero = T::id_add_spec();
    assert forall|i: int, j: int| 0 <= i < M && 0 <= j < N implies (#[trigger] a.at(i, j)).mul_req(
        zero,
    ) && a.at(i, j).mul_spec(zero) == zero by {
        let x = a.at(i, j);
        assert(x.value() * 0 == 0);
        assert(x.mul_req(zero));
        assert(x.mul_spec(zero).value() == zero.value());
        assert(T::from_value(x.mul_spec(zero).value()) == T::from_value(zero.value()));
    }
    a.scaled::<T, T>(zero).lemma_ext_equal(Matrix::<T, M, N>::id_add_spec());
}

proof fn lemma_identity_dot_left<T: Integral, const M: usize, const N: usize>(
    a: Matrix<T, M, N>,
    i: int,
    j: int,
    k: nat,
)
    requires
        0 <= i < M,
        0 <= j < N,
        k <= M,
    ensures
        Matrix::<T, M, M>::id_mul_spec().dot_req::<T, T, T, N>(a, i, j, k),
        Matrix::<T, M, M>::id_mul_spec().dot::<T, T, T, N>(a, i, j, k).value() == (if i < k {
            a.at(i, j).value()
        } else {
            0
        }),
    decreases k,
{
    broadcast use Matrix::lemma_tabulate;

    T::lemma_integral();
    let id = Matrix::<T, M, M>::id_mul_spec();
    if k > 0 {
        lemma_identity_dot_left(a, i, j, (k - 1) as nat);
        let before = id.dot::<T, T, T, N>(a, i, j, (k - 1) as nat);
        let left = id.at(i, k - 1);
        let right = a.at(k - 1, j);
        assert(left == (if i == k - 1 {
            T::id_mul_spec()
        } else {
            T::id_add_spec()
        }));
        assert(left.value() * right.value() == (if i == k - 1 {
            right.value()
        } else {
            0
        })) by (nonlinear_arith)
            requires
                left.value() == (if i == k - 1 {
                    1int
                } else {
                    0int
                }),
        ;
        assert(left.mul_req(right));
        let term = left.mul_spec(right);
        assert(term.value() == left.value() * right.value());
        assert(before.add_req(term));
        assert(before.add_spec(term).value() == before.value() + term.value());
    }
}

proof fn lemma_identity_dot_right<T: Integral, const M: usize, const N: usize>(
    a: Matrix<T, M, N>,
    i: int,
    j: int,
    k: nat,
)
    requires
        0 <= i < M,
        0 <= j < N,
        k <= N,
    ensures
        a.dot_req::<T, T, T, N>(Matrix::<T, N, N>::id_mul_spec(), i, j, k),
        a.dot::<T, T, T, N>(Matrix::<T, N, N>::id_mul_spec(), i, j, k).value() == (if j < k {
            a.at(i, j).value()
        } else {
            0
        }),
    decreases k,
{
    broadcast use Matrix::lemma_tabulate;

    T::lemma_integral();
    let id = Matrix::<T, N, N>::id_mul_spec();
    if k > 0 {
        lemma_identity_dot_right(a, i, j, (k - 1) as nat);
        let before = a.dot::<T, T, T, N>(id, i, j, (k - 1) as nat);
        let left = a.at(i, k - 1);
        let right = id.at(k - 1, j);
        assert(right == (if k - 1 == j {
            T::id_mul_spec()
        } else {
            T::id_add_spec()
        }));
        assert(left.value() * right.value() == (if k - 1 == j {
            left.value()
        } else {
            0
        })) by (nonlinear_arith)
            requires
                right.value() == (if k - 1 == j {
                    1int
                } else {
                    0int
                }),
        ;
        assert(left.mul_req(right));
        let term = left.mul_spec(right);
        assert(term.value() == left.value() * right.value());
        assert(before.add_req(term));
        assert(before.add_spec(term).value() == before.value() + term.value());
    }
}

/// The identity matrix is a left identity of the matrix product: `1 * a` is
/// always defined and equals `a`.
pub proof fn lemma_mul_identity_left<T: Integral, const M: usize, const N: usize>(
    a: Matrix<T, M, N>,
)
    ensures
        Matrix::<T, M, M>::id_mul_spec().product_req::<T, T, T, N>(a),
        Matrix::<T, M, M>::id_mul_spec().product::<T, T, T, N>(a) == a,
{
    broadcast use Matrix::lemma_tabulate;

    T::lemma_integral();
    let id = Matrix::<T, M, M>::id_mul_spec();
    assert forall|i: int, j: int| 0 <= i < M && 0 <= j < N implies #[trigger] id.dot_req::<T, T, T, N>(
        a,
        i,
        j,
        M as nat,
    ) && id.dot::<T, T, T, N>(a, i, j, M as nat) == a.at(i, j) by {
        lemma_identity_dot_left(a, i, j, M as nat);
        assert(T::from_value(id.dot::<T, T, T, N>(a, i, j, M as nat).value()) == T::from_value(
            a.at(i, j).value(),
        ));
    }
    assert forall|i: int, j: int| 0 <= i < M && 0 <= j < N implies #[trigger] id.product::<T, T, T, N>(a).at(
        i,
        j,
    ) == a.at(i, j) by {
        assert(id.dot_req::<T, T, T, N>(a, i, j, M as nat));
    }
    id.product::<T, T, T, N>(a).lemma_ext_equal(a);
}

/// The identity matrix is a right identity of the matrix product: `a * 1` is
/// always defined and equals `a`.
pub proof fn lemma_mul_identity_right<T: Integral, const M: usize, const N: usize>(
    a: Matrix<T, M, N>,
)
    ensures
        a.product_req::<T, T, T, N>(Matrix::<T, N, N>::id_mul_spec()),
        a.product::<T, T, T, N>(Matrix::<T, N, N>::id_mul_spec()) == a,
{
    broadcast use Matrix::lemma_tabulate;

    T::lemma_integral();
    let id = Matrix::<T, N, N>::id_mul_spec();
    assert forall|i: int, j: int| 0 <= i < M && 0 <= j < N implies #[trigger] a.dot_req::<T, T, T, N>(
        id,
        i,
        j,
        N as nat,
    ) && a.dot::<T, T, T, N>(id, i, j, N as nat) == a.at(i, j) by {
        lemma_identity_dot_right(a, i, j, N as nat);
        assert(T::from_value(a.dot::<T, T, T, N>(id, i, j, N as nat).value()) == T::from_value(
            a.at(i, j).value(),
        ));
    }
    assert forall|i: int, j: int| 0 <= i < M && 0 <= j < N implies #[trigger] a.product::<T, T, T, N>(id).at(
        i,
        j,
    ) == a.at(i, j) by {
        assert(a.dot_req::<T, T, T, N>(id, i, j, N as nat));
    }
    a.product::<T, T, T, N>(id).lemma_ext_equal(a);
}


/// Over the integers, the two by two determinant of `[[a, b], [c, d]]` is
/// `a * d - b * c`.
pub proof fn lemma_det2_value<T: Integral>(m: Matrix<T, 2, 2>)
    requires
        m.det_req(),
    ensures
        m.det_spec().value() == m.at(0, 0).value() * m.at(1, 1).value() - m.at(0, 1).value()
            * m.at(1, 0).value(),
{
    T::lemma_integral();
    let ad = m.at(0, 0).mul_spec(m.at(1, 1));
    let bc = m.at(0, 1).mul_spec(m.at(1, 0));
    assert(ad.value() == m.at(0, 0).value() * m.at(1, 1).value());
    assert(bc.value() == m.at(0, 1).value() * m.at(1, 0).value());
    assert(ad.sub_spec(bc).value() == ad.value() - bc.value());
}

/// Over the integers, the three by three determinant of
/// `[[a, b, c], [d, e, f], [g, h, i]]` is
/// `aei + bfg + cdh - ceg - afh - bdi`.
pub proof fn lemma_det3_value<T: Integral>(m: Matrix<T, 3, 3>)
    requires
        m.det_req(),
    ensures
        m.det_spec().value() == m.at(0, 0).value() * m.at(1, 1).value() * m.at(2, 2).value()
            + m.at(0, 1).value() * m.at(1, 2).value() * m.at(2, 0).value() + m.at(0, 2).value()
            * m.at(1, 0).value() * m.at(2, 1).value() - m.at(0, 2).value() * m.at(1, 1).value()
            * m.at(2, 0).value() - m.at(0, 0).value() * m.at(1, 2).value() * m.at(2, 1).value()
            - m.at(0, 1).value() * m.at(1, 0).value() * m.at(2, 2).value(),
{
    T::lemma_integral();
    reveal_with_fuel(Matrix::partial, 6);
    assert(m.term_req(0) && m.term_req(1) && m.term_req(2) && m.term_req(3) && m.term_req(4)
        && m.term_req(5));
    lemma_product3_value(m.at(0, 0), m.at(1, 1), m.at(2, 2));
    lemma_product3_value(m.at(0, 1), m.at(1, 2), m.at(2, 0));
    lemma_product3_value(m.at(0, 2), m.at(1, 0), m.at(2, 1));
    lemma_product3_value(m.at(0, 2), m.at(1, 1), m.at(2, 0));
    lemma_product3_value(m.at(0, 0), m.at(1, 2), m.at(2, 1));
    lemma_product3_value(m.at(0, 1), m.at(1, 0), m.at(2, 2));
    assert(m.partial(1).value() == m.partial(0).value() + m.term(1).value());
    assert(m.partial(2).value() == m.partial(1).value() + m.term(2).value());
    assert(m.partial(3).value() == m.partial(2).value() - m.term(3).value());
    assert(m.partial(4).value() == m.partial(3).value() - m.term(4).value());
    assert(m.partial(5).value() == m.partial(4).value() - m.term(5).value());
}

proof fn lemma_product3_value<T: Integral>(a: T, b: T, c: T)
    requires
        product3_req(a, b, c),
    ensures
        product3(a, b, c).value() == a.value() * b.value() * c.value(),
{
    T::lemma_integral();
    assert(a.mul_spec(b).value() == a.value() * b.value());
    assert(a.mul_spec(b).mul_spec(c).value() == a.mul_spec(b).value() * c.value());
}

/// The determinant of the identity matrix is one, for each shape that has a
/// determinant.
pub proof fn lemma_det_identity<T: Integral>()
    ensures
        Matrix::<T, 1, 1>::id_mul_spec().det_spec() == T::id_mul_spec(),
        Matrix::<T, 2, 2>::id_mul_spec().det_req(),
        Matrix::<T, 2, 2>::id_mul_spec().det_spec() == T::id_mul_spec(),
        Matrix::<T, 3, 3>::id_mul_spec().det_req(),
        Matrix::<T, 3, 3>::id_mul_spec().det_spec() == T::id_mul_spec(),
{
    broadcast use Matrix::lemma_tabulate;

    T::lemma_integral();
    let one = T::id_mul_spec();
    let zero = T::id_add_spec();
    lemma_products_of_identities::<T>();
    let m1 = Matrix::<T, 1, 1>::id_mul_spec();
    assert(m1.at(0, 0) == one);
    let m2 = Matrix::<T, 2, 2>::id_mul_spec();
    assert(m2.at(0, 0) == one && m2.at(1, 1) == one && m2.at(0, 1) == zero && m2.at(1, 0) == zero);
    assert(one.sub_req(zero));
    assert(one.sub_spec(zero).value() == 1);
    assert(T::from_value(one.sub_spec(zero).value()) == T::from_value(one.value()));
    lemma_det3_of_diagonal(Matrix::<T, 3, 3>::id_mul_spec(), one);
}

/// The determinant of the zero matrix is zero, for each shape that has a
/// determinant.
pub proof fn lemma_det_zero<T: Integral>()
    ensures
        Matrix::<T, 1, 1>::id_add_spec().det_spec() == T::id_add_spec(),
        Matrix::<T, 2, 2>::id_add_spec().det_req(),
        Matrix::<T, 2, 2>::id_add_spec().det_spec() == T::id_add_spec(),
        Matrix::<T, 3, 3>::id_add_spec().det_req(),
        Matrix::<T, 3, 3>::id_add_spec().det_spec() == T::id_add_spec(),
{
    broadcast use Matrix::lemma_tabulate;

    T::lemma_integral();
    let zero = T::id_add_spec();
    lemma_products_of_identities::<T>();
    let m1 = Matrix::<T, 1, 1>::id_add_spec();
    assert(m1.at(0, 0) == zero);
    let m2 = Matrix::<T, 2, 2>::id_add_spec();
    assert(m2.at(0, 0) == zero && m2.at(1, 1) == zero && m2.at(0, 1) == zero && m2.at(1, 0)
        == zero);
    assert(zero.sub_req(zero));
    assert(zero.sub_spec(zero).value() == 0);
    assert(T::from_value(zero.sub_spec(zero).value()) == T::from_value(zero.value()));
    lemma_det3_of_diagonal(Matrix::<T, 3, 3>::id_add_spec(), zero);
}

/// Products of zeros and ones are defined and are what they are over the
/// integers.
proof fn lemma_products_of_identities<T: Integral>()
    ensures
        forall|a: T, b: T|
            (a == T::id_add_spec() || a == T::id_mul_spec()) && (b == T::id_add_spec() || b
                == T::id_mul_spec()) ==> #[trigger] a.mul_req(b) && a.mul_spec(b) == (if a
                == T::id_mul_spec() && b == T::id_mul_spec() {
                T::id_mul_spec()
            } else {
                T::id_add_spec()
            }),
{
    T::lemma_integral();
    assert forall|a: T, b: T|
        (a == T::id_add_spec() || a == T::id_mul_spec()) && (b == T::id_add_spec() || b
            == T::id_mul_spec()) implies #[trigger] a.mul_req(b) && a.mul_spec(b) == (if a
        == T::id_mul_spec() && b == T::id_mul_spec() {
        T::id_mul_spec()
    } else {
        T::id_add_spec()
    }) by {
        assert(0 <= a.value() <= 1 && 0 <= b.value() <= 1);
        assert(a.value() * b.value() == (if a.value() == 1 && b.value() == 1 {
            1int
        } else {
            0int
        })) by (nonlinear_arith)
            requires
                0 <= a.value() <= 1,
                0 <= b.value() <= 1,
        ;
        assert(a.mul_req(b));
        let p = a.mul_spec(b);
        assert(p.value() == a.value() * b.value());
        assert(T::from_value(p.value()) == p);
        assert(T::from_value(T::id_mul_spec().value()) == T::id_mul_spec());
        assert(T::from_value(T::id_add_spec().value()) == T::id_add_spec());
    }
}

/// A three by three matrix that holds the same zero or one in every cell of
/// its diagonal, and zero in every other cell, has that entry as determinant.
proof fn lemma_det3_of_diagonal<T: Integral>(m: Matrix<T, 3, 3>, entry: T)
    requires
        entry == T::id_add_spec() || entry == T::id_mul_spec(),
        forall|i: int, j: int|
            0 <= i < 3 && 0 <= j < 3 ==> #[trigger] m.at(i, j) == (if i == j {
                entry
            } else {
                T::id_add_spec()
            }),
    ensures
        m.det_req(),
        m.det_spec() == entry,
{
    T::lemma_integral();
    lemma_products_of_identities::<T>();
    reveal_with_fuel(Matrix::partial, 6);
    let zero = T::id_add_spec();
    assert(m.at(0, 0) == entry && m.at(0, 1) == zero && m.at(0, 2) == zero);
    assert(m.at(1, 0) == zero && m.at(1, 1) == entry && m.at(1, 2) == zero);
    assert(m.at(2, 0) == zero && m.at(2, 1) == zero && m.at(2, 2) == entry);
    assert(m.term_req(0) && m.term(0) == entry);
    assert(m.term_req(1) && m.term(1) == zero);
    assert(m.term_req(2) && m.term(2) == zero);
    assert(m.term_req(3) && m.term(3) == zero);
    assert(m.term_req(4) && m.term(4) == zero);
    assert(m.term_req(5) && m.term(5) == zero);
    assert(m.partial(0).add_req(m.term(1)));
    assert(m.partial(1).value() == entry.value());
    assert(m.partial(1).add_req(m.term(2)));
    assert(m.partial(2).value() == entry.value());
    assert(m.partial(2).sub_req(m.term(3)));
    assert(m.partial(3).value() == entry.value());
    assert(m.partial(3).sub_req(m.term(4)));
    assert(m.partial(4).value() == entry.value());
    assert(m.partial(4).sub_req(m.term(5)));
    assert(m.partial(5).value() == entry.value());
    assert(T::from_value(m.det_spec().value()) == T::from_value(entry.value()));
}

/// The sum of the products of the first `k` entries of row `i` of `a` with
/// those of column `j` of `b`, over the integers.
pub open spec fn dot_sum<T: Integral, const M: usize, const P: usize, const N: usize>(
    a: Matrix<T, M, P>,
    b: Matrix<T, P, N>,
    i: int,
    j: int,
    k: nat,
) -> int
    decreases k,
{
    if k == 0 {
        0
    } else {
        dot_sum(a, b, i, j, (k - 1) as nat) + a.at(i, k - 1).value() * b.at(k - 1, j).value()
    }
}

/// Over the integers, a dot product that is defined is the sum of the
/// products.
pub proof fn lemma_dot_value<T: Integral, const M: usize, const P: usize, const N: usize>(
    a: Matrix<T, M, P>,
    b: Matrix<T, P, N>,
    i: int,
    j: int,
    k: nat,
)
    requires
        a.dot_req::<T, T, T, N>(b, i, j, k),
    ensures
        a.dot::<T, T, T, N>(b, i, j, k).value() == dot_sum(a, b, i, j, k),
    decreases k,
{
    T::lemma_integral();
    if k > 0 {
        lemma_dot_value(a, b, i, j, (k - 1) as nat);
        let term = a.at(i, k - 1).mul_spec(b.at(k - 1, j));
        assert(term.value() == a.at(i, k - 1).value() * b.at(k - 1, j).value());
        assert(a.dot::<T, T, T, N>(b, i, j, (k - 1) as nat).add_spec(term).value() == a.dot::<T, T, T, N>(
            b,
            i,
            j,
            (k - 1) as nat,
        ).value() + term.value());
    }
}

/// A one by one matrix whose entry is zero has no inverse: the precondition of
/// `recip` rules it out.
pub proof fn lemma_singular_has_no_inverse_1x1<T: Integral>(m: Matrix<T, 1, 1>)
    requires
        m.det_spec().value() == 0,
    ensures
        !m.recip_req(),
{
    T::lemma_integral();
    if m.recip_req() {
        assert(T::id_mul_spec().div_req(m.at(0, 0)));
    }
}

/// A two by two matrix whose determinant is zero has no inverse: the
/// precondition of `recip` rules it out.
pub proof fn lemma_singular_has_no_inverse_2x2<T: SignedIntegral>(m: Matrix<T, 2, 2>)
    requires
        m.det_req(),
        m.det_spec().value() == 0,
    ensures
        !m.recip_req(),
{
    T::lemma_integral();
    if m.recip_req() {
        assert(T::id_mul_spec().div_req(m.det_spec()));
    }
}

/// Where the determinant of a two by two matrix is `1` or `-1`, its inverse is
/// exact: the product of the matrix with its inverse, where it is defined, is
/// the identity matrix.
pub proof fn lemma_inverse_of_unit_determinant<T: SignedIntegral>(m: Matrix<T, 2, 2>)
    requires
        m.recip_req(),
        m.det_spec().value() == 1 || m.det_spec().value() == -1,
        m.product_req::<T, T, T, 2>(m.reciprocal()),
    ensures
        m.product::<T, T, T, 2>(m.reciprocal()) == Matrix::<T, 2, 2>::id_mul_spec(),
{
    broadcast use Matrix::lemma_tabulate;

    T::lemma_integral();
    T::lemma_signed();
    lemma_det2_value(m);
    let a = m.at(0, 0).value();
    let b = m.at(0, 1).value();
    let c = m.at(1, 0).value();
    let d = m.at(1, 1).value();
    let det = m.det_spec();
    let factor = det.recip_spec();
    let f = factor.value();
    assert(factor == T::id_mul_spec().div_spec(det));
    assert(f == one_over(det.value()));
    assert(f == det.value());
    let adj = m.adjugate();
    let inv = m.reciprocal();
    assert(adj.at(0, 0).value() == d);
    assert(adj.at(0, 1).value() == -b);
    assert(adj.at(1, 0).value() == -c);
    assert(adj.at(1, 1).value() == a);
    assert(adj.at(0, 0).mul_req(factor) && adj.at(0, 1).mul_req(factor) && adj.at(1, 0).mul_req(
        factor,
    ) && adj.at(1, 1).mul_req(factor));
    assert(inv.at(0, 0).value() == d * f);
    assert(inv.at(0, 1).value() == (-b) * f);
    assert(inv.at(1, 0).value() == (-c) * f);
    assert(inv.at(1, 1).value() == a * f);
    let id = Matrix::<T, 2, 2>::id_mul_spec();
    assert forall|i: int, j: int| 0 <= i < 2 && 0 <= j < 2 implies #[trigger] m.product::<T, T, T, 2>(inv).at(
        i,
        j,
    ) == id.at(i, j) by {
        assert(m.dot_req::<T, T, T, 2>(inv, i, j, 2));
        lemma_dot_value(m, inv, i, j, 2);
        reveal_with_fuel(dot_sum, 3);
        let x = m.at(i, 0).value();
        let y = m.at(i, 1).value();
        let p = inv.at(0, j).value();
        let q = inv.at(1, j).value();
        assert(dot_sum(m, inv, i, j, 2) == x * p + y * q);
        assert(f * (a * d - b * c) == 1) by (nonlinear_arith)
            requires
                f == a * d - b * c,
                f == 1 || f == -1,
        ;
        if i == 0 && j == 0 {
            assert(a * (d * f) + b * ((-c) * f) == f * (a * d - b * c)) by (nonlinear_arith);
        } else if i == 0 && j == 1 {
            assert(a * ((-b) * f) + b * (a * f) == 0) by (nonlinear_arith);
        } else if i == 1 && j == 0 {
            assert(c * (d * f) + d * ((-c) * f) == 0) by (nonlinear_arith);
        } else {
            assert(c * ((-b) * f) + d * (a * f) == f * (a * d - b * c)) by (nonlinear_arith);
        }
        assert(m.dot::<T, T, T, 2>(inv, i, j, 2).value() == id.at(i, j).value());
        assert(T::from_value(m.dot::<T, T, T, 2>(inv, i, j, 2).value()) == T::from_value(id.at(i, j).value()));
    }
    m.product::<T, T, T, 2>(inv).lemma_ext_equal(id);
}

} // verus!
