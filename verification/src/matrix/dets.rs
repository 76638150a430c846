use super::Matrix;
use vstd::prelude::*;
use vstd::std_specs::ops::{AddSpec, MulSpec, SubSpec};

verus! {

/// Whether the product `a * b * c`, taken from the left, is defined.
pub open spec fn product3_req<T>(a: T, b: T, c: T) -> bool where
    T: std::ops::Mul<Output = T>,
 {
    a.mul_req(b) && a.mul_spec(b).mul_req(c)
}

/// The product `a * b * c`, taken from the left.
pub open spec fn product3<T>(a: T, b: T, c: T) -> T where T: std::ops::Mul<Output = T> {
    a.mul_spec(b).mul_spec(c)
}

impl<T> Matrix<T, 1, 1> where T: Copy {
    /// The determinant of a one by one matrix: its only entry.
    pub open spec fn det_spec(self) -> T {
        self.at(0, 0)
    }

    /// The determinant of a one by one matrix.
    pub fn det(&self) -> (r: T)
        ensures
            r == self.det_spec(),
    {
        self[(0, 0)]
    }
}

impl<T> Matrix<T, 2, 2> where T: Copy + std::ops::Mul<Output = T> + std::ops::Sub<Output = T> {
    /// Whether the entry type keeps to the specification of its arithmetic and
    /// every step of the two by two determinant is defined for it (for the
    /// primitive integers: none of them overflows).
    pub open spec fn det_req(self) -> bool {
        &&& T::obeys_mul_spec()
        &&& T::obeys_sub_spec()
        &&& self.at(0, 0).mul_req(self.at(1, 1))
        &&& self.at(0, 1).mul_req(self.at(1, 0))
        &&& self.at(0, 0).mul_spec(self.at(1, 1)).sub_req(self.at(0, 1).mul_spec(self.at(1, 0)))
    }

    /// The determinant `a * d - b * c` of `[[a, b], [c, d]]`.
    pub open spec fn det_spec(self) -> T {
        self.at(0, 0).mul_spec(self.at(1, 1)).sub_spec(self.at(0, 1).mul_spec(self.at(1, 0)))
    }

    /// The determinant of a two by two matrix.
    pub fn det(&self) -> (r: T)
        requires
            self.det_req(),
        ensures
            r == self.det_spec(),
    {
        self[(0, 0)] * self[(1, 1)] - self[(0, 1)] * self[(1, 0)]
    }
}

impl<T> Matrix<T, 3, 3> where
    T: Copy + std::ops::Add<Output = T> + std::ops::Sub<Output = T> + std::ops::Mul<Output = T>,
 {
    /// Product `k` of the six products of the expansion along the top row.
    pub open spec fn term(self, k: int) -> T {
        if k == 0 {
            product3(self.at(0, 0), self.at(1, 1), self.at(2, 2))
        } else if k == 1 {
            product3(self.at(0, 1), self.at(1, 2), self.at(2, 0))
        } else if k == 2 {
            product3(self.at(0, 2), self.at(1, 0), self.at(2, 1))
        } else if k == 3 {
            product3(self.at(0, 2), self.at(1, 1), self.at(2, 0))
        } else if k == 4 {
            product3(self.at(0, 0), self.at(1, 2), self.at(2, 1))
        } else {
            product3(self.at(0, 1), self.at(1, 0), self.at(2, 2))
        }
    }

    /// Whether product `k` of the expansion is defined.
    pub open spec fn term_req(self, k: int) -> bool {
        if k == 0 {
            product3_req(self.at(0, 0), self.at(1, 1), self.at(2, 2))
        } else if k == 1 {
            product3_req(self.at(0, 1), self.at(1, 2), self.at(2, 0))
        } else if k == 2 {
            product3_req(self.at(0, 2), self.at(1, 0), self.at(2, 1))
        } else if k == 3 {
            product3_req(self.at(0, 2), self.at(1, 1), self.at(2, 0))
        } else if k == 4 {
            product3_req(self.at(0, 0), self.at(1, 2), self.at(2, 1))
        } else {
            product3_req(self.at(0, 1), self.at(1, 0), self.at(2, 2))
        }
    }

    /// The expansion summed up to and including product `k`: the first three
    /// products are added, the last three subtracted, from left to right.
    pub open spec fn partial(self, k: int) -> T
        decreases k,
    {
        if k <= 0 {
            self.term(0)
        } else if k <= 2 {
            self.partial(k - 1).add_spec(self.term(k))
        } else {
            self.partial(k - 1).sub_spec(self.term(k))
        }
    }

    /// Whether the entry type keeps to the specification of its arithmetic and
    /// every step of the three by three determinant is defined for it (for the
    /// primitive integers: none of them overflows).
    pub open spec fn det_req(self) -> bool {
        &&& T::obeys_add_spec()
        &&& T::obeys_sub_spec()
        &&& T::obeys_mul_spec()
        &&& forall|k: int| 0 <= k < 6 ==> #[trigger] self.term_req(k)
        &&& self.partial(0).add_req(self.term(1))
        &&& self.partial(1).add_req(self.term(2))
        &&& self.partial(2).sub_req(self.term(3))
        &&& self.partial(3).sub_req(self.term(4))
        &&& self.partial(4).sub_req(self.term(5))
    }

    /// The determinant by cofactor expansion along the top row:
    /// `aei + bfg + cdh - ceg - afh - bdi` for `[[a, b, c], [d, e, f], [g, h, i]]`.
    pub open spec fn det_spec(self) -> T {
        self.partial(5)
    }

    /// The determinant of a three by three matrix.
    pub fn det(&self) -> (r: T)
        requires
            self.det_req(),
        ensures
            r == self.det_spec(),
    {
        proof {
            reveal_with_fuel(Matrix::partial, 6);
            assert(self.term_req(0) && self.term_req(1) && self.term_req(2) && self.term_req(3)
                && self.term_req(4) && self.term_req(5));
        }
        self[(0, 0)] * self[(1, 1)] * self[(2, 2)] + self[(0, 1)] * self[(1, 2)] * self[(2, 0)]
            + self[(0, 2)] * self[(1, 0)] * self[(2, 1)] - self[(0, 2)] * self[(1, 1)] * self[(
            2,
            0,
        )] - self[(0, 0)] * self[(1, 2)] * self[(2, 1)] - self[(0, 1)] * self[(1, 0)] * self[(
            2,
            2,
        )]
    }
}

} // verus!
