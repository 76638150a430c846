use crate::identity::{IdAdd, IdMul};
use vstd::prelude::*;
use vstd::std_specs::ops::{AddSpec, DivSpec, MulSpec, NegSpec, SubSpec};

verus! {

/// Entry types that are machine integers: every value stands for an integer of
/// a bounded range, and `+`, `-`, `*` and `/` compute what the integers
/// compute, wherever the result lies in the range.
///
/// The algebraic laws of this library are stated for such types. Every
/// primitive integer type that has the identities of [`IdAdd`] and [`IdMul`] is
/// one.
pub trait Integral: Copy + IdAdd + IdMul + std::ops::Add<Output = Self> + std::ops::Sub<
    Output = Self,
> + std::ops::Mul<Output = Self> + std::ops::Div<Output = Self> {
    /// The integer that the value stands for.
    spec fn value(self) -> int;

    /// The value that stands for `v`, for `v` in the range.
    spec fn from_value(v: int) -> Self;

    /// The least integer of the range.
    spec fn lowest() -> int;

    /// The greatest integer of the range.
    spec fn highest() -> int;

    /// An operation is defined exactly where its result lies in the range (a
    /// division: at least not where the divisor is zero), and there its result
    /// stands for the result on the integers.
    proof fn lemma_integral()
        ensures
            Self::lowest() <= 0,
            1 <= Self::highest(),
            Self::obeys_add_spec(),
            Self::obeys_sub_spec(),
            Self::obeys_mul_spec(),
            Self::obeys_div_spec(),
            Self::id_add_spec().value() == 0,
            Self::id_mul_spec().value() == 1,
            forall|a: Self| Self::lowest() <= #[trigger] a.value() <= Self::highest(),
            forall|a: Self| Self::from_value(#[trigger] a.value()) == a,
            forall|v: int|
                Self::lowest() <= v <= Self::highest() ==> (#[trigger] Self::from_value(v)).value()
                    == v,
            forall|a: Self, b: Self| #[trigger]
                a.add_req(b) <==> Self::lowest() <= a.value() + b.value() <= Self::highest(),
            forall|a: Self, b: Self|
                a.add_req(b) ==> (#[trigger] a.add_spec(b)).value() == a.value() + b.value(),
            forall|a: Self, b: Self| #[trigger]
                a.sub_req(b) <==> Self::lowest() <= a.value() - b.value() <= Self::highest(),
            forall|a: Self, b: Self|
                a.sub_req(b) ==> (#[trigger] a.sub_spec(b)).value() == a.value() - b.value(),
            forall|a: Self, b: Self| #[trigger]
                a.mul_req(b) <==> Self::lowest() <= a.value() * b.value() <= Self::highest(),
            forall|a: Self, b: Self|
                a.mul_req(b) ==> (#[trigger] a.mul_spec(b)).value() == a.value() * b.value(),
            forall|a: Self, b: Self| #[trigger] a.div_req(b) ==> b.value() != 0,
            forall|a: Self, b: Self|
                a.value() == 1 && b.value() != 0 ==> #[trigger] a.div_req(b),
            forall|a: Self, b: Self|
                a.value() == 1 && b.value() != 0 ==> (#[trigger] a.div_spec(b)).value() == one_over(
                    b.value(),
                ),
    ;
}

/// One divided by `d`, rounded towards zero: `1` for `1`, `-1` for `-1`, and
/// `0` for every other divisor.
pub open spec fn one_over(d: int) -> int {
    if d == 1 {
        1
    } else if d == -1 {
        -1
    } else {
        0
    }
}

proof fn lemma_one_over(d: int)
    requires
        d != 0,
    ensures
        1int / d == one_over(d),
{
    if d > 1 {
        vstd::arithmetic::div_mod::lemma_basic_div(1int, d);
    } else if d == 1 {
    } else if d == -1 {
    } else {
        assert(1int / d == 0) by (nonlinear_arith)
            requires
                d <= -2,
        ;
    }
}

impl Integral for u8 {
    open spec fn value(self) -> int {
        self as int
    }

    open spec fn from_value(v: int) -> Self {
        v as u8
    }

    open spec fn lowest() -> int {
        u8::MIN as int
    }

    open spec fn highest() -> int {
        u8::MAX as int
    }

    proof fn lemma_integral() {
        assert forall|a: Self, b: Self| a.value() == 1 && b.value() != 0 implies (
        #[trigger] a.div_spec(b)).value() == one_over(b.value()) by {
            lemma_one_over(b.value());
        }
    }
}

impl Integral for u16 {
    open spec fn value(self) -> int {
        self as int
    }

    open spec fn from_value(v: int) -> Self {
        v as u16
    }

    open spec fn lowest() -> int {
        u16::MIN as int
    }

    open spec fn highest() -> int {
        u16::MAX as int
    }

    proof fn lemma_integral() {
        assert forall|a: Self, b: Self| a.value() == 1 && b.value() != 0 implies (
        #[trigger] a.div_spec(b)).value() == one_over(b.value()) by {
            lemma_one_over(b.value());
        }
    }
}

impl Integral for u32 {
    open spec fn value(self) -> int {
        self as int
    }

    open spec fn from_value(v: int) -> Self {
        v as u32
    }

    open spec fn lowest() -> int {
        u32::MIN as int
    }

    open spec fn highest() -> int {
        u32::MAX as int
    }

    proof fn lemma_integral() {
        assert forall|a: Self, b: Self| a.value() == 1 && b.value() != 0 implies (
        #[trigger] a.div_spec(b)).value() == one_over(b.value()) by {
            lemma_one_over(b.value());
        }
    }
}

impl Integral for u64 {
    open spec fn value(self) -> int {
        self as int
    }

    open spec fn from_value(v: int) -> Self {
        v as u64
    }

    open spec fn lowest() -> int {
        u64::MIN as int
    }

    open spec fn highest() -> int {
        u64::MAX as int
    }

    proof fn lemma_integral() {
        assert forall|a: Self, b: Self| a.value() == 1 && b.value() != 0 implies (
        #[trigger] a.div_spec(b)).value() == one_over(b.value()) by {
            lemma_one_over(b.value());
        }
    }
}

impl Integral for usize {
    open spec fn value(self) -> int {
        self as int
    }

    open spec fn from_value(v: int) -> Self {
        v as usize
    }

    open spec fn lowest() -> int {
        usize::MIN as int
    }

    open spec fn highest() -> int {
        usize::MAX as int
    }

    proof fn lemma_integral() {
        assert forall|a: Self, b: Self| a.value() == 1 && b.value() != 0 implies (
        #[trigger] a.div_spec(b)).value() == one_over(b.value()) by {
            lemma_one_over(b.value());
        }
    }
}

impl Integral for i8 {
    open spec fn value(self) -> int {
        self as int
    }

    open spec fn from_value(v: int) -> Self {
        v as i8
    }

    open spec fn lowest() -> int {
        i8::MIN as int
    }

    open spec fn highest() -> int {
        i8::MAX as int
    }

    proof fn lemma_integral() {
        assert forall|a: Self, b: Self| a.value() == 1 && b.value() != 0 implies (
        #[trigger] a.div_spec(b)).value() == one_over(b.value()) by {
            lemma_one_over(b.value());
        }
    }
}

impl Integral for i16 {
    open spec fn value(self) -> int {
        self as int
    }

    open spec fn from_value(v: int) -> Self {
        v as i16
    }

    open spec fn lowest() -> int {
        i16::MIN as int
    }

    open spec fn highest() -> int {
        i16::MAX as int
    }

    proof fn lemma_integral() {
        assert forall|a: Self, b: Self| a.value() == 1 && b.value() != 0 implies (
        #[trigger] a.div_spec(b)).value() == one_over(b.value()) by {
            lemma_one_over(b.value());
        }
    }
}

impl Integral for i32 {
    open spec fn value(self) -> int {
        self as int
    }

    open spec fn from_value(v: int) -> Self {
        v as i32
    }

    open spec fn lowest() -> int {
        i32::MIN as int
    }

    open spec fn highest() -> int {
        i32::MAX as int
    }

    proof fn lemma_integral() {
        assert forall|a: Self, b: Self| a.value() == 1 && b.value() != 0 implies (
        #[trigger] a.div_spec(b)).value() == one_over(b.value()) by {
            lemma_one_over(b.value());
        }
    }
}

impl Integral for i64 {
    open spec fn value(self) -> int {
        self as int
    }

    open spec fn from_value(v: int) -> Self {
        v as i64
    }

    open spec fn lowest() -> int {
        i64::MIN as int
    }

    open spec fn highest() -> int {
        i64::MAX as int
    }

    proof fn lemma_integral() {
        assert forall|a: Self, b: Self| a.value() == 1 && b.value() != 0 implies (
        #[trigger] a.div_spec(b)).value() == one_over(b.value()) by {
            lemma_one_over(b.value());
        }
    }
}

impl Integral for isize {
    open spec fn value(self) -> int {
        self as int
    }

    open spec fn from_value(v: int) -> Self {
        v as isize
    }

    open spec fn lowest() -> int {
        isize::MIN as int
    }

    open spec fn highest() -> int {
        isize::MAX as int
    }

    proof fn lemma_integral() {
        assert forall|a: Self, b: Self| a.value() == 1 && b.value() != 0 implies (
        #[trigger] a.div_spec(b)).value() == one_over(b.value()) by {
            lemma_one_over(b.value());
        }
    }
}

/// Machine integers that have negative values: `-x` is defined exactly where
/// the negated value lies in the range, and there it stands for it.
pub trait SignedIntegral: Integral + std::ops::Neg<Output = Self> {
    proof fn lemma_signed()
        ensures
            Self::obeys_neg_spec(),
            forall|a: Self| #[trigger]
                a.neg_req() <==> Self::lowest() <= -a.value() <= Self::highest(),
            forall|a: Self| a.neg_req() ==> (#[trigger] a.neg_spec()).value() == -a.value(),
    ;
}

impl SignedIntegral for i8 {
    proof fn lemma_signed() {
    }
}

impl SignedIntegral for i16 {
    proof fn lemma_signed() {
    }
}

impl SignedIntegral for i32 {
    proof fn lemma_signed() {
    }
}

impl SignedIntegral for i64 {
    proof fn lemma_signed() {
    }
}

impl SignedIntegral for isize {
    proof fn lemma_signed() {
    }
}

} // verus!
