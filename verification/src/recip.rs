use crate::identity::IdMul;
use vstd::prelude::*;
use vstd::std_specs::ops::DivSpec;

verus! {

/// Reciprocals: the value that multiplies with `self` to the multiplicative
/// identity, as far as the type's own division can express it.
///
/// `recip_req` says on which values the reciprocal is defined; calling `recip`
/// elsewhere is an error that is ruled out statically. `recip_spec` is the
/// result, and `obeys_recip_spec` says whether the type promises to return it.
pub trait Recip: Sized {
    type Output;

    spec fn obeys_recip_spec() -> bool;

    spec fn recip_req(self) -> bool;

    spec fn recip_spec(self) -> Self::Output;

    fn recip(self) -> (r: Self::Output)
        requires
            self.recip_req(),
        ensures
            Self::obeys_recip_spec() ==> r == self.recip_spec(),
    ;
}

/// Every type that can divide its own multiplicative identity has a reciprocal:
/// one divided by the value. For the primitive integers this is defined exactly
/// on the non-zero values and truncates towards zero, so it is `1` for `1`, `-1`
/// for `-1` and `0` for every other non-zero value.
impl<T, U> Recip for T where T: core::ops::Div<T, Output = U> + IdMul {
    type Output = U;

    open spec fn obeys_recip_spec() -> bool {
        T::obeys_div_spec()
    }

    open spec fn recip_req(self) -> bool {
        T::id_mul_spec().div_req(self)
    }

    open spec fn recip_spec(self) -> U {
        T::id_mul_spec().div_spec(self)
    }

    fn recip(self) -> U {
        T::id_mul() / self
    }
}

} // verus!
