use vstd::prelude::*;

verus! {

/// A type with an additive identity, its "zero".
///
/// `id_add_spec` names the value in specifications; `id_add` produces it at run
/// time.
pub trait IdAdd: Sized {
    spec fn id_add_spec() -> Self;

    fn id_add() -> (r: Self)
        ensures
            r == Self::id_add_spec(),
    ;
}

/// A type with a multiplicative identity, its "one".
///
/// `id_mul_spec` names the value in specifications; `id_mul` produces it at run
/// time.
pub trait IdMul: Sized {
    spec fn id_mul_spec() -> Self;

    fn id_mul() -> (r: Self)
        ensures
            r == Self::id_mul_spec(),
    ;
}

impl IdAdd for u8 {
    open spec fn id_add_spec() -> Self {
        0
    }

    fn id_add() -> Self {
        0
    }
}

impl IdMul for u8 {
    open spec fn id_mul_spec() -> Self {
        1
    }

    fn id_mul() -> Self {
        1
    }
}

impl IdAdd for u16 {
    open spec fn id_add_spec() -> Self {
        0
    }

    fn id_add() -> Self {
        0
    }
}

impl IdMul for u16 {
    open spec fn id_mul_spec() -> Self {
        1
    }

    fn id_mul() -> Self {
        1
    }
}

impl IdAdd for u32 {
    open spec fn id_add_spec() -> Self {
        0
    }

    fn id_add() -> Self {
        0
    }
}

impl IdMul for u32 {
    open spec fn id_mul_spec() -> Self {
        1
    }

    fn id_mul() -> Self {
        1
    }
}

impl IdAdd for u64 {
    open spec fn id_add_spec() -> Self {
        0
    }

    fn id_add() -> Self {
        0
    }
}

impl IdMul for u64 {
    open spec fn id_mul_spec() -> Self {
        1
    }

    fn id_mul() -> Self {
        1
    }
}

impl IdAdd for usize {
    open spec fn id_add_spec() -> Self {
        0
    }

    fn id_add() -> Self {
        0
    }
}

impl IdMul for usize {
    open spec fn id_mul_spec() -> Self {
        1
    }

    fn id_mul() -> Self {
        1
    }
}

impl IdAdd for i8 {
    open spec fn id_add_spec() -> Self {
        0
    }

    fn id_add() -> Self {
        0
    }
}

impl IdMul for i8 {
    open spec fn id_mul_spec() -> Self {
        1
    }

    fn id_mul() -> Self {
        1
    }
}

impl IdAdd for i16 {
    open spec fn id_add_spec() -> Self {
        0
    }

    fn id_add() -> Self {
        0
    }
}

impl IdMul for i16 {
    open spec fn id_mul_spec() -> Self {
        1
    }

    fn id_mul() -> Self {
        1
    }
}

impl IdAdd for i32 {
    open spec fn id_add_spec() -> Self {
        0
    }

    fn id_add() -> Self {
        0
    }
}

impl IdMul for i32 {
    open spec fn id_mul_spec() -> Self {
        1
    }

    fn id_mul() -> Self {
        1
    }
}

impl IdAdd for i64 {
    open spec fn id_add_spec() -> Self {
        0
    }

    fn id_add() -> Self {
        0
    }
}

impl IdMul for i64 {
    open spec fn id_mul_spec() -> Self {
        1
    }

    fn id_mul() -> Self {
        1
    }
}

impl IdAdd for isize {
    open spec fn id_add_spec() -> Self {
        0
    }

    fn id_add() -> Self {
        0
    }
}

impl IdMul for isize {
    open spec fn id_mul_spec() -> Self {
        1
    }

    fn id_mul() -> Self {
        1
    }
}

} // verus!
