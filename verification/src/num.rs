//! Fixed-point scale and coordinate limits, with the arithmetic bound lemmas
//! the rest of the crate uses to rule out overflow.

use vstd::arithmetic::div_mod::{lemma_div_is_ordered, lemma_div_multiples_vanish};
use vstd::prelude::*;

verus! {

/// A fixed-point value stores the real value times `SCALE`: the raw `i64` `n`
/// stands for the real number `n / SCALE`.
pub const SCALE: i64 = 65536;

/// Half of `SCALE`: the raw form of the real value one half.
pub const HALF_SCALE: i64 = 32768;

/// Largest raw magnitude allowed for an entry of a transform matrix
/// (real magnitude `2^15`).
pub const MAT_ENTRY_LIMIT: i64 = 0x8000_0000;

/// Largest raw magnitude allowed for a model-space vertex coordinate
/// (real magnitude `2^7`).
pub const VERTEX_LIMIT: i64 = 0x80_0000;

/// Largest raw magnitude a transformed vertex coordinate can reach:
/// `4 * MAT_ENTRY_LIMIT * VERTEX_LIMIT / SCALE`.
pub const COORD_LIMIT: i64 = 0x100_0000_0000;

/// `v` lies in the closed interval `[-limit, limit]`.
pub open spec fn in_range(v: int, limit: int) -> bool {
    -limit <= v <= limit
}

/// A product is bounded by the product of the factors' bounds.
pub proof fn lemma_mul_bound(a: int, b: int, la: int, lb: int)
    by (nonlinear_arith)
    requires
        -la <= a <= la,
        -lb <= b <= lb,
    ensures
        -(la * lb) <= a * b <= la * lb,
{
}

/// Floor division by `SCALE` maps `[-m, m]` into `[-m / SCALE, m / SCALE]`
/// when `SCALE` divides `m`.
pub proof fn lemma_div_scale_bound(s: int, m: int)
    requires
        -m <= s <= m,
        0 <= m,
        m % (SCALE as int) == 0,
    ensures
        -(m / (SCALE as int)) <= s / (SCALE as int) <= m / (SCALE as int),
{
    let d = SCALE as int;
    lemma_div_is_ordered(s, m, d);
    lemma_div_is_ordered(-m, s, d);
    assert(m == (m / d) * d) by {
        vstd::arithmetic::div_mod::lemma_fundamental_div_mod(m, d);
    }
    lemma_div_multiples_vanish(-(m / d), d);
    assert((-(m / d)) * d == -m) by (nonlinear_arith)
        requires
            m == (m / d) * d,
    ;
}

} // verus!
