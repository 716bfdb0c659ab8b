//! Fixed-point arithmetic shared by the pricing code.
//!
//! Prices, quantities, increments and coefficients are held as `i64` counts
//! of `1 / SCALE` of a whole unit.
//!
//! So the supported pairs are those whose tick and step sizes are multiples
//! of 0.0001 and whose prices and quantities stay below 429,496.7296 units.
//! A decimal string finer than 0.0001 is refused when it is read, never
//! rounded: a pair with a finer tick or step size fails to decode at startup,
//! and a finer book price is reported as an unreadable update.
use vstd::prelude::*;

verus! {

/// Fixed-point units in one whole unit.
pub const SCALE: i64 = 10_000;

/// Largest magnitude of a stored price or quantity, in fixed-point units.
pub const VALUE_BOUND: i64 = 4_294_967_296;

/// Largest acceleration coefficient accepted by the increment model.
pub const ACCEL_BOUND: i64 = 16_777_216;

/// A value the state store may hold.
pub open spec fn in_bound(x: int) -> bool {
    -VALUE_BOUND <= x <= VALUE_BOUND
}

/// A non-negative value the state store may hold.
pub open spec fn in_nonneg_bound(x: int) -> bool {
    0 <= x <= VALUE_BOUND
}

/// Rounds a non-negative `x` to the nearest multiple of `m`, halves upward.
pub open spec fn round_to_multiple_spec(x: int, m: int) -> int {
    ((x + m / 2) / m) * m
}

pub fn round_to_multiple(x: i128, m: i128) -> (r: i128)
    requires
        0 <= x <= 0x1_0000_0000_0000_0000_0000_0000_0000,
        0 < m <= SCALE,
    ensures
        r == round_to_multiple_spec(x as int, m as int),
{
    let q: i128 = (x + m / 2) / m;
    proof {
        let (xi, mi, qi) = (x as int, m as int, q as int);
        assert(qi * mi <= xi + mi / 2) by (nonlinear_arith)
            requires qi == (xi + mi / 2) / mi, mi > 0, xi >= 0;
        assert(qi * mi >= 0) by (nonlinear_arith)
            requires qi >= 0, mi > 0;
    }
    q * m
}

/// The largest `r` whose square does not exceed `n`.
pub open spec fn floor_sqrt(n: int) -> int
    decreases n,
{
    if n <= 0 {
        0
    } else {
        let r = floor_sqrt(n - 1);
        if (r + 1) * (r + 1) <= n { r + 1 } else { r }
    }
}

pub proof fn lemma_floor_sqrt_bounds(n: int)
    requires
        n >= 0,
    ensures
        floor_sqrt(n) >= 0,
        floor_sqrt(n) * floor_sqrt(n) <= n,
        n < (floor_sqrt(n) + 1) * (floor_sqrt(n) + 1),
    decreases n,
{
    if n > 0 {
        lemma_floor_sqrt_bounds(n - 1);
        let r = floor_sqrt(n - 1);
        if (r + 1) * (r + 1) <= n {
            assert(n < (r + 2) * (r + 2)) by (nonlinear_arith)
                requires n - 1 < (r + 1) * (r + 1), r >= 0;
        }
    }
}

proof fn lemma_square_monotone(a: int, b: int)
    requires
        0 <= a <= b,
    ensures
        a * a <= b * b,
{
    assert(a * a <= b * b) by (nonlinear_arith)
        requires 0 <= a <= b;
}

/// Any `r >= 0` with `r * r <= n < (r + 1) * (r + 1)` is the floor square root.
pub proof fn lemma_floor_sqrt_unique(n: int, r: int)
    requires
        n >= 0,
        r >= 0,
        r * r <= n,
        n < (r + 1) * (r + 1),
    ensures
        r == floor_sqrt(n),
{
    lemma_floor_sqrt_bounds(n);
    let s = floor_sqrt(n);
    if r < s {
        lemma_square_monotone(r + 1, s);
    } else if s < r {
        lemma_square_monotone(s + 1, r);
    }
}

/// Floor square root by bisection.
pub fn isqrt(n: u128) -> (r: u128)
    requires
        n < 0x1000_0000_0000_0000_0000_0000_0000_0000,
    ensures
        r == floor_sqrt(n as int),
{
    let mut lo: u128 = 0;
    let mut hi: u128 = 0x8000_0000_0000_0000;
    assert(n < hi * hi) by (nonlinear_arith)
        requires hi == 0x8000_0000_0000_0000u128, n < 0x1000_0000_0000_0000_0000_0000_0000_0000u128;
    while lo + 1 < hi
        invariant
            lo < hi <= 0x8000_0000_0000_0000,
            lo * lo <= n,
            n < hi * hi,
        decreases hi - lo,
    {
        let mid: u128 = lo + (hi - lo) / 2;
        assert(mid * mid <= 0x8000_0000_0000_0000u128 * 0x8000_0000_0000_0000u128) by (nonlinear_arith)
            requires mid <= 0x8000_0000_0000_0000u128;
        if mid * mid <= n {
            lo = mid;
        } else {
            hi = mid;
        }
    }
    proof {
        lemma_floor_sqrt_unique(n as int, lo as int);
    }
    lo
}

} // verus!
