//! Numeric ground for the geometry kernel.
//!
//! Coordinates are signed integers counting thousandths of a pixel.
//! A bound well below the machine limit keeps every derived quantity
//! (differences, cross products, squared distances) representable.

use vstd::prelude::*;

verus! {

/// Every coordinate handed to the kernel must lie within this bound.
pub const COORD_LIMIT: i64 = 0x2000_0000_0000_0000;

/// Tile-local values may combine two bounded coordinates.
pub const LOCAL_LIMIT: i64 = 0x4000_0000_0000_0000;

/// A coordinate the kernel accepts.
pub open spec fn in_range(c: int) -> bool {
    -COORD_LIMIT <= c <= COORD_LIMIT
}

/// A tile-local value: the difference of two bounded coordinates.
pub open spec fn in_local_range(c: int) -> bool {
    -LOCAL_LIMIT <= c <= LOCAL_LIMIT
}

/// The integer square root, rounded down.
pub open spec fn floor_sqrt(n: nat) -> nat
    decreases n,
{
    if n == 0 {
        0
    } else {
        let r = floor_sqrt((n - 1) as nat);
        if (r + 1) * (r + 1) <= n {
            r + 1
        } else {
            r
        }
    }
}

/// `floor_sqrt` is the greatest integer whose square does not exceed `n`.
pub proof fn lemma_floor_sqrt(n: nat)
    ensures
        floor_sqrt(n) * floor_sqrt(n) <= n,
        n < (floor_sqrt(n) + 1) * (floor_sqrt(n) + 1),
    decreases n,
{
    if n == 0 {
        let f = floor_sqrt(n);
        assert(f == 0);
        assert(n < (f + 1) * (f + 1)) by (nonlinear_arith)
            requires
                n == 0,
                f == 0,
        ;
    } else {
        lemma_floor_sqrt((n - 1) as nat);
        let p = floor_sqrt((n - 1) as nat);
        assert(p * p <= n - 1);
        assert(n - 1 < (p + 1) * (p + 1));
        let r = floor_sqrt(n);
        if (p + 1) * (p + 1) <= n {
            assert(r == p + 1);
            assert(n <= (p + 1) * (p + 1));
            assert(n < (p + 2) * (p + 2)) by (nonlinear_arith)
                requires
                    n <= (p + 1) * (p + 1),
                    p >= 0,
            ;
            assert(r * r <= n);
            assert(n < (r + 1) * (r + 1));
        } else {
            assert(r == p);
            assert(r * r <= n);
            assert(n < (r + 1) * (r + 1));
        }
    }
}

/// Any root bounded the same way is the floor square root.
pub proof fn lemma_floor_sqrt_unique(n: nat, r: nat)
    requires
        r * r <= n,
        n < (r + 1) * (r + 1),
    ensures
        r == floor_sqrt(n),
{
    lemma_floor_sqrt(n);
    let f = floor_sqrt(n);
    if r < f {
        assert((r + 1) * (r + 1) <= f * f) by (nonlinear_arith)
            requires
                r + 1 <= f,
                r >= 0,
        ;
    }
    if f < r {
        assert((f + 1) * (f + 1) <= r * r) by (nonlinear_arith)
            requires
                f + 1 <= r,
                f >= 0,
        ;
    }
}

/// The integer square root of `n`, rounded down.
pub fn isqrt(n: u128) -> (r: u64)
    ensures
        r as nat == floor_sqrt(n as nat),
{
    let mut lo: u128 = 0;
    let mut hi: u128 = 0xFFFF_FFFF_FFFF_FFFF;
    while lo < hi
        invariant
            lo <= hi <= 0xFFFF_FFFF_FFFF_FFFF,
            lo * lo <= n,
            n < (hi + 1) * (hi + 1),
        decreases hi - lo,
    {
        let mid = lo + (hi - lo + 1) / 2;
        proof {
            assert(mid <= 0xFFFF_FFFF_FFFF_FFFF);
            assert(mid * mid <= 0xFFFF_FFFF_FFFF_FFFF_FFFF_FFFF_FFFF_FFFFu128) by (nonlinear_arith)
                requires
                    0 <= mid <= 0xFFFF_FFFF_FFFF_FFFFu128,
            ;
        }
        if mid * mid <= n {
            lo = mid;
        } else {
            hi = mid - 1;
        }
    }
    proof {
        lemma_floor_sqrt_unique(n as nat, lo as nat);
    }
    lo as u64
}

/// Division rounding toward zero, as machine division does.
pub open spec fn trunc_div(a: int, b: int) -> int
    recommends
        b != 0,
{
    if a >= 0 && b > 0 {
        a / b
    } else if a < 0 && b > 0 {
        -((-a) / b)
    } else if a >= 0 && b < 0 {
        -(a / (-b))
    } else {
        (-a) / (-b)
    }
}

/// Halves a value, rounding toward zero.
pub fn half(a: i64) -> (r: i64)
    ensures
        r == trunc_div(a as int, 2),
{
    if a >= 0 {
        a / 2
    } else {
        let m = ((-(a as i128)) as u64) / 2;
        -(m as i64)
    }
}


/// The product of two values bounded by `m` is bounded by `m * m`.
pub proof fn lemma_mul_bounds(a: int, b: int, m: int)
    requires
        -m <= a <= m,
        -m <= b <= m,
        0 <= m,
    ensures
        -(m * m) <= a * b <= m * m,
{
    assert(-(m * m) <= a * b <= m * m) by (nonlinear_arith)
        requires
            -m <= a <= m,
            -m <= b <= m,
            0 <= m,
    ;
}

/// A square is never negative.
pub proof fn lemma_square_nonneg(a: int)
    ensures
        a * a >= 0,
{
    assert(a * a >= 0) by (nonlinear_arith);
}


/// Halving keeps a value within half the original bound.
pub proof fn lemma_half_range(a: int, m: int)
    requires
        0 <= m,
        -(2 * m) <= a <= 2 * m,
    ensures
        -m <= trunc_div(a, 2) <= m,
{
    if a >= 0 {
        vstd::arithmetic::div_mod::lemma_div_is_ordered(a, 2 * m, 2);
        vstd::arithmetic::div_mod::lemma_div_nonincreasing(a, 2);
        assert((2 * m) / 2 == m) by (nonlinear_arith);
    } else {
        vstd::arithmetic::div_mod::lemma_div_is_ordered(-a, 2 * m, 2);
        vstd::arithmetic::div_mod::lemma_div_nonincreasing(-a, 2);
        assert((2 * m) / 2 == m) by (nonlinear_arith);
    }
}

} // verus!
