//! Integer helpers with their mathematical meaning: powers of two,
//! rounded-up division and saturating products.
use vstd::prelude::*;

verus! {

/// `p` is 1, 2, 4, 8, ...
pub open spec fn is_power_of_two(p: int) -> bool
    decreases p,
{
    if p <= 0 {
        false
    } else if p == 1 {
        true
    } else {
        p % 2 == 0 && is_power_of_two(p / 2)
    }
}

/// The smallest power of two no smaller than `x` (1 for `x <= 1`).
pub open spec fn next_power_of_two(x: int) -> int
    decreases x,
{
    if x <= 1 {
        1
    } else {
        2 * next_power_of_two((x + 1) / 2)
    }
}

/// `x / d` rounded up.
pub open spec fn div_ceil(x: int, d: int) -> int {
    (x + d - 1) / d
}

/// `x * y` capped at `u32::MAX`.
pub open spec fn saturating_mul_u32(x: int, y: int) -> int {
    if x * y > u32::MAX {
        u32::MAX as int
    } else {
        x * y
    }
}

/// `x + y` capped at `u32::MAX`.
pub open spec fn saturating_add_u32(x: int, y: int) -> int {
    if x + y > u32::MAX {
        u32::MAX as int
    } else {
        x + y
    }
}

pub open spec fn max(a: int, b: int) -> int {
    if a >= b {
        a
    } else {
        b
    }
}

pub open spec fn min(a: int, b: int) -> int {
    if a <= b {
        a
    } else {
        b
    }
}

/// `next_power_of_two(x)` is a power of two, at least `x`, and its half is
/// below `x` (unless it is 1).
pub proof fn lemma_next_power_of_two(x: int)
    ensures
        is_power_of_two(next_power_of_two(x)),
        next_power_of_two(x) >= x,
        next_power_of_two(x) == 1 || next_power_of_two(x) / 2 < x,
    decreases x,
{
    if x > 1 {
        let y = (x + 1) / 2;
        lemma_next_power_of_two(y);
        let p = next_power_of_two(y);
        assert((2 * p) / 2 == p);
        assert((2 * p) % 2 == 0);
        if p != 1 {
            assert(p % 2 == 0);
        }
    }
}

/// The three properties of [`lemma_next_power_of_two`] single out
/// `next_power_of_two(x)`.
pub proof fn lemma_next_power_of_two_unique(x: int, p: int)
    requires
        is_power_of_two(p),
        p >= x,
        p == 1 || p / 2 < x,
    ensures
        p == next_power_of_two(x),
    decreases x,
{
    if x <= 1 {
        if p != 1 {
            assert(p % 2 == 0);
            assert(p / 2 >= 1) by {
                assert(is_power_of_two(p / 2));
            }
        }
    } else {
        assert(p != 1);
        assert(p % 2 == 0);
        let q = p / 2;
        let y = (x + 1) / 2;
        assert(is_power_of_two(q));
        assert(q >= y);
        if q != 1 {
            assert(q % 2 == 0);
            assert(q / 2 < y);
        }
        lemma_next_power_of_two_unique(y, q);
    }
}

/// Between two powers of two, the smaller one at most halves the larger.
pub proof fn lemma_power_of_two_lt(p: int, n: int)
    requires
        is_power_of_two(p),
        is_power_of_two(n),
        p < n,
    ensures
        2 * p <= n,
    decreases n,
{
    if p > 1 {
        assert(n > 1);
        lemma_power_of_two_lt(p / 2, n / 2);
    } else {
        assert(n > 1);
        assert(n % 2 == 0);
    }
}

/// `u32::next_power_of_two` for the inputs on which it does not overflow.
pub fn next_power_of_two_u32(x: u32) -> (p: u32)
    requires
        next_power_of_two(x as int) <= u32::MAX,
    ensures
        p as int == next_power_of_two(x as int),
{
    proof {
        lemma_next_power_of_two(x as int);
    }
    let mut p: u32 = 1;
    while p < x
        invariant
            is_power_of_two(p as int),
            p == 1 || p / 2 < x,
            p <= next_power_of_two(x as int),
            is_power_of_two(next_power_of_two(x as int)),
            next_power_of_two(x as int) >= x,
            next_power_of_two(x as int) <= u32::MAX,
        decreases next_power_of_two(x as int) - p,
    {
        proof {
            lemma_power_of_two_lt(p as int, next_power_of_two(x as int));
            assert((2 * p) / 2 == p);
        }
        p = p * 2;
    }
    proof {
        lemma_next_power_of_two_unique(x as int, p as int);
    }
    p
}

/// `u64::next_power_of_two` for the inputs on which it does not overflow.
pub fn next_power_of_two_u64(x: u64) -> (p: u64)
    requires
        next_power_of_two(x as int) <= u64::MAX,
    ensures
        p as int == next_power_of_two(x as int),
{
    proof {
        lemma_next_power_of_two(x as int);
    }
    let mut p: u64 = 1;
    while p < x
        invariant
            is_power_of_two(p as int),
            p == 1 || p / 2 < x,
            p <= next_power_of_two(x as int),
            is_power_of_two(next_power_of_two(x as int)),
            next_power_of_two(x as int) >= x,
            next_power_of_two(x as int) <= u64::MAX,
        decreases next_power_of_two(x as int) - p,
    {
        proof {
            lemma_power_of_two_lt(p as int, next_power_of_two(x as int));
            assert((2 * p) / 2 == p);
        }
        p = p * 2;
    }
    proof {
        lemma_next_power_of_two_unique(x as int, p as int);
    }
    p
}

/// `x.div_ceil(d)` for `u32`.
pub fn div_ceil_u32(x: u32, d: u32) -> (q: u32)
    requires
        d > 0,
    ensures
        q as int == div_ceil(x as int, d as int),
{
    let q = x / d;
    let r = x % d;
    assert(x as int == d as int * q as int + r as int) by (nonlinear_arith)
        requires
            q == x / d,
            r == x % d,
            d > 0,
    ;
    if r == 0 {
        assert(div_ceil(x as int, d as int) == q) by (nonlinear_arith)
            requires
                x as int == d as int * q as int,
                d > 0,
        ;
        q
    } else {
        assert(div_ceil(x as int, d as int) == q + 1) by (nonlinear_arith)
            requires
                x as int == d as int * q as int + r as int,
                0 < r < d,
        ;
        assert(q < u32::MAX) by (nonlinear_arith)
            requires
                x as int == d as int * q as int + r as int,
                0 < r,
                d > 0,
                x <= u32::MAX,
        ;
        q + 1
    }
}

/// `x.saturating_mul(y)` for `u32`.
pub fn saturating_mul_u32_exec(x: u32, y: u32) -> (r: u32)
    ensures
        r as int == saturating_mul_u32(x as int, y as int),
{
    assert((x as u64) * (y as u64) <= u64::MAX) by (nonlinear_arith)
        requires
            x <= u32::MAX,
            y <= u32::MAX,
    ;
    let wide: u64 = (x as u64) * (y as u64);
    if wide > u32::MAX as u64 {
        u32::MAX
    } else {
        wide as u32
    }
}

/// `x.saturating_add(y)` for `u32`.
pub fn saturating_add_u32_exec(x: u32, y: u32) -> (r: u32)
    ensures
        r as int == saturating_add_u32(x as int, y as int),
{
    x.saturating_add(y)
}

} // verus!
