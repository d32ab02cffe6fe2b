//! Verified arithmetic helpers for the fixed-point geometry: truncating
//! division, Euclidean remainder, and integer square root.

use vstd::prelude::*;

verus! {

use vstd::arithmetic::div_mod::{
    lemma_fundamental_div_mod,
    lemma_fundamental_div_mod_converse_mod,
};

/// Division rounding toward zero, the semantics of `/` on machine integers.
pub open spec fn div_trunc(a: int, b: int) -> int {
    if (a >= 0) == (b >= 0) {
        (vstd::math::abs(a) / vstd::math::abs(b)) as int
    } else {
        -((vstd::math::abs(a) / vstd::math::abs(b)) as int)
    }
}

/// Truncating division on `i128`, phrased over nonnegative operands so the
/// result is pinned to `div_trunc` exactly.
pub fn div_trunc_i128(a: i128, b: i128) -> (r: i128)
    requires
        b != 0,
        a > i128::MIN,
        b > i128::MIN,
    ensures
        r == div_trunc(a as int, b as int),
{
    if a >= 0 {
        if b > 0 {
            a / b
        } else {
            -(a / (-b))
        }
    } else {
        if b > 0 {
            -((-a) / b)
        } else {
            (-a) / (-b)
        }
    }
}

/// The quotient of a truncating division differs from the exact quotient by
/// less than one, i.e. `m * div_trunc(x, m)` lands within `m` of `x`.
pub proof fn lemma_div_trunc_close(x: int, m: int)
    requires
        m > 0,
    ensures
        vstd::math::abs(m * div_trunc(x, m) - x) < m,
{
    let ax = vstd::math::abs(x) as int;
    lemma_fundamental_div_mod(ax, m);
    lemma_mod_bounds(ax, m);
    let q = ax / m;
    assert(ax == m * q + ax % m);
    if x >= 0 {
        assert(m * div_trunc(x, m) - x == -(ax % m));
    } else {
        assert(div_trunc(x, m) == -q);
        assert(m * (-q) == -(m * q)) by (nonlinear_arith);
        assert(m * div_trunc(x, m) - x == ax % m);
    }
}

proof fn lemma_mod_bounds(x: int, m: int)
    requires
        x >= 0,
        m > 0,
    ensures
        0 <= x % m < m,
{
}

/// Euclidean remainder on `i64`: the result is the mathematical `a % m`,
/// always in `[0, m)`.
pub fn mod_euclid(a: i64, m: i64) -> (r: i64)
    requires
        m > 0,
        a > i64::MIN,
    ensures
        r == (a as int) % (m as int),
{
    if a >= 0 {
        a % m
    } else {
        let s = (-a) % m;
        proof {
            let na = (-a) as int;
            let mi = m as int;
            lemma_fundamental_div_mod(na, mi);
            lemma_mod_bounds(na, mi);
            let q = na / mi;
            assert(a as int == mi * (-q) - (na % mi)) by (nonlinear_arith)
                requires na == mi * q + na % mi && a as int == -na;
            if na % mi == 0 {
                lemma_fundamental_div_mod_converse_mod(a as int, mi, -q, 0);
            } else {
                assert(a as int == mi * (-q - 1) + (mi - na % mi)) by (nonlinear_arith)
                    requires a as int == mi * (-q) - (na % mi);
                lemma_fundamental_div_mod_converse_mod(a as int, mi, -q - 1, mi - na % mi);
            }
        }
        if s == 0 {
            0
        } else {
            m - s
        }
    }
}

/// Bounded values multiply to a bounded product.
pub proof fn lemma_mul_bounds(a: int, b: int, ca: int, cb: int)
    requires
        -ca <= a <= ca,
        -cb <= b <= cb,
    ensures
        -(ca * cb) <= a * b <= ca * cb,
{
    assert(-(ca * cb) <= a * b <= ca * cb) by (nonlinear_arith)
        requires -ca <= a <= ca && -cb <= b <= cb;
}

/// A truncating quotient is no larger in magnitude than any bound the
/// dividend stays under, `|a| <= |b| * bound`.
pub proof fn lemma_div_trunc_abs(a: int, b: int, bound: int)
    requires
        b != 0,
        0 <= bound,
        vstd::math::abs(a) <= vstd::math::abs(b) * bound,
    ensures
        vstd::math::abs(div_trunc(a, b)) <= bound,
{
    let aa = vstd::math::abs(a) as int;
    let ab = vstd::math::abs(b) as int;
    vstd::arithmetic::div_mod::lemma_multiply_divide_le(aa, ab, bound);
    vstd::arithmetic::div_mod::lemma_div_pos_is_pos(aa, ab);
}

/// Dividing an exact multiple truncates to the other factor.
pub proof fn lemma_div_trunc_multiple(a: int, b: int)
    requires
        b > 0,
    ensures
        div_trunc(a * b, b) == a,
{
    if a >= 0 {
        assert(a * b >= 0) by (nonlinear_arith)
            requires a >= 0 && b > 0;
        vstd::arithmetic::div_mod::lemma_div_multiples_vanish(a, b);
        assert(b * a == a * b) by (nonlinear_arith);
    } else {
        assert(a * b < 0) by (nonlinear_arith)
            requires a < 0 && b > 0;
        assert(-(a * b) == (-a) * b) by (nonlinear_arith);
        vstd::arithmetic::div_mod::lemma_div_multiples_vanish(-a, b);
        assert(b * (-a) == (-a) * b) by (nonlinear_arith);
    }
}

/// The integer square root: the greatest `r` with `r * r <= n`.
pub open spec fn sqrt_floor(n: nat) -> nat
    decreases n,
{
    if n == 0 {
        0
    } else {
        let r = sqrt_floor((n - 1) as nat);
        if (r + 1) * (r + 1) <= n {
            r + 1
        } else {
            r
        }
    }
}

pub proof fn lemma_sqrt_floor_bounds(n: nat)
    ensures
        (sqrt_floor(n) * sqrt_floor(n)) as int <= n as int,
        (n as int) < (sqrt_floor(n) as int + 1) * (sqrt_floor(n) as int + 1),
    decreases n,
{
    if n == 0 {
        assert(sqrt_floor(0) == 0);
    } else {
        lemma_sqrt_floor_bounds((n - 1) as nat);
        let r = sqrt_floor((n - 1) as nat);
        if (r + 1) * (r + 1) <= n {
            assert(sqrt_floor(n) == r + 1);
            assert(n == (r + 1) * (r + 1)) by {
                assert(n - 1 < (r + 1) * (r + 1));
            }
            assert((r + 1) * (r + 1) < (r + 2) * (r + 2)) by (nonlinear_arith);
            assert(n < (sqrt_floor(n) + 1) * (sqrt_floor(n) + 1));
        } else {
            assert(sqrt_floor(n) == r);
            assert(r * r <= n - 1);
            assert(n < (sqrt_floor(n) + 1) * (sqrt_floor(n) + 1));
        }
    }
}

pub proof fn lemma_sqrt_floor_unique(n: nat, r: nat)
    requires
        r * r <= n,
        n < (r + 1) * (r + 1),
    ensures
        r == sqrt_floor(n),
{
    lemma_sqrt_floor_bounds(n);
    let s = sqrt_floor(n);
    if r < s {
        assert((r + 1) * (r + 1) <= s * s) by (nonlinear_arith)
            requires r + 1 <= s;
        assert(false);
    }
    if s < r {
        assert((s + 1) * (s + 1) <= r * r) by (nonlinear_arith)
            requires s + 1 <= r;
        assert(false);
    }
}

/// Larger numbers have larger (or equal) square roots.
pub proof fn lemma_sqrt_floor_monotone(a: nat, b: nat)
    requires
        a <= b,
    ensures
        sqrt_floor(a) <= sqrt_floor(b),
{
    lemma_sqrt_floor_bounds(a);
    lemma_sqrt_floor_bounds(b);
    let ra = sqrt_floor(a);
    let rb = sqrt_floor(b);
    if rb < ra {
        assert((rb + 1) * (rb + 1) <= ra * ra) by (nonlinear_arith)
            requires rb + 1 <= ra;
        assert(false);
    }
}

/// One more than the largest possible square root of a `u128`.
pub const SQRT_RANGE: u128 = 0x1_0000_0000_0000_0000;

/// Integer square root by binary search.
pub fn isqrt(n: u128) -> (r: u64)
    ensures
        r as nat == sqrt_floor(n as nat),
{
    let mut lo: u128 = 0;
    let mut hi: u128 = SQRT_RANGE;
    assert((n as int) < (SQRT_RANGE as int) * (SQRT_RANGE as int)) by (nonlinear_arith)
        requires n <= u128::MAX;
    while lo + 1 < hi
        invariant
            lo < hi,
            hi <= SQRT_RANGE,
            (lo as int) * (lo as int) <= n as int,
            (n as int) < (hi as int) * (hi as int),
        decreases hi - lo,
    {
        let mid = lo + (hi - lo) / 2;
        assert((mid as int) * (mid as int) <= u128::MAX) by (nonlinear_arith)
            requires 0 <= (mid as int) <= 0xffff_ffff_ffff_ffffint;
        let sq = mid * mid;
        if sq <= n {
            lo = mid;
        } else {
            hi = mid;
        }
    }
    proof {
        lemma_sqrt_floor_unique(n as nat, lo as nat);
    }
    lo as u64
}

} // verus!
