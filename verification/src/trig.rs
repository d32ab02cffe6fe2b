//! Fixed-point trigonometry over binary angle units.
//!
//! An angle is an integer number of units, `FULL_TURN` of them to the turn.
//! The sine is the classical rational approximation
//! `16 p / (5 H^2 - 4 p)` with `p = y (H - y)` on the half turn `[0, H]`,
//! extended over the whole circle by odd symmetry. It is exact at every
//! multiple of a quarter turn, which several laws below rely on.

use vstd::prelude::*;

use crate::config::{FULL_TURN, HALF_TURN, MIN_UNIT_COMPONENT, QUARTER_TURN, SCALE};
use crate::num::mod_euclid;

verus! {

use vstd::arithmetic::div_mod::{
    lemma_add_mod_noop,
    lemma_div_is_ordered,
    lemma_div_multiples_vanish,
    lemma_div_pos_is_pos,
    lemma_mod_division_less_than_divisor,
    lemma_mod_sub_multiples_vanish,
    lemma_multiply_divide_le,
    lemma_multiply_divide_lt,
    lemma_small_mod,
};

/// The chord product `y * (HALF_TURN - y)` that the sine approximation
/// depends on.
pub open spec fn chord(y: int) -> int {
    y * (HALF_TURN - y)
}

/// The rational sine approximation on `[0, HALF_TURN]`, scaled by `SCALE`.
pub open spec fn sin_arch(y: int) -> int {
    16 * chord(y) * SCALE / (5 * HALF_TURN * HALF_TURN - 4 * chord(y))
}

/// Sine of an angle in angle units, scaled by `SCALE`.
pub open spec fn sin_units(a: int) -> int {
    let r = a % (FULL_TURN as int);
    if r <= HALF_TURN {
        sin_arch(r)
    } else {
        -sin_arch(r - HALF_TURN)
    }
}

/// Cosine of an angle in angle units, scaled by `SCALE`.
pub open spec fn cos_units(a: int) -> int {
    sin_units(a + QUARTER_TURN)
}

/// On `[0, HALF_TURN]` the chord product stays within `[0, Q^2]`, reaching
/// `Q^2` only at the quarter turn.
proof fn lemma_chord_bounds(y: int)
    requires
        0 <= y <= HALF_TURN,
    ensures
        0 <= chord(y),
        chord(y) <= QUARTER_TURN * QUARTER_TURN,
        y != QUARTER_TURN ==> chord(y) < QUARTER_TURN * QUARTER_TURN,
{
    assert(y * (HALF_TURN - y) == QUARTER_TURN * QUARTER_TURN - (y - QUARTER_TURN) * (y
        - QUARTER_TURN)) by (nonlinear_arith)
        requires (HALF_TURN as int) == 2 * (QUARTER_TURN as int);
    assert((y - QUARTER_TURN) * (y - QUARTER_TURN) >= 0) by (nonlinear_arith);
    assert(y != QUARTER_TURN ==> (y - QUARTER_TURN) * (y - QUARTER_TURN) > 0) by (nonlinear_arith);
    assert(y * (HALF_TURN - y) >= 0) by (nonlinear_arith)
        requires 0 <= y && y <= HALF_TURN;
}

/// The sine approximation stays within `[0, SCALE]` on the half turn.
pub proof fn lemma_sin_arch_bounds(y: int)
    requires
        0 <= y <= HALF_TURN,
    ensures
        0 <= sin_arch(y) <= SCALE,
{
    lemma_chord_bounds(y);
    let p = chord(y);
    let num = 16 * p * SCALE;
    let den = 5 * (HALF_TURN as int) * (HALF_TURN as int) - 4 * p;
    assert(den > 0);
    lemma_div_pos_is_pos(num, den);
    assert(num <= den * SCALE);
    lemma_multiply_divide_le(num, den, SCALE as int);
}

/// Away from the quarter turn the sine approximation is strictly below
/// `SCALE`.
pub proof fn lemma_sin_arch_lt_scale(y: int)
    requires
        0 <= y <= HALF_TURN,
        y != QUARTER_TURN,
    ensures
        sin_arch(y) < SCALE,
{
    lemma_chord_bounds(y);
    let p = chord(y);
    let num = 16 * p * SCALE;
    let den = 5 * (HALF_TURN as int) * (HALF_TURN as int) - 4 * p;
    assert(den > 0);
    assert(num < den * SCALE);
    lemma_multiply_divide_lt(num, den, SCALE as int);
}

/// On the middle of the quadrant, `[Q/3, Q]`, the sine approximation is at
/// least `MIN_UNIT_COMPONENT`.
pub proof fn lemma_sin_arch_ge_min(y: int)
    requires
        1920 <= y <= QUARTER_TURN,
    ensures
        sin_arch(y) >= MIN_UNIT_COMPONENT,
{
    let p = chord(y);
    assert(9 * (y * (HALF_TURN - y)) - 5 * (QUARTER_TURN as int) * (QUARTER_TURN as int) == (3 * y
        - QUARTER_TURN) * (5 * QUARTER_TURN - 3 * y)) by (nonlinear_arith)
        requires (HALF_TURN as int) == 2 * (QUARTER_TURN as int);
    assert((3 * y - QUARTER_TURN) * (5 * QUARTER_TURN - 3 * y) >= 0) by (nonlinear_arith)
        requires 3 * y - QUARTER_TURN >= 0 && 5 * QUARTER_TURN - 3 * y > 0;
    assert(9 * p >= 165888000);
    let num = 16 * p * SCALE;
    let den = 5 * (HALF_TURN as int) * (HALF_TURN as int) - 4 * p;
    lemma_chord_bounds(y);
    assert(den > 0);
    assert(num >= den * MIN_UNIT_COMPONENT);
    lemma_div_multiples_vanish(MIN_UNIT_COMPONENT as int, den);
    lemma_div_is_ordered(den * (MIN_UNIT_COMPONENT as int), num, den);
}

/// The chord product, and so the sine approximation, is symmetric about the
/// quarter turn.
proof fn lemma_chord_shift(x: int)
    ensures
        chord(x + QUARTER_TURN) == chord(QUARTER_TURN - x),
{
    assert((x + QUARTER_TURN) * (HALF_TURN - (x + QUARTER_TURN)) == (QUARTER_TURN - x) * (HALF_TURN
        - (QUARTER_TURN - x))) by (nonlinear_arith)
        requires (HALF_TURN as int) == 2 * (QUARTER_TURN as int);
}

/// The chord product is symmetric about the middle of the half turn.
proof fn lemma_chord_reflect(y: int)
    ensures
        chord(y) == chord(HALF_TURN - y),
{
    assert(y * (HALF_TURN - y) == (HALF_TURN - y) * (HALF_TURN - (HALF_TURN - y)))
        by (nonlinear_arith);
}

/// For offsets within a quarter turn either way, the cosine is the sine
/// approximation reflected about the quarter turn.
pub proof fn lemma_cos_units_small(d: int)
    requires
        -QUARTER_TURN <= d <= QUARTER_TURN,
    ensures
        cos_units(d) == sin_arch(QUARTER_TURN - d),
{
    lemma_small_mod((d + QUARTER_TURN) as nat, FULL_TURN as nat);
    assert((d + QUARTER_TURN) % (FULL_TURN as int) == d + QUARTER_TURN);
    lemma_chord_shift(d);
}

/// Looking straight along an axis, the cosine is exactly one.
pub proof fn lemma_cos_units_center()
    ensures
        cos_units(0) == SCALE,
{
    lemma_cos_units_small(0);
    assert(chord(QUARTER_TURN as int) == 33177600);
    assert(16 * chord(QUARTER_TURN as int) * SCALE == 530841600 * (SCALE as int));
    lemma_div_multiples_vanish(SCALE as int, 530841600);
}

/// Off the axis but within a quarter turn, the cosine is nonnegative and
/// strictly below one.
pub proof fn lemma_cos_units_off_center(d: int)
    requires
        -QUARTER_TURN <= d <= QUARTER_TURN,
        d != 0,
    ensures
        0 <= cos_units(d) < SCALE,
{
    lemma_cos_units_small(d);
    lemma_sin_arch_bounds(QUARTER_TURN - d);
    lemma_sin_arch_lt_scale(QUARTER_TURN - d);
}

/// The sine is bounded by `SCALE` in magnitude everywhere.
pub proof fn lemma_sin_units_bounds(a: int)
    ensures
        -SCALE <= sin_units(a) <= SCALE,
{
    let f = FULL_TURN as int;
    lemma_mod_division_less_than_divisor(a, f);
    let r = a % f;
    if r <= HALF_TURN {
        lemma_sin_arch_bounds(r);
    } else {
        lemma_sin_arch_bounds(r - HALF_TURN);
    }
}

/// The cosine is bounded by `SCALE` in magnitude everywhere.
pub proof fn lemma_cos_units_bounds(a: int)
    ensures
        -SCALE <= cos_units(a) <= SCALE,
{
    lemma_sin_units_bounds(a + QUARTER_TURN);
}

/// Advancing an angle by half a turn negates its sine.
pub proof fn lemma_sin_units_half_turn(a: int)
    ensures
        sin_units(a + HALF_TURN) == -sin_units(a),
{
    let f = FULL_TURN as int;
    let h = HALF_TURN as int;
    lemma_mod_division_less_than_divisor(a, f);
    let r = a % f;
    lemma_add_mod_noop(a, h, f);
    lemma_small_mod(h as nat, f as nat);
    assert((a + h) % f == (r + h) % f);
    if r + h < f {
        lemma_small_mod((r + h) as nat, f as nat);
        assert((a + h) % f == r + h);
        if r == 0 {
            assert(chord(0) == 0);
            assert(chord(h) == h * 0);
            assert(h * 0 == 0) by (nonlinear_arith);
            assert(sin_arch(0) == 0) by {
                vstd::arithmetic::div_mod::lemma_div_of0(5 * h * h - 4 * chord(0));
            }
            assert(sin_arch(h) == 0) by {
                vstd::arithmetic::div_mod::lemma_div_of0(5 * h * h - 4 * chord(h));
            }
        }
    } else {
        lemma_mod_sub_multiples_vanish(r + h, f);
        assert((r + h - f) % f == (r + h) % f);
        lemma_small_mod((r + h - f) as nat, f as nat);
        assert((a + h) % f == r - h);
        if r == h {
            assert(chord(0) == 0);
            assert(chord(h) == h * 0);
            assert(h * 0 == 0) by (nonlinear_arith);
            assert(sin_arch(0) == 0) by {
                vstd::arithmetic::div_mod::lemma_div_of0(5 * h * h - 4 * chord(0));
            }
            assert(sin_arch(h) == 0) by {
                vstd::arithmetic::div_mod::lemma_div_of0(5 * h * h - 4 * chord(h));
            }
        }
    }
}

/// Either the sine or the cosine of any angle has magnitude at least
/// `MIN_UNIT_COMPONENT`, so a unit direction vector is never short.
pub proof fn lemma_unit_sq_mag_lower(a: int)
    ensures
        sin_units(a) * sin_units(a) + cos_units(a) * cos_units(a) >= MIN_UNIT_COMPONENT
            * MIN_UNIT_COMPONENT,
{
    let f = FULL_TURN as int;
    let h = HALF_TURN as int;
    let q = QUARTER_TURN as int;
    lemma_mod_division_less_than_divisor(a, f);
    let r = a % f;
    lemma_add_mod_noop(a, q, f);
    lemma_small_mod(q as nat, f as nat);
    assert((a + q) % f == (r + q) % f);
    let s = sin_units(a);
    let c = cos_units(a);
    if r <= q {
        lemma_small_mod((r + q) as nat, f as nat);
        lemma_chord_shift(r);
        assert(s == sin_arch(r) && c == sin_arch(q - r));
        lemma_pair_lower(r, s, c);
        assert(s * s + c * c >= MIN_UNIT_COMPONENT * MIN_UNIT_COMPONENT);
    } else if r <= h {
        lemma_small_mod((r + q) as nat, f as nat);
        lemma_chord_reflect(r);
        assert(s == sin_arch(h - r));
        assert(c == -sin_arch(r - q));
        assert(q - (h - r) == r - q);
        lemma_pair_lower(h - r, s, -c);
        assert((-c) * (-c) == c * c) by (nonlinear_arith);
        assert(s * s + c * c >= MIN_UNIT_COMPONENT * MIN_UNIT_COMPONENT);
    } else if r + q < f {
        lemma_small_mod((r + q) as nat, f as nat);
        assert(s == -sin_arch(r - h));
        lemma_chord_reflect(r - q);
        assert(c == -sin_arch(r - q) && sin_arch(r - q) == sin_arch(h - (r - q)));
        assert(q - (r - h) == h - (r - q));
        lemma_pair_lower(r - h, -s, -c);
        assert((-s) * (-s) == s * s) by (nonlinear_arith);
        assert((-c) * (-c) == c * c) by (nonlinear_arith);
        assert(s * s + c * c >= MIN_UNIT_COMPONENT * MIN_UNIT_COMPONENT);
    } else {
        lemma_mod_sub_multiples_vanish(r + q, f);
        lemma_small_mod((r + q - f) as nat, f as nat);
        assert((a + q) % f == r + q - f);
        lemma_chord_reflect(r - h);
        assert(s == -sin_arch(r - h) && sin_arch(r - h) == sin_arch(h - (r - h)));
        assert(c == sin_arch(r + q - f));
        assert(q - (f - r) == r + q - f);
        lemma_pair_lower(f - r, -s, c);
        assert((-s) * (-s) == s * s) by (nonlinear_arith);
        assert(s * s + c * c >= MIN_UNIT_COMPONENT * MIN_UNIT_COMPONENT);
    }
}

/// Helper: if `|s| == sin_arch(u)` and `|c| == sin_arch(Q - u)` for some
/// `u` in the quadrant, the squares sum to at least the minimum.
proof fn lemma_pair_lower(u: int, s: int, c: int)
    requires
        0 <= u <= QUARTER_TURN,
        s == sin_arch(u),
        c == sin_arch(QUARTER_TURN - u),
    ensures
        s * s + c * c >= MIN_UNIT_COMPONENT * MIN_UNIT_COMPONENT,
{
    lemma_sin_arch_bounds(u);
    lemma_sin_arch_bounds(QUARTER_TURN - u);
    if u >= 1920 {
        lemma_sin_arch_ge_min(u);
        assert(s * s + c * c >= MIN_UNIT_COMPONENT * MIN_UNIT_COMPONENT) by (nonlinear_arith)
            requires s >= MIN_UNIT_COMPONENT && c >= 0 && MIN_UNIT_COMPONENT == 512i64;
    } else {
        lemma_sin_arch_ge_min(QUARTER_TURN - u);
        assert(s * s + c * c >= MIN_UNIT_COMPONENT * MIN_UNIT_COMPONENT) by (nonlinear_arith)
            requires c >= MIN_UNIT_COMPONENT && s >= 0 && MIN_UNIT_COMPONENT == 512i64;
    }
}

/// The sine approximation on the half turn, computed exactly.
fn sin_arch_fp(y: i64) -> (r: i64)
    requires
        0 <= y <= HALF_TURN,
    ensures
        r == sin_arch(y as int),
        0 <= r <= SCALE,
{
    proof {
        lemma_chord_bounds(y as int);
        lemma_sin_arch_bounds(y as int);
    }
    let p = y * (HALF_TURN - y);
    let num = 16 * p * SCALE;
    let den = 5 * HALF_TURN * HALF_TURN - 4 * p;
    num / den
}

/// Sine of an angle in angle units, scaled by `SCALE`.
pub fn sin_fp(a: i64) -> (r: i64)
    requires
        a > i64::MIN,
    ensures
        r == sin_units(a as int),
        -SCALE <= r <= SCALE,
{
    let m = mod_euclid(a, FULL_TURN);
    proof {
        lemma_mod_division_less_than_divisor(a as int, FULL_TURN as int);
    }
    if m <= HALF_TURN {
        sin_arch_fp(m)
    } else {
        -sin_arch_fp(m - HALF_TURN)
    }
}

/// Cosine of an angle in angle units, scaled by `SCALE`.
pub fn cos_fp(a: i64) -> (r: i64)
    requires
        a > i64::MIN,
        a <= i64::MAX - QUARTER_TURN,
    ensures
        r == cos_units(a as int),
        -SCALE <= r <= SCALE,
{
    sin_fp(a + QUARTER_TURN)
}

} // verus!
