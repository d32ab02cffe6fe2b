//! Small shared utilities: linear range remapping, degree conversion, and
//! coordinate folds.

use vstd::prelude::*;

use crate::config::{COORD_LIMIT, UNITS_PER_DEGREE};
use crate::num::{div_trunc, div_trunc_i128, lemma_div_trunc_abs, lemma_div_trunc_multiple};
use crate::vector::Vec2D;

verus! {

/// A discrete movement intent relative to the current heading.
#[derive(Clone, Copy, PartialEq, Eq, Structural, Debug)]
pub enum Direction {
    Left,
    Right,
    Forward,
    Backward,
}

/// The linear rescale `new_min + (new_max - new_min) * (v - old_min) /
/// (old_max - old_min)`, with truncating division.
pub open spec fn remap_spec(v: int, old_min: int, old_max: int, new_min: int, new_max: int) -> int {
    new_min + div_trunc((v - old_min) * (new_max - new_min), old_max - old_min)
}

/// Linearly rescales `value` from the range `[old_min, old_max]` into the
/// range from `new_min` to `new_max` (which may run downward).
pub fn remap(value: i64, old_min: i64, old_max: i64, new_min: i64, new_max: i64) -> (r: i64)
    requires
        old_min < old_max,
        old_min <= value <= old_max,
        -COORD_LIMIT <= new_min <= COORD_LIMIT,
        -COORD_LIMIT <= new_max <= COORD_LIMIT,
    ensures
        r == remap_spec(value as int, old_min as int, old_max as int, new_min as int,
            new_max as int),
        new_min <= new_max ==> new_min <= r <= new_max,
        new_max < new_min ==> new_max <= r <= new_min,
{
    proof {
        crate::num::lemma_mul_bounds(value as int - old_min as int,
            new_max as int - new_min as int, 0xffff_ffff_ffff_ffff, 2 * COORD_LIMIT);
    }
    let d = (value as i128 - old_min as i128) * (new_max as i128 - new_min as i128);
    let span = old_max as i128 - old_min as i128;
    proof {
        let dv = value as int - old_min as int;
        let ns = new_max as int - new_min as int;
        let os = old_max as int - old_min as int;
        if ns >= 0 {
            assert(dv * ns >= 0 && dv * ns <= os * ns) by (nonlinear_arith)
                requires 0 <= dv && dv <= os && ns >= 0;
            lemma_div_trunc_abs(dv * ns, os, ns);
        } else {
            assert(dv * ns <= 0 && -(dv * ns) <= os * (-ns)) by (nonlinear_arith)
                requires 0 <= dv && dv <= os && ns < 0;
            lemma_div_trunc_abs(dv * ns, os, -ns);
        }
    }
    let t = div_trunc_i128(d, span);
    new_min + (t as i64)
}

/// `remap` from a zero-based old range to a zero-based new range.
pub fn remap_minz(value: i64, old_max: i64, new_max: i64) -> (r: i64)
    requires
        0 < old_max,
        0 <= value <= old_max,
        0 <= new_max <= COORD_LIMIT,
    ensures
        r == remap_spec(value as int, 0, old_max as int, 0, new_max as int),
        0 <= r <= new_max,
{
    remap(value, 0, old_max, 0, new_max)
}

/// Converts an angle in angle units to whole degrees, truncating.
pub fn to_degs(units: i64) -> (r: i64)
    ensures
        r == div_trunc(units as int, UNITS_PER_DEGREE as int),
{
    let q = div_trunc_i128(units as i128, UNITS_PER_DEGREE as i128);
    proof {
        lemma_div_trunc_abs(units as int, UNITS_PER_DEGREE as int,
            vstd::math::abs(units as int) as int);
    }
    q as i64
}

/// Converts whole degrees to angle units.
pub fn to_rads(degrees: i64) -> (r: i64)
    requires
        -COORD_LIMIT <= degrees <= COORD_LIMIT,
    ensures
        r == degrees * UNITS_PER_DEGREE,
{
    degrees * UNITS_PER_DEGREE
}

/// Converting degrees to angle units and back returns the same degrees:
/// the unit grid subdivides every degree evenly.
pub proof fn lemma_degrees_round_trip(degrees: int)
    ensures
        div_trunc(degrees * UNITS_PER_DEGREE, UNITS_PER_DEGREE as int) == degrees,
{
    lemma_div_trunc_multiple(degrees, UNITS_PER_DEGREE as int);
}

/// The componentwise maxima of a list of points, folded with a sentinel
/// start: an empty list yields `(i64::MAX, i64::MAX)`.
pub fn max_vals_points(points: &Vec<Vec2D>) -> (r: (i64, i64))
    requires
        forall|i: int| 0 <= i < points@.len() ==> #[trigger] points@[i].x < i64::MAX,
        forall|i: int| 0 <= i < points@.len() ==> #[trigger] points@[i].y < i64::MAX,
    ensures
        points@.len() == 0 ==> r == (i64::MAX, i64::MAX),
        points@.len() > 0 ==> exists|i: int| 0 <= i < points@.len() && #[trigger] points@[i].x
            == r.0,
        points@.len() > 0 ==> exists|i: int| 0 <= i < points@.len() && #[trigger] points@[i].y
            == r.1,
        forall|i: int| 0 <= i < points@.len() ==> #[trigger] points@[i].x <= r.0,
        forall|i: int| 0 <= i < points@.len() ==> #[trigger] points@[i].y <= r.1,
{
    let mut acc_x: i64 = i64::MAX;
    let mut acc_y: i64 = i64::MAX;
    let mut k: usize = 0;
    while k < points.len()
        invariant
            0 <= k <= points@.len(),
            forall|i: int| 0 <= i < points@.len() ==> #[trigger] points@[i].x < i64::MAX,
            forall|i: int| 0 <= i < points@.len() ==> #[trigger] points@[i].y < i64::MAX,
            k == 0 ==> acc_x == i64::MAX && acc_y == i64::MAX,
            k > 0 ==> exists|i: int| 0 <= i < k && #[trigger] points@[i].x == acc_x,
            k > 0 ==> exists|i: int| 0 <= i < k && #[trigger] points@[i].y == acc_y,
            forall|i: int| 0 <= i < k ==> #[trigger] points@[i].x <= acc_x,
            forall|i: int| 0 <= i < k ==> #[trigger] points@[i].y <= acc_y,
        decreases points@.len() - k,
    {
        let p = points[k];
        if k == 0 {
            acc_x = p.x;
            acc_y = p.y;
        } else {
            if p.x > acc_x {
                acc_x = p.x;
            }
            if p.y > acc_y {
                acc_y = p.y;
            }
        }
        k = k + 1;
    }
    (acc_x, acc_y)
}

} // verus!
