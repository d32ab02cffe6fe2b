//! 2D fixed-point vectors, rays, and the ray/segment intersection test.
//!
//! Coordinates are `i64` fixed-point values, `SCALE` units to the map unit.
//! The intersection classification is exact: it compares cross products and
//! never divides, so hit/no-hit never depends on rounding.

use vstd::prelude::*;

use crate::config::{COORD_LIMIT, QUARTER_TURN, SCALE};
use crate::num::{
    div_trunc, div_trunc_i128, isqrt, lemma_div_trunc_abs, lemma_mul_bounds,
    lemma_sqrt_floor_monotone, lemma_sqrt_floor_unique, sqrt_floor,
};
use crate::trig::{cos_fp, cos_units, sin_fp, sin_units};
use crate::util::{remap_minz, remap_spec};
use crate::wall::Wall;

verus! {

/// The Euclidean distance between two integer points, rounded down.
pub open spec fn dist_points(ax: int, ay: int, bx: int, by: int) -> int {
    sqrt_floor((((ax - bx) * (ax - bx)) + ((ay - by) * (ay - by))) as nat) as int
}

/// A point or displacement in the 2D map plane, in fixed-point units.
#[derive(Clone, Copy, PartialEq, Eq, Structural, Debug)]
pub struct Vec2D {
    pub x: i64,
    pub y: i64,
}

impl Vec2D {
    /// Coordinates within `k` of zero.
    pub open spec fn bounded(self, k: int) -> bool {
        -k <= self.x <= k && -k <= self.y <= k
    }

    /// Every coordinate the geometry works on stays within `COORD_LIMIT`.
    pub open spec fn in_bounds(self) -> bool {
        self.bounded(COORD_LIMIT as int)
    }

    /// The squared magnitude.
    pub open spec fn sq_mag(self) -> int {
        self.x * self.x + self.y * self.y
    }

    pub fn new(x: i64, y: i64) -> (r: Self)
        ensures
            r.x == x,
            r.y == y,
    {
        Vec2D { x, y }
    }

    /// Builds the fixed-point vector for whole map-unit coordinates.
    pub fn from_map_units(x: i64, y: i64) -> (r: Self)
        requires
            -17179869184 <= x <= 17179869184,
            -17179869184 <= y <= 17179869184,
        ensures
            r.x == x * SCALE,
            r.y == y * SCALE,
            r.in_bounds(),
    {
        Vec2D { x: x * SCALE, y: y * SCALE }
    }

    pub fn x(&self) -> (r: i64)
        ensures
            r == self.x,
    {
        self.x
    }

    pub fn y(&self) -> (r: i64)
        ensures
            r == self.y,
    {
        self.y
    }

    pub fn x_y(&self) -> (r: (i64, i64))
        ensures
            r.0 == self.x,
            r.1 == self.y,
    {
        (self.x, self.y)
    }

    pub fn set_x(&mut self, x: i64)
        ensures
            final(self).x == x,
            final(self).y == old(self).y,
    {
        self.x = x;
    }

    pub fn set_y(&mut self, y: i64)
        ensures
            final(self).x == old(self).x,
            final(self).y == y,
    {
        self.y = y;
    }

    /// Adds a componentwise offset in place.
    pub fn add_x_y_raw(&mut self, x_y: (i64, i64))
        requires
            i64::MIN <= old(self).x + x_y.0 <= i64::MAX,
            i64::MIN <= old(self).y + x_y.1 <= i64::MAX,
        ensures
            final(self).x == old(self).x + x_y.0,
            final(self).y == old(self).y + x_y.1,
    {
        self.x = self.x + x_y.0;
        self.y = self.y + x_y.1;
    }

    /// Adds another vector in place and returns the new value.
    pub fn translate(&mut self, other: &Self) -> (r: Self)
        requires
            i64::MIN <= old(self).x + other.x <= i64::MAX,
            i64::MIN <= old(self).y + other.y <= i64::MAX,
        ensures
            final(self).x == old(self).x + other.x,
            final(self).y == old(self).y + other.y,
            r == *final(self),
    {
        self.x = self.x + other.x;
        self.y = self.y + other.y;
        *self
    }

    pub fn is_origin(&self) -> (r: bool)
        ensures
            r == (self.x == 0 && self.y == 0),
    {
        self.x == 0 && self.y == 0
    }

    /// The unit direction vector of an angle, at fixed-point scale.
    pub fn from_angle(angle: i64) -> (r: Self)
        requires
            i64::MIN < angle,
            angle <= i64::MAX - QUARTER_TURN,
        ensures
            r.x == cos_units(angle as int),
            r.y == sin_units(angle as int),
            r.bounded(SCALE as int),
    {
        Vec2D { x: cos_fp(angle), y: sin_fp(angle) }
    }

    /// The Euclidean distance between two points, rounded down.
    pub open spec fn dist_spec(a: Vec2D, b: Vec2D) -> int {
        dist_points(a.x as int, a.y as int, b.x as int, b.y as int)
    }

    pub fn dist(&self, other: &Self) -> (r: u64)
        requires
            self.bounded(4 * COORD_LIMIT),
            other.bounded(4 * COORD_LIMIT),
        ensures
            r as int == Vec2D::dist_spec(*self, *other),
    {
        let dx = self.x as i128 - other.x as i128;
        let dy = self.y as i128 - other.y as i128;
        proof {
            lemma_mul_bounds(dx as int, dx as int, 8 * COORD_LIMIT, 8 * COORD_LIMIT);
            lemma_mul_bounds(dy as int, dy as int, 8 * COORD_LIMIT, 8 * COORD_LIMIT);
            assert(dx * dx >= 0) by (nonlinear_arith);
            assert(dy * dy >= 0) by (nonlinear_arith);
        }
        let sq = (dx * dx + dy * dy) as u128;
        isqrt(sq)
    }

    /// Rescales the vector so its magnitude is `target`, up to fixed-point
    /// rounding: each component becomes `x * target / |self|`.
    pub fn scale_to(&self, target: i64) -> (r: Self)
        requires
            self.in_bounds(),
            !(self.x == 0 && self.y == 0),
            0 <= target,
        ensures
            r.x == div_trunc(self.x * target, sqrt_floor(self.sq_mag() as nat) as int),
            r.y == div_trunc(self.y * target, sqrt_floor(self.sq_mag() as nat) as int),
            -target <= r.x <= target,
            -target <= r.y <= target,
    {
        let xi = self.x as i128;
        let yi = self.y as i128;
        proof {
            let xv = xi as int;
            let yv = yi as int;
            lemma_mul_bounds(xv, xv, COORD_LIMIT as int, COORD_LIMIT as int);
            lemma_mul_bounds(yv, yv, COORD_LIMIT as int, COORD_LIMIT as int);
            assert(xv * xv >= 0 && yv * yv >= 0) by (nonlinear_arith);
            if self.x != 0 {
                assert(xv * xv >= 1) by (nonlinear_arith)
                    requires xv != 0;
            } else {
                assert(yv * yv >= 1) by (nonlinear_arith)
                    requires yv != 0;
            }
        }
        let sq = (xi * xi + yi * yi) as u128;
        let m = isqrt(sq);
        proof {
            let xv = xi as int;
            let yv = yi as int;
            let ax = vstd::math::abs(xv) as int;
            let ay = vstd::math::abs(yv) as int;
            crate::num::lemma_sqrt_floor_bounds(sq as nat);
            assert(m as int >= 1) by (nonlinear_arith)
                requires
                    (sq as int) < ((m as int) + 1) * ((m as int) + 1) && (sq as int) >= 1 && (
                    m as int) >= 0;
            assert(ax * ax == xv * xv && ay * ay == yv * yv) by (nonlinear_arith)
                requires (ax == xv || ax == -xv) && (ay == yv || ay == -yv);
            assert(xv * xv < (ax + 1) * (ax + 1)) by (nonlinear_arith)
                requires ax * ax == xv * xv && ax >= 0;
            assert(yv * yv < (ay + 1) * (ay + 1)) by (nonlinear_arith)
                requires ay * ay == yv * yv && ay >= 0;
            lemma_sqrt_floor_monotone((xv * xv) as nat, sq as nat);
            lemma_sqrt_floor_unique((xv * xv) as nat, ax as nat);
            lemma_sqrt_floor_monotone((yv * yv) as nat, sq as nat);
            lemma_sqrt_floor_unique((yv * yv) as nat, ay as nat);
            lemma_mul_bounds(xv, target as int, COORD_LIMIT as int, target as int);
            lemma_mul_bounds(yv, target as int, COORD_LIMIT as int, target as int);
        }
        let rx = div_trunc_i128(xi * (target as i128), m as i128);
        let ry = div_trunc_i128(yi * (target as i128), m as i128);
        proof {
            let xv = xi as int;
            let yv = yi as int;
            let ax = vstd::math::abs(xv) as int;
            let ay = vstd::math::abs(yv) as int;
            let mi = m as int;
            if xv >= 0 {
                assert(xv * target >= 0 && xv * target == ax * target && ax * target <= mi
                    * target) by (nonlinear_arith)
                    requires xv >= 0 && ax == xv && 0 <= target && ax <= mi;
            } else {
                assert(xv * target <= 0 && -(xv * target) == ax * target && ax * target <= mi
                    * target) by (nonlinear_arith)
                    requires xv < 0 && ax == -xv && 0 <= target && ax <= mi;
            }
            lemma_div_trunc_abs(xv * target, mi, target as int);
            if yv >= 0 {
                assert(yv * target >= 0 && yv * target == ay * target && ay * target <= mi
                    * target) by (nonlinear_arith)
                    requires yv >= 0 && ay == yv && 0 <= target && ay <= mi;
            } else {
                assert(yv * target <= 0 && -(yv * target) == ay * target && ay * target <= mi
                    * target) by (nonlinear_arith)
                    requires yv < 0 && ay == -yv && 0 <= target && ay <= mi;
            }
            lemma_div_trunc_abs(yv * target, mi, target as int);
        }
        Vec2D { x: rx as i64, y: ry as i64 }
    }

    /// Rescales the vector to unit length at fixed-point scale.
    pub fn normalize(self) -> (r: Self)
        requires
            self.in_bounds(),
            !(self.x == 0 && self.y == 0),
        ensures
            r.x == div_trunc(self.x * SCALE, sqrt_floor(self.sq_mag() as nat) as int),
            r.y == div_trunc(self.y * SCALE, sqrt_floor(self.sq_mag() as nat) as int),
    {
        self.scale_to(SCALE)
    }

    /// One coordinate clipped into `[lo, hi]`, the checks applied in order.
    pub open spec fn clamp_coord(v: int, lo: int, hi: int) -> int {
        let raised = if v < lo {
            lo
        } else {
            v
        };
        if raised > hi {
            hi
        } else {
            raised
        }
    }

    /// Clips the point into the map rectangle, keeping `padding` away from
    /// each border.
    pub fn clamp(&mut self, dims: (u32, u32), padding: i64)
        requires
            0 <= padding <= COORD_LIMIT,
        ensures
            final(self).x == Vec2D::clamp_coord(old(self).x as int, padding as int,
                dims.0 as int * SCALE - padding),
            final(self).y == Vec2D::clamp_coord(old(self).y as int, padding as int,
                dims.1 as int * SCALE - padding),
    {
        let hi_x = dims.0 as i64 * SCALE - padding;
        let hi_y = dims.1 as i64 * SCALE - padding;
        if self.x < padding {
            self.x = padding;
        }
        if self.x > hi_x {
            self.x = hi_x;
        }
        if self.y < padding {
            self.y = padding;
        }
        if self.y > hi_y {
            self.y = hi_y;
        }
    }

    /// Rescales the point componentwise from one zero-based rectangle to
    /// another, both given in map units.
    pub fn remap(&self, old_dims: (u32, u32), new_dims: (u32, u32)) -> (r: Self)
        requires
            old_dims.0 > 0,
            old_dims.1 > 0,
            0 <= self.x <= old_dims.0 as int * SCALE,
            0 <= self.y <= old_dims.1 as int * SCALE,
        ensures
            r.x == remap_spec(self.x as int, 0, old_dims.0 as int * SCALE, 0,
                new_dims.0 as int * SCALE),
            r.y == remap_spec(self.y as int, 0, old_dims.1 as int * SCALE, 0,
                new_dims.1 as int * SCALE),
            0 <= r.x <= new_dims.0 as int * SCALE,
            0 <= r.y <= new_dims.1 as int * SCALE,
    {
        Vec2D {
            x: remap_minz(self.x, old_dims.0 as i64 * SCALE, new_dims.0 as i64 * SCALE),
            y: remap_minz(self.y, old_dims.1 as i64 * SCALE, new_dims.1 as i64 * SCALE),
        }
    }
}

/// A half-line: an origin point and a direction angle in angle units.
#[derive(Clone, Copy, PartialEq, Eq, Structural, Debug)]
pub struct Ray {
    pub origin: Vec2D,
    pub angle: i64,
}

/// The denominator of the line/line solve: the cross product of the wall
/// direction and the ray direction. Zero means parallel.
pub open spec fn ray_den(w: Wall, dx: int, dy: int) -> int {
    (w.a.y - w.b.y) * dx - (w.a.x - w.b.x) * dy
}

/// Numerator of the wall-side parameter `t`: the hit sits at
/// `a + (t_num/den) * (b - a)`.
pub open spec fn wall_t_num(w: Wall, ox: int, oy: int, dx: int, dy: int) -> int {
    (w.a.y - oy) * dx - (w.a.x - ox) * dy
}

/// Numerator of the ray-side parameter: positive multiples of `den` lie
/// forward along the ray.
pub open spec fn ray_u_num(w: Wall, ox: int, oy: int) -> int {
    (w.a.y - w.b.y) * (w.a.x - ox) - (w.a.x - w.b.x) * (w.a.y - oy)
}

/// Whether the ray from `(ox, oy)` along `(dx, dy)` strikes the wall's open
/// interior, strictly forward: `t` in `(0, 1)` and the ray parameter
/// positive, decided exactly on the integers.
pub open spec fn ray_hits_at(w: Wall, ox: int, oy: int, dx: int, dy: int) -> bool {
    let den = ray_den(w, dx, dy);
    let t = wall_t_num(w, ox, oy, dx, dy);
    let u = ray_u_num(w, ox, oy);
    if den > 0 {
        0 < t && t < den && u > 0
    } else if den < 0 {
        den < t && t < 0 && u < 0
    } else {
        false
    }
}

/// The x coordinate of the hit point, rounded toward the wall's first
/// endpoint.
pub open spec fn hit_point_x(w: Wall, ox: int, oy: int, dx: int, dy: int) -> int {
    w.a.x + div_trunc(wall_t_num(w, ox, oy, dx, dy) * (w.b.x - w.a.x), ray_den(w, dx, dy))
}

/// The y coordinate of the hit point.
pub open spec fn hit_point_y(w: Wall, ox: int, oy: int, dx: int, dy: int) -> int {
    w.a.y + div_trunc(wall_t_num(w, ox, oy, dx, dy) * (w.b.y - w.a.y), ray_den(w, dx, dy))
}

impl Ray {
    /// The x component of the unit direction vector.
    pub open spec fn dir_x(self) -> int {
        cos_units(self.angle as int)
    }

    /// The y component of the unit direction vector.
    pub open spec fn dir_y(self) -> int {
        sin_units(self.angle as int)
    }

    /// The origin is in bounds and the angle leaves room for the quarter
    /// turn the cosine adds.
    pub open spec fn wf(self) -> bool {
        self.origin.in_bounds() && i64::MIN < self.angle && self.angle <= i64::MAX - QUARTER_TURN
    }

    /// Whether this ray strikes the wall's open interior strictly forward.
    pub open spec fn hits(self, w: Wall) -> bool {
        ray_hits_at(w, self.origin.x as int, self.origin.y as int, self.dir_x(), self.dir_y())
    }

    /// The hit point's x coordinate.
    pub open spec fn hit_x(self, w: Wall) -> int {
        hit_point_x(w, self.origin.x as int, self.origin.y as int, self.dir_x(), self.dir_y())
    }

    /// The hit point's y coordinate.
    pub open spec fn hit_y(self, w: Wall) -> int {
        hit_point_y(w, self.origin.x as int, self.origin.y as int, self.dir_x(), self.dir_y())
    }

    pub fn new(origin: Vec2D, angle: i64) -> (r: Self)
        ensures
            r.origin == origin,
            r.angle == angle,
    {
        Ray { origin, angle }
    }

    /// Tests this ray against one wall segment. The classification is an
    /// exact sign test; only the returned point is rounded.
    pub fn intersects(&self, wall: &Wall) -> (r: Option<Vec2D>)
        requires
            self.wf(),
            wall.wf(),
        ensures
            r.is_some() == self.hits(*wall),
            r.is_some() ==> r.unwrap().x == self.hit_x(*wall) && r.unwrap().y == self.hit_y(
                *wall) && r.unwrap().bounded(3 * COORD_LIMIT),
    {
        let dx64 = cos_fp(self.angle);
        let dy64 = sin_fp(self.angle);
        let x1 = wall.a.x as i128;
        let y1 = wall.a.y as i128;
        let x2 = wall.b.x as i128;
        let y2 = wall.b.y as i128;
        let x3 = self.origin.x as i128;
        let y3 = self.origin.y as i128;
        let dx = dx64 as i128;
        let dy = dy64 as i128;
        proof {
            lemma_mul_bounds((y1 - y2) as int, dx as int, 2 * COORD_LIMIT, SCALE as int);
            lemma_mul_bounds((x1 - x2) as int, dy as int, 2 * COORD_LIMIT, SCALE as int);
            lemma_mul_bounds((y1 - y3) as int, dx as int, 2 * COORD_LIMIT, SCALE as int);
            lemma_mul_bounds((x1 - x3) as int, dy as int, 2 * COORD_LIMIT, SCALE as int);
            lemma_mul_bounds((y1 - y2) as int, (x1 - x3) as int, 2 * COORD_LIMIT, 2 * COORD_LIMIT);
            lemma_mul_bounds((x1 - x2) as int, (y1 - y3) as int, 2 * COORD_LIMIT, 2 * COORD_LIMIT);
        }
        let den = (y1 - y2) * dx - (x1 - x2) * dy;
        if den == 0 {
            return None;
        }
        let t_num = (y1 - y3) * dx - (x1 - x3) * dy;
        let u_num = (y1 - y2) * (x1 - x3) - (x1 - x2) * (y1 - y3);
        let hit = if den > 0 {
            0 < t_num && t_num < den && u_num > 0
        } else {
            den < t_num && t_num < 0 && u_num < 0
        };
        if hit {
            proof {
                lemma_mul_bounds(t_num as int, (x2 - x1) as int, 4 * COORD_LIMIT * SCALE,
                    2 * COORD_LIMIT);
                lemma_mul_bounds(t_num as int, (y2 - y1) as int, 4 * COORD_LIMIT * SCALE,
                    2 * COORD_LIMIT);
                lemma_hit_offset_bounded(t_num as int, (x2 - x1) as int, den as int,
                    2 * COORD_LIMIT);
                lemma_hit_offset_bounded(t_num as int, (y2 - y1) as int, den as int,
                    2 * COORD_LIMIT);
            }
            let off_x = div_trunc_i128(t_num * (x2 - x1), den);
            let off_y = div_trunc_i128(t_num * (y2 - y1), den);
            Some(Vec2D { x: (x1 + off_x) as i64, y: (y1 + off_y) as i64 })
        } else {
            None
        }
    }
}

/// With `|t_num| < |den|`, the rounded hit offset `t_num * k / den` stays
/// within the segment extent `|k|`.
proof fn lemma_hit_offset_bounded(t_num: int, k: int, den: int, kb: int)
    requires
        den != 0,
        -kb <= k <= kb,
        0 <= kb,
        den > 0 ==> 0 < t_num < den,
        den < 0 ==> den < t_num < 0,
    ensures
        vstd::math::abs(div_trunc(t_num * k, den)) <= kb,
{
    if den > 0 {
        assert(-(den * kb) <= t_num * k <= den * kb) by (nonlinear_arith)
            requires 0 < t_num < den && -kb <= k <= kb && 0 <= kb;
    } else {
        assert(-((-den) * kb) <= t_num * k <= (-den) * kb) by (nonlinear_arith)
            requires den < t_num < 0 && -kb <= k <= kb && 0 <= kb;
    }
    lemma_div_trunc_abs(t_num * k, den, kb);
}

/// Intersection is deterministic: equal rays and walls classify equally.
pub proof fn lemma_intersects_deterministic(r1: Ray, w1: Wall, r2: Ray, w2: Wall)
    requires
        r1 == r2,
        w1 == w2,
    ensures
        r1.hits(w1) == r2.hits(w2),
{
}

/// A ray whose line meets a wall exactly at an endpoint (the wall-side
/// parameter lands on 0 or 1) does not hit it: the interval is open.
pub proof fn lemma_endpoint_excluded(r: Ray, w: Wall)
    requires
        wall_t_num(w, r.origin.x as int, r.origin.y as int, r.dir_x(), r.dir_y()) == 0
            || wall_t_num(w, r.origin.x as int, r.origin.y as int, r.dir_x(), r.dir_y()) == ray_den(
            w, r.dir_x(), r.dir_y()),
    ensures
        !r.hits(w),
{
}

/// A wall parallel to the ray (zero denominator) is never hit; the
/// degeneracy resolves to a background column, not an error.
pub proof fn lemma_parallel_excluded(r: Ray, w: Wall)
    requires
        ray_den(w, r.dir_x(), r.dir_y()) == 0,
    ensures
        !r.hits(w),
{
}

/// A zero-length wall is never hit: both cross products vanish.
pub proof fn lemma_degenerate_wall_excluded(r: Ray, w: Wall)
    requires
        w.a == w.b,
    ensures
        !r.hits(w),
{
    let dy = w.a.y as int - w.b.y as int;
    let dxw = w.a.x as int - w.b.x as int;
    assert(dy * r.dir_x() == 0 && dxw * r.dir_y() == 0) by (nonlinear_arith)
        requires dy == 0 && dxw == 0;
}

/// The reported hit point lies within the wall's bounding box: the
/// wall-side parameter is strictly inside `(0, 1)` and the rounding moves
/// the point only toward the wall's first endpoint.
pub proof fn lemma_hit_within_wall_box(r: Ray, w: Wall)
    requires
        r.hits(w),
    ensures
        vstd::math::min(w.a.x as int, w.b.x as int) <= r.hit_x(w) <= vstd::math::max(
            w.a.x as int, w.b.x as int),
        vstd::math::min(w.a.y as int, w.b.y as int) <= r.hit_y(w) <= vstd::math::max(
            w.a.y as int, w.b.y as int),
{
    let den = ray_den(w, r.dir_x(), r.dir_y());
    let t = wall_t_num(w, r.origin.x as int, r.origin.y as int, r.dir_x(), r.dir_y());
    lemma_offset_within(t, w.b.x as int - w.a.x as int, den);
    lemma_offset_within(t, w.b.y as int - w.a.y as int, den);
}

/// With the wall-side parameter strictly inside `(0, 1)`, the rounded
/// offset `t * k / den` lies between `0` and `k`.
proof fn lemma_offset_within(t: int, k: int, den: int)
    requires
        den > 0 ==> 0 < t < den,
        den < 0 ==> den < t < 0,
        den != 0,
    ensures
        k >= 0 ==> 0 <= div_trunc(t * k, den) <= k,
        k < 0 ==> k <= div_trunc(t * k, den) <= 0,
{
    let p = t * k;
    if den > 0 {
        if k >= 0 {
            assert(0 <= p <= den * k) by (nonlinear_arith)
                requires 0 < t < den && k >= 0 && p == t * k;
            vstd::arithmetic::div_mod::lemma_div_pos_is_pos(p, den);
            vstd::arithmetic::div_mod::lemma_multiply_divide_le(p, den, k);
            assert(div_trunc(p, den) == p / den);
        } else {
            assert(den * (-k) >= -p >= 0) by (nonlinear_arith)
                requires 0 < t < den && k < 0 && p == t * k;
            vstd::arithmetic::div_mod::lemma_div_pos_is_pos(-p, den);
            vstd::arithmetic::div_mod::lemma_multiply_divide_le(-p, den, -k);
            assert(div_trunc(p, den) == -((-p) / den));
        }
    } else {
        if k >= 0 {
            assert(0 <= -p <= (-den) * k) by (nonlinear_arith)
                requires den < t < 0 && k >= 0 && p == t * k;
            vstd::arithmetic::div_mod::lemma_div_pos_is_pos(-p, -den);
            vstd::arithmetic::div_mod::lemma_multiply_divide_le(-p, -den, k);
            assert(div_trunc(p, den) == (-p) / (-den));
        } else {
            assert(0 <= p <= (-den) * (-k)) by (nonlinear_arith)
                requires den < t < 0 && k < 0 && p == t * k;
            vstd::arithmetic::div_mod::lemma_div_pos_is_pos(p, -den);
            vstd::arithmetic::div_mod::lemma_multiply_divide_le(p, -den, -k);
            assert(div_trunc(p, den) == -(p / (-den)));
        }
    }
}

} // verus!
