//! Camera state and the per-frame tick: a movement phase with speed
//! normalization and boundary clamping, then the raycast sweep that fills
//! the column buffer.

use vstd::prelude::*;

use crate::config::{
    FULL_TURN, MOUSE_SENSITIVITY, MOVE_SPEED, PLAYER_WALL_PADDING, QUARTER_TURN, RENDER_DISTANCE,
    RENDER_FOV, SCALE, WALL_ACTUAL_HEIGHT, WINDOW_WIDTH,
};
use crate::map::{candidates_spec, nearest_spec, WorldMap};
use crate::num::{div_trunc, mod_euclid, sqrt_floor};
use crate::render::Rgb;
use crate::trig::{cos_fp, cos_units, lemma_sin_units_half_turn, sin_units};
use crate::util::Direction;
use crate::vector::{Ray, Vec2D};

verus! {

/// Which movement actions are active this tick; the input collaborator
/// fills one of these per frame.
#[derive(Clone, Copy, PartialEq, Eq, Structural, Debug)]
pub struct MoveIntents {
    pub forward: bool,
    pub backward: bool,
    pub left: bool,
    pub right: bool,
}

impl MoveIntents {
    pub fn none() -> (r: Self)
        ensures
            r == (MoveIntents { forward: false, backward: false, left: false, right: false }),
    {
        MoveIntents { forward: false, backward: false, left: false, right: false }
    }

    /// Whether the given action is active.
    pub fn active(&self, d: Direction) -> (r: bool)
        ensures
            d == Direction::Forward ==> r == self.forward,
            d == Direction::Backward ==> r == self.backward,
            d == Direction::Left ==> r == self.left,
            d == Direction::Right ==> r == self.right,
    {
        match d {
            Direction::Forward => self.forward,
            Direction::Backward => self.backward,
            Direction::Left => self.left,
            Direction::Right => self.right,
        }
    }
}

/// Net forward component of the intents: +1, 0 or -1.
pub open spec fn net_forward(m: MoveIntents) -> int {
    (if m.forward {
        1int
    } else {
        0int
    }) - (if m.backward {
        1int
    } else {
        0int
    })
}

/// Net strafe-right component of the intents: +1, 0 or -1.
pub open spec fn net_right(m: MoveIntents) -> int {
    (if m.right {
        1int
    } else {
        0int
    }) - (if m.left {
        1int
    } else {
        0int
    })
}

/// The x component of the un-normalized sum of active unit vectors.
pub open spec fn raw_delta_x(h: int, m: MoveIntents) -> int {
    net_forward(m) * cos_units(h) - net_right(m) * sin_units(h)
}

/// The y component of the un-normalized sum of active unit vectors.
pub open spec fn raw_delta_y(h: int, m: MoveIntents) -> int {
    net_forward(m) * sin_units(h) + net_right(m) * cos_units(h)
}

/// The movement displacement for one tick: the active unit vectors are
/// summed, and a nonzero sum is rescaled to `MOVE_SPEED`, so diagonal
/// movement is no faster than movement along one axis.
pub open spec fn move_delta_x(h: int, m: MoveIntents) -> int {
    let rx = raw_delta_x(h, m);
    let ry = raw_delta_y(h, m);
    if rx == 0 && ry == 0 {
        0
    } else {
        div_trunc(rx * MOVE_SPEED, sqrt_floor((rx * rx + ry * ry) as nat) as int)
    }
}

/// The y component of the movement displacement for one tick.
pub open spec fn move_delta_y(h: int, m: MoveIntents) -> int {
    let rx = raw_delta_x(h, m);
    let ry = raw_delta_y(h, m);
    if rx == 0 && ry == 0 {
        0
    } else {
        div_trunc(ry * MOVE_SPEED, sqrt_floor((rx * rx + ry * ry) as nat) as int)
    }
}

/// The camera plus everything the per-frame sweep needs: pose, the map, and
/// the most recent column buffer.
pub struct State {
    pub position: Vec2D,
    pub angle: i64,
    pub fov: i64,
    pub wall_colors: Vec<Rgb>,
    pub map: WorldMap,
    pub columns: Vec<(usize, u32)>,
    pub resolution: usize,
    pub projection_factor: i64,
    pub units_per_column: i64,
    pub column_width: u32,
}

/// The fixed-point tangent of half the field of view.
pub open spec fn tan_half_fov() -> int {
    sin_units(RENDER_FOV as int / 2) * SCALE / cos_units(RENDER_FOV as int / 2)
}

/// The projection factor: the distance to the projection plane for the
/// given horizontal resolution, times the reference wall height.
pub open spec fn projection_factor_spec(res: int) -> int {
    ((res / 2) * SCALE / tan_half_fov()) * WALL_ACTUAL_HEIGHT
}

impl State {
    /// Everything the tick relies on: the map and pose are in range and the
    /// derived constants match the resolution.
    pub open spec fn wf(self) -> bool {
        &&& self.map.wf()
        &&& self.map.dims.0 >= 20
        &&& self.map.dims.1 >= 20
        &&& 0 <= self.angle < FULL_TURN
        &&& self.fov == RENDER_FOV
        &&& 1 <= self.resolution <= 1048576
        &&& self.units_per_column == RENDER_FOV as int / self.resolution as int
        &&& self.column_width == WINDOW_WIDTH as int / self.resolution as int
        &&& self.projection_factor == projection_factor_spec(self.resolution as int)
        &&& 0 <= self.projection_factor <= 0x10_0000_0000
        &&& PLAYER_WALL_PADDING <= self.position.x <= self.map.dims.0 as int * SCALE
            - PLAYER_WALL_PADDING
        &&& PLAYER_WALL_PADDING <= self.position.y <= self.map.dims.1 as int * SCALE
            - PLAYER_WALL_PADDING
    }

    /// Builds the camera at the map's center (pushed down half a wall
    /// height), looking along the negative x axis.
    pub fn new(map: WorldMap, resolution: usize) -> (r: Self)
        requires
            map.wf(),
            map.dims.0 >= 20,
            map.dims.1 >= 20,
            1 <= resolution <= 1048576,
        ensures
            r.wf(),
            r.map == map,
            r.resolution == resolution,
            r.angle == HALF_TURN_ANGLE,
            r.fov == RENDER_FOV,
            r.columns@.len() == 0,
            r.position.x == Vec2D::clamp_coord(
                map.dims.0 as int * SCALE / 2,
                PLAYER_WALL_PADDING as int,
                map.dims.0 as int * SCALE - PLAYER_WALL_PADDING,
            ),
            r.position.y == Vec2D::clamp_coord(
                50 * SCALE + map.dims.1 as int * SCALE / 2,
                PLAYER_WALL_PADDING as int,
                map.dims.1 as int * SCALE - PLAYER_WALL_PADDING,
            ),
    {
        let (w, h) = map.dims;
        let half_w = ((w as u64 * SCALE as u64) / 2) as i64;
        let half_h = ((h as u64 * SCALE as u64) / 2) as i64;
        let mut position = Vec2D::new(half_w, 50 * SCALE + half_h);
        position.clamp(map.dims, PLAYER_WALL_PADDING);
        let projection_factor = projection_factor_exec(resolution);
        State {
            position,
            angle: HALF_TURN_ANGLE,
            fov: RENDER_FOV,
            wall_colors: crate::render::default_palette(),
            map,
            columns: Vec::new(),
            resolution,
            projection_factor,
            units_per_column: RENDER_FOV / (resolution as i64),
            column_width: WINDOW_WIDTH / (resolution as u32),
        }
    }

    /// The heading angle, in angle units.
    pub fn angle(&self) -> (r: i64)
        ensures
            r == self.angle,
    {
        self.angle
    }

    /// The heading angle in whole degrees, truncating.
    pub fn angle_degrees(&self) -> (r: i64)
        ensures
            r == crate::num::div_trunc(self.angle as int, crate::config::UNITS_PER_DEGREE as int),
    {
        crate::util::to_degs(self.angle)
    }

    /// The color for a material index, falling back to white.
    pub fn get_color(&self, index: usize) -> (c: Rgb)
        ensures
            index < self.wall_colors@.len() ==> c == self.wall_colors@[index as int],
            index >= self.wall_colors@.len() ==> c == (Rgb { r: 255u8, g: 255u8, b: 255u8 }),
    {
        if index < self.wall_colors.len() {
            self.wall_colors[index]
        } else {
            Rgb::white()
        }
    }

    /// Turns the heading by the pointer delta, scaled by the sensitivity;
    /// the heading is kept reduced to one turn, which no trig consumer can
    /// distinguish.
    pub fn mouse_motion(&mut self, dx: i32)
        requires
            old(self).wf(),
        ensures
            final(self).wf(),
            final(self).angle == (old(self).angle + MOUSE_SENSITIVITY * dx as int) % (
            FULL_TURN as int),
            *final(self) == (State { angle: final(self).angle, ..*old(self) }),
    {
        let turned = self.angle + MOUSE_SENSITIVITY * (dx as i64);
        self.angle = mod_euclid(turned, FULL_TURN);
        proof {
            vstd::arithmetic::div_mod::lemma_mod_division_less_than_divisor(turned as int,
                FULL_TURN as int);
        }
    }

    /// The movement phase: applies the normalized displacement for the
    /// active intents, then clamps to the map with the wall padding.
    pub fn update_camera(&mut self, intents: &MoveIntents)
        requires
            old(self).wf(),
        ensures
            final(self).wf(),
            final(self).position.x == Vec2D::clamp_coord(
                old(self).position.x + move_delta_x(old(self).angle as int, *intents),
                PLAYER_WALL_PADDING as int,
                old(self).map.dims.0 as int * SCALE - PLAYER_WALL_PADDING,
            ),
            final(self).position.y == Vec2D::clamp_coord(
                old(self).position.y + move_delta_y(old(self).angle as int, *intents),
                PLAYER_WALL_PADDING as int,
                old(self).map.dims.1 as int * SCALE - PLAYER_WALL_PADDING,
            ),
            *final(self) == (State { position: final(self).position, ..*old(self) }),
    {
        let par = Vec2D::from_angle(self.angle);
        let perp = Vec2D::from_angle(self.angle + QUARTER_TURN);
        proof {
            lemma_sin_units_half_turn(self.angle as int);
            assert(cos_units(self.angle as int + QUARTER_TURN) == sin_units(
                self.angle as int + HALF_TURN_ANGLE));
        }
        let mut delta = Vec2D::new(0, 0);
        if intents.active(Direction::Forward) {
            delta.add_x_y_raw(par.x_y());
        }
        if intents.active(Direction::Backward) {
            delta.add_x_y_raw((-par.x, -par.y));
        }
        if intents.active(Direction::Left) {
            delta.add_x_y_raw((-perp.x, -perp.y));
        }
        if intents.active(Direction::Right) {
            delta.add_x_y_raw(perp.x_y());
        }
        proof {
            let kf = net_forward(*intents);
            let kp = net_right(*intents);
            let c = cos_units(self.angle as int);
            let s = sin_units(self.angle as int);
            assert(kf * c == if kf == 1 { c } else if kf == 0 { 0int } else { -c })
                by (nonlinear_arith)
                requires kf == 1 || kf == 0 || kf == -1;
            assert(kf * s == if kf == 1 { s } else if kf == 0 { 0int } else { -s })
                by (nonlinear_arith)
                requires kf == 1 || kf == 0 || kf == -1;
            assert(kp * c == if kp == 1 { c } else if kp == 0 { 0int } else { -c })
                by (nonlinear_arith)
                requires kp == 1 || kp == 0 || kp == -1;
            assert(kp * s == if kp == 1 { s } else if kp == 0 { 0int } else { -s })
                by (nonlinear_arith)
                requires kp == 1 || kp == 0 || kp == -1;
            assert(delta.x == raw_delta_x(self.angle as int, *intents));
            assert(delta.y == raw_delta_y(self.angle as int, *intents));
        }
        if !delta.is_origin() {
            delta = delta.scale_to(MOVE_SPEED);
        }
        self.position.add_x_y_raw(delta.x_y());
        self.position.clamp(self.map.dims, PLAYER_WALL_PADDING);
    }

}

impl State {
    /// The viewing angle of column `i`, sweeping left to right across the
    /// field of view.
    pub open spec fn column_angle_spec(self, i: int) -> int {
        self.angle - RENDER_FOV as int / 2 + i * self.units_per_column
    }

    /// The ray cast for column `i`.
    pub open spec fn column_ray(self, i: int) -> Ray {
        Ray { origin: self.position, angle: self.column_angle_spec(i) as i64 }
    }

    /// What column `i` displays: the material index and projected height of
    /// the nearest wall within `RENDER_DISTANCE`, or the background sentinel
    /// `(0, 0)` when no wall is struck.
    pub open spec fn column_spec(self, i: int) -> (usize, u32) {
        match nearest_spec(
            candidates_spec(self.column_ray(i), self.map.walls@),
            RENDER_DISTANCE as u64,
        ) {
            Some(hit) => (
                hit.1,
                height_spec(
                    self.projection_factor as int,
                    corrected_dist_spec(hit.0 as int, self.column_angle_spec(i) - self.angle),
                ),
            ),
            None => (0usize, 0u32),
        }
    }

    /// The raycast sweep: recomputes the whole column buffer, one entry per
    /// column of the resolution.
    pub fn calculate_collisions(&mut self)
        requires
            old(self).wf(),
        ensures
            final(self).wf(),
            final(self).columns@.len() == old(self).resolution as int,
            forall|i: int| 0 <= i < old(self).resolution as int ==> final(self).columns@[i]
                == old(self).column_spec(i),
            *final(self) == (State { columns: final(self).columns, ..*old(self) }),
    {
        let mut cols: Vec<(usize, u32)> = Vec::new();
        let mut i: usize = 0;
        proof {
            vstd::arithmetic::div_mod::lemma_div_pos_is_pos(RENDER_FOV as int,
                self.resolution as int);
            vstd::arithmetic::div_mod::lemma_div_is_ordered_by_denominator(RENDER_FOV as int, 1,
                self.resolution as int);
            vstd::arithmetic::div_mod::lemma_div_basics_1(RENDER_FOV as int);
            vstd::arithmetic::div_mod::lemma_fundamental_div_mod(RENDER_FOV as int,
                self.resolution as int);
            vstd::arithmetic::div_mod::lemma_mod_division_less_than_divisor(RENDER_FOV as int,
                self.resolution as int);
        }
        while i < self.resolution
            invariant
                0 <= i <= self.resolution,
                self.wf(),
                0 <= self.units_per_column <= RENDER_FOV,
                self.resolution as int * self.units_per_column <= RENDER_FOV,
                cols@.len() == i as int,
                forall|j: int| 0 <= j < i as int ==> cols@[j] == self.column_spec(j),
            decreases self.resolution as int - i as int,
        {
            proof {
                assert((i as int) * self.units_per_column <= (self.resolution as int)
                    * self.units_per_column) by (nonlinear_arith)
                    requires 0 <= i as int <= self.resolution as int && self.units_per_column >= 0;
                assert((i as int) * self.units_per_column >= 0) by (nonlinear_arith)
                    requires i as int >= 0 && self.units_per_column >= 0;
            }
            let ca = self.angle - RENDER_FOV / 2 + (i as i64) * self.units_per_column;
            let ray = Ray::new(self.position, ca);
            proof {
                assert(ca as int == self.column_angle_spec(i as int));
                assert(ray == self.column_ray(i as int));
            }
            let hit = self.map.get_collision(&ray, RENDER_DISTANCE as u64);
            let entry: (usize, u32) = match hit {
                Some((d, color)) => {
                    proof {
                        crate::map::lemma_nearest_within_cutoff(
                            candidates_spec(ray, self.map.walls@),
                            self.map.walls@.len() as int,
                            RENDER_DISTANCE as u64,
                        );
                    }
                    let offset = ca - self.angle;
                    let corrected = corrected_distance(d, offset);
                    let height: u32 = if corrected == 0 {
                        u32::MAX
                    } else {
                        let h = ((self.projection_factor as u64) * (SCALE as u64) + corrected / 2)
                            / corrected;
                        if h > u32::MAX as u64 {
                            u32::MAX
                        } else {
                            h as u32
                        }
                    };
                    proof {
                        assert(corrected as int == corrected_dist_spec(d as int,
                            self.column_angle_spec(i as int) - self.angle));
                        assert(height == height_spec(self.projection_factor as int,
                            corrected as int));
                    }
                    (color, height)
                },
                None => (0, 0),
            };
            cols.push(entry);
            i = i + 1;
        }
        self.columns = cols;
    }

    /// One tick: the movement phase, then the raycast sweep. Afterwards the
    /// column buffer has exactly one entry per column.
    pub fn update(&mut self, intents: &MoveIntents)
        requires
            old(self).wf(),
        ensures
            final(self).wf(),
            final(self).columns@.len() == old(self).resolution as int,
            final(self).position.x == Vec2D::clamp_coord(
                old(self).position.x + move_delta_x(old(self).angle as int, *intents),
                PLAYER_WALL_PADDING as int,
                old(self).map.dims.0 as int * SCALE - PLAYER_WALL_PADDING,
            ),
            final(self).position.y == Vec2D::clamp_coord(
                old(self).position.y + move_delta_y(old(self).angle as int, *intents),
                PLAYER_WALL_PADDING as int,
                old(self).map.dims.1 as int * SCALE - PLAYER_WALL_PADDING,
            ),
            forall|i: int| 0 <= i < old(self).resolution as int ==> final(self).columns@[i] == (
            State { position: final(self).position, ..*old(self) }).column_spec(i),
            *final(self) == (State {
                position: final(self).position,
                columns: final(self).columns,
                ..*old(self)
            }),
    {
        self.update_camera(intents);
        self.calculate_collisions();
    }
}

/// Half a turn in angle units; the camera's initial heading.
pub const HALF_TURN_ANGLE: i64 = 11520;

/// The fisheye-corrected distance: the raw ray length scaled by the cosine
/// of the angle between the ray and the heading.
pub open spec fn corrected_dist_spec(d: int, offset: int) -> int {
    d * cos_units(offset) / (SCALE as int)
}

/// The projected column height in pixels: the projection factor over the
/// corrected distance, rounded to the nearest pixel and saturated; a zero
/// corrected distance projects to the full saturation height.
pub open spec fn height_spec(pf: int, corrected: int) -> u32 {
    if corrected <= 0 {
        u32::MAX
    } else {
        let h = (pf * SCALE + corrected / 2) / corrected;
        if h > u32::MAX {
            u32::MAX
        } else {
            h as u32
        }
    }
}

/// Applies the fisheye correction: scales a raw hit distance by the cosine
/// of the angle between the casting ray and the heading.
pub fn corrected_distance(d: u64, offset: i64) -> (r: u64)
    requires
        d <= 0x10_0000_0000_0000,
        -QUARTER_TURN <= offset <= QUARTER_TURN,
    ensures
        r as int == corrected_dist_spec(d as int, offset as int),
        r <= d,
{
    let cu = cos_fp(offset);
    proof {
        crate::trig::lemma_cos_units_small(offset as int);
        crate::trig::lemma_sin_arch_bounds(QUARTER_TURN as int - offset as int);
        assert(0 <= d as int * (cu as int) <= d as int * (SCALE as int)) by (nonlinear_arith)
            requires 0 <= d as int && 0 <= cu as int <= SCALE as int;
        assert(d as int * (SCALE as int) <= 0x4000_0000_0000_0000) by (nonlinear_arith)
            requires 0 <= d as int <= 0x10_0000_0000_0000 && SCALE == 1024i64;
        vstd::arithmetic::div_mod::lemma_multiply_divide_le(d as int * (cu as int), SCALE as int,
            d as int);
        assert(d as int * (cu as int) <= (SCALE as int) * (d as int)) by (nonlinear_arith)
            requires 0 <= d as int && 0 <= cu as int <= SCALE as int;
    }
    (d * (cu as u64)) / (SCALE as u64)
}

/// Nearer walls project taller: the column height never increases as the
/// corrected distance grows.
pub proof fn lemma_height_monotone(pf: int, c1: int, c2: int)
    requires
        0 <= pf,
        0 <= c1 <= c2,
    ensures
        height_spec(pf, c1) >= height_spec(pf, c2),
{
    if c1 <= 0 || c2 <= 0 {
    } else {
        let k = pf * SCALE;
        vstd::arithmetic::mul::lemma_mul_nonnegative(pf, SCALE as int);
        let h1 = (k + c1 / 2) / c1;
        let h2 = (k + c2 / 2) / c2;
        vstd::arithmetic::div_mod::lemma_fundamental_div_mod(k + c2 / 2, c2);
        vstd::arithmetic::div_mod::lemma_mod_division_less_than_divisor(k + c2 / 2, c2);
        vstd::arithmetic::div_mod::lemma_div_pos_is_pos(k + c2 / 2, c2);
        vstd::arithmetic::div_mod::lemma_div_pos_is_pos(k + c1 / 2, c1);
        assert(c2 * h2 <= k + c2 / 2);
        assert(k + c1 / 2 >= c1 * h2) by {
            if h2 == 0 {
                assert(c1 * h2 == 0) by (nonlinear_arith)
                    requires h2 == 0;
            } else {
                assert(0 <= c1 / 2 && 2 * (c1 / 2) <= c1 && 0 <= c2 / 2 && 2 * (c2 / 2) <= c2);
                assert(h2 * (c2 - c1) >= c2 - c1) by (nonlinear_arith)
                    requires h2 >= 1 && c2 - c1 >= 0;
                assert(c2 * h2 - c1 * h2 == h2 * (c2 - c1)) by (nonlinear_arith);
                assert(c2 / 2 - c1 / 2 <= c2 - c1) by {
                    vstd::arithmetic::div_mod::lemma_fundamental_div_mod(c1, 2);
                    vstd::arithmetic::div_mod::lemma_fundamental_div_mod(c2, 2);
                    vstd::arithmetic::div_mod::lemma_mod_division_less_than_divisor(c1, 2);
                    vstd::arithmetic::div_mod::lemma_mod_division_less_than_divisor(c2, 2);
                }
            }
        }
        vstd::arithmetic::div_mod::lemma_div_multiples_vanish(h2, c1);
        vstd::arithmetic::div_mod::lemma_div_is_ordered(c1 * h2, k + c1 / 2, c1);
        assert(c1 * h2 == h2 * c1) by (nonlinear_arith);
        assert(h1 >= h2);
    }
}

/// Casting straight along the heading leaves the raw distance unchanged:
/// the correction factor is exactly one.
pub proof fn lemma_fisheye_center(d: int)
    requires
        0 <= d,
    ensures
        corrected_dist_spec(d, 0) == d,
{
    crate::trig::lemma_cos_units_center();
    assert(d * (SCALE as int) == (SCALE as int) * d) by (nonlinear_arith);
    vstd::arithmetic::div_mod::lemma_div_multiples_vanish(d, SCALE as int);
}

/// Casting off the heading, within a quarter turn, strictly shortens a
/// positive raw distance and never makes it negative.
pub proof fn lemma_fisheye_off_center(d: int, offset: int)
    requires
        0 < d,
        -QUARTER_TURN <= offset <= QUARTER_TURN,
        offset != 0,
    ensures
        0 <= corrected_dist_spec(d, offset) < d,
{
    crate::trig::lemma_cos_units_off_center(offset);
    let c = cos_units(offset);
    assert(0 <= d * c) by (nonlinear_arith)
        requires 0 <= d && 0 <= c;
    vstd::arithmetic::div_mod::lemma_div_pos_is_pos(d * c, SCALE as int);
    assert(d * c < (SCALE as int) * d) by (nonlinear_arith)
        requires 0 < d && 0 <= c < SCALE as int;
    vstd::arithmetic::div_mod::lemma_multiply_divide_lt(d * c, SCALE as int, d);
}

/// Rescaling a vector of magnitude between `MIN_UNIT_COMPONENT` and
/// `2 * sqrt(2) * SCALE` to `MOVE_SPEED` yields a squared magnitude within
/// fixed-point rounding of `MOVE_SPEED` squared.
proof fn lemma_scaled_magnitude(x: int, y: int)
    requires
        262144 <= x * x + y * y,
        x * x + y * y <= 8388608,
    ensures
        (MOVE_SPEED - 2) * (MOVE_SPEED - 2) <= div_trunc(x * MOVE_SPEED, sqrt_floor(
            (x * x + y * y) as nat) as int) * div_trunc(x * MOVE_SPEED, sqrt_floor(
            (x * x + y * y) as nat) as int) + div_trunc(y * MOVE_SPEED, sqrt_floor(
            (x * x + y * y) as nat) as int) * div_trunc(y * MOVE_SPEED, sqrt_floor(
            (x * x + y * y) as nat) as int),
        div_trunc(x * MOVE_SPEED, sqrt_floor((x * x + y * y) as nat) as int) * div_trunc(
            x * MOVE_SPEED, sqrt_floor((x * x + y * y) as nat) as int) + div_trunc(
            y * MOVE_SPEED, sqrt_floor((x * x + y * y) as nat) as int) * div_trunc(
            y * MOVE_SPEED, sqrt_floor((x * x + y * y) as nat) as int) <= (MOVE_SPEED + 8) * (
        MOVE_SPEED + 8),
{
    let s = x * x + y * y;
    let t = MOVE_SPEED as int;
    crate::num::lemma_sqrt_floor_bounds(s as nat);
    let m = sqrt_floor(s as nat) as int;
    assert(m * m <= s && s < (m + 1) * (m + 1));
    assert(m >= 512) by (nonlinear_arith)
        requires m >= 0 && 262144 <= s && s < (m + 1) * (m + 1);
    assert(m <= 2896) by (nonlinear_arith)
        requires m * m <= s && s <= 8388608;
    let dx = div_trunc(x * t, m);
    let dy = div_trunc(y * t, m);
    crate::num::lemma_div_trunc_close(x * t, m);
    crate::num::lemma_div_trunc_close(y * t, m);
    let ex = m * dx - x * t;
    let ey = m * dy - y * t;
    assert(-m < ex < m && -m < ey < m);
    let ax = vstd::math::abs(x) as int;
    let ay = vstd::math::abs(y) as int;
    let q = dx * dx + dy * dy;
    assert(m * m * (dx * dx) == (x * t) * (x * t) + 2 * ((x * t) * ex) + ex * ex)
        by (nonlinear_arith)
        requires m * dx == x * t + ex;
    assert(m * m * (dy * dy) == (y * t) * (y * t) + 2 * ((y * t) * ey) + ey * ey)
        by (nonlinear_arith)
        requires m * dy == y * t + ey;
    assert((x * t) * (x * t) + (y * t) * (y * t) == t * t * s) by (nonlinear_arith)
        requires s == x * x + y * y;
    assert(m * m * q == m * m * (dx * dx) + m * m * (dy * dy)) by (nonlinear_arith)
        requires q == dx * dx + dy * dy;
    assert(m * m * q == t * t * s + 2 * ((x * t) * ex + (y * t) * ey) + ex * ex + ey * ey);
    let w = (x * t) * ex + (y * t) * ey;
    assert((ax + ay) * (ax + ay) <= 2 * s) by (nonlinear_arith)
        requires (ax == x || ax == -x) && (ay == y || ay == -y) && s == x * x + y * y;
    assert(2 * (ax + ay) <= 3 * (m + 1)) by (nonlinear_arith)
        requires
            (ax + ay) * (ax + ay) <= 2 * s && s < (m + 1) * (m + 1) && ax + ay >= 0 && m >= 0;
    assert(-(t * (ax + ay) * m) <= w <= t * (ax + ay) * m) by (nonlinear_arith)
        requires
            w == (x * t) * ex + (y * t) * ey && (ax == x || ax == -x) && (ay == y || ay == -y)
                && ax >= 0 && ay >= 0 && -m <= ex <= m && -m <= ey <= m && t >= 0;
    assert(2 * (t * (ax + ay) * m) <= 3 * t * m * (m + 1)) by (nonlinear_arith)
        requires 2 * (ax + ay) <= 3 * (m + 1) && t >= 0 && m >= 0;
    assert(ex * ex + ey * ey <= 2 * (m * m)) by (nonlinear_arith)
        requires -m <= ex <= m && -m <= ey <= m;
    assert(t * t * s <= t * t * (m * m + 2 * m)) by (nonlinear_arith)
        requires s < (m + 1) * (m + 1) && t >= 0;
    assert(t * t * s >= t * t * (m * m)) by (nonlinear_arith)
        requires s >= m * m && t >= 0;
    assert(m * m * q <= t * t * (m * m + 2 * m) + 3 * t * m * (m + 1) + 2 * (m * m));
    assert(t * t * (m * m + 2 * m) + 3 * t * m * (m + 1) + 2 * (m * m) <= (m * m) * ((t + 8) * (t
        + 8))) by (nonlinear_arith)
        requires m >= 512 && t == 2560;
    assert(q <= (t + 8) * (t + 8)) by (nonlinear_arith)
        requires m * m * q <= (m * m) * ((t + 8) * (t + 8)) && m >= 1;
    assert(ex * ex >= 0 && ey * ey >= 0) by (nonlinear_arith);
    assert(m * m * q >= t * t * (m * m) - 3 * t * m * (m + 1));
    assert(t * t * (m * m) - 3 * t * m * (m + 1) >= (m * m) * ((t - 2) * (t - 2)))
        by (nonlinear_arith)
        requires m >= 512 && t == 2560;
    assert(q >= (t - 2) * (t - 2)) by (nonlinear_arith)
        requires m * m * q >= (m * m) * ((t - 2) * (t - 2)) && m >= 1;
}

/// Movement normalization: whenever any movement is requested at all, the
/// displacement's squared magnitude lies within fixed-point rounding of
/// `MOVE_SPEED` squared, whatever combination of keys is held - pressing
/// forward and strafe-right together moves no faster than forward alone.
pub proof fn lemma_movement_normalized(h: int, m: MoveIntents)
    requires
        raw_delta_x(h, m) != 0 || raw_delta_y(h, m) != 0,
    ensures
        (MOVE_SPEED - 2) * (MOVE_SPEED - 2) <= move_delta_x(h, m) * move_delta_x(h, m)
            + move_delta_y(h, m) * move_delta_y(h, m),
        move_delta_x(h, m) * move_delta_x(h, m) + move_delta_y(h, m) * move_delta_y(h, m) <= (
        MOVE_SPEED + 8) * (MOVE_SPEED + 8),
{
    let c = cos_units(h);
    let si = sin_units(h);
    let kf = net_forward(m);
    let kp = net_right(m);
    let rx = raw_delta_x(h, m);
    let ry = raw_delta_y(h, m);
    crate::trig::lemma_unit_sq_mag_lower(h);
    crate::trig::lemma_sin_units_bounds(h);
    crate::trig::lemma_cos_units_bounds(h);
    let pa = kf * c;
    let pb = kp * si;
    let pc = kf * si;
    let pd = kp * c;
    assert(rx * rx == pa * pa - 2 * (pa * pb) + pb * pb) by (nonlinear_arith)
        requires rx == pa - pb;
    assert(ry * ry == pc * pc + 2 * (pc * pd) + pd * pd) by (nonlinear_arith)
        requires ry == pc + pd;
    assert(pa * pa == (kf * kf) * (c * c)) by (nonlinear_arith)
        requires pa == kf * c;
    assert(pb * pb == (kp * kp) * (si * si)) by (nonlinear_arith)
        requires pb == kp * si;
    assert(pc * pc == (kf * kf) * (si * si)) by (nonlinear_arith)
        requires pc == kf * si;
    assert(pd * pd == (kp * kp) * (c * c)) by (nonlinear_arith)
        requires pd == kp * c;
    assert(pa * pb == pc * pd) by (nonlinear_arith)
        requires pa == kf * c && pb == kp * si && pc == kf * si && pd == kp * c;
    assert((kf * kf + kp * kp) * (c * c + si * si) == (kf * kf) * (c * c) + (kp * kp) * (si * si)
        + (kf * kf) * (si * si) + (kp * kp) * (c * c)) by (nonlinear_arith);
    assert(rx * rx + ry * ry == (kf * kf + kp * kp) * (c * c + si * si));
    if kf == 0 && kp == 0 {
        assert(rx == 0 && ry == 0) by (nonlinear_arith)
            requires rx == kf * c - kp * si && ry == kf * si + kp * c && kf == 0 && kp == 0;
    }
    assert(262144 <= rx * rx + ry * ry && rx * rx + ry * ry <= 8388608) by (nonlinear_arith)
        requires
            rx * rx + ry * ry == (kf * kf + kp * kp) * (c * c + si * si) && (kf == -1 || kf == 0
                || kf == 1) && (kp == -1 || kp == 0 || kp == 1) && !(kf == 0 && kp == 0)
                && 262144 <= c * c + si * si && -1024 <= c <= 1024 && -1024 <= si <= 1024;
    lemma_scaled_magnitude(rx, ry);
}

/// Computes the projection factor for a resolution.
fn projection_factor_exec(resolution: usize) -> (r: i64)
    requires
        1 <= resolution <= 1048576,
    ensures
        r == projection_factor_spec(resolution as int),
        0 <= r <= 0x10_0000_0000,
{
    let s = crate::trig::sin_fp(RENDER_FOV / 2);
    let c = cos_fp(RENDER_FOV / 2);
    proof {
        crate::trig::lemma_cos_units_small(RENDER_FOV as int / 2);
        crate::trig::lemma_sin_arch_ge_min(QUARTER_TURN as int - RENDER_FOV as int / 2);
        crate::trig::lemma_sin_arch_ge_min(RENDER_FOV as int / 2);
        crate::trig::lemma_sin_arch_bounds(QUARTER_TURN as int - RENDER_FOV as int / 2);
        vstd::arithmetic::div_mod::lemma_small_mod((RENDER_FOV / 2) as nat, FULL_TURN as nat);
        assert(sin_units(RENDER_FOV as int / 2) == crate::trig::sin_arch(RENDER_FOV as int / 2));
    }
    let tan = ((s as u64 * SCALE as u64) / (c as u64)) as i64;
    proof {
        let si = s as int;
        let ci = c as int;
        vstd::arithmetic::div_mod::lemma_div_pos_is_pos(si * SCALE, ci);
        assert(512int * 512 <= si * SCALE) by (nonlinear_arith)
            requires si >= 512;
        vstd::arithmetic::div_mod::lemma_div_is_ordered(512int * 512, si * SCALE, ci);
        vstd::arithmetic::div_mod::lemma_div_is_ordered_by_denominator(512int * 512, ci,
            SCALE as int);
        assert(si * SCALE <= ci * 2048) by (nonlinear_arith)
            requires si <= SCALE as int && ci >= 512 && SCALE == 1024i64;
        vstd::arithmetic::div_mod::lemma_multiply_divide_le(si * SCALE, ci, 2048);
        assert(tan as int == si * SCALE / ci);
        assert(tan >= 256);
    }
    let plane = (((resolution / 2) as u64 * SCALE as u64) / (tan as u64)) as i64;
    proof {
        let num = (resolution as int / 2) * SCALE;
        assert(0 <= num <= 0x2000_0000) by (nonlinear_arith)
            requires 0 <= resolution as int / 2 <= 524288 && SCALE == 1024i64
                && num == (resolution as int / 2) * SCALE;
        vstd::arithmetic::div_mod::lemma_div_pos_is_pos(num, tan as int);
        vstd::arithmetic::div_mod::lemma_div_is_ordered_by_denominator(num, 1, tan as int);
        vstd::arithmetic::div_mod::lemma_div_basics_1(num);
        assert(plane as int == num / (tan as int));
        assert(0 <= plane <= 0x2000_0000);
    }
    plane * WALL_ACTUAL_HEIGHT
}

} // verus!
