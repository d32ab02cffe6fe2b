//! Column rendering: colors, distance shading, and the drawable strip and
//! minimap descriptions that the presentation layer consumes.

use vstd::prelude::*;

use crate::config::{COORD_LIMIT, QUARTER_TURN, RENDER_FOV, SCALE, WINDOW_HEIGHT, WINDOW_WIDTH};
use crate::num::{div_trunc, div_trunc_i128, lemma_div_trunc_abs, lemma_mul_bounds};
use crate::state::State;
use crate::trig::{cos_units, sin_units};
use crate::util::{remap, remap_spec};
use crate::vector::Vec2D;

verus! {

/// An opaque color with 8-bit channels.
#[derive(Clone, Copy, PartialEq, Eq, Structural, Debug)]
pub struct Rgb {
    pub r: u8,
    pub g: u8,
    pub b: u8,
}

impl Rgb {
    pub fn rgb(r: u8, g: u8, b: u8) -> (c: Self)
        ensures
            c.r == r,
            c.g == g,
            c.b == b,
    {
        Rgb { r, g, b }
    }

    /// White, the fallback for out-of-palette material indices.
    pub fn white() -> (c: Self)
        ensures
            c == (Rgb { r: 255u8, g: 255u8, b: 255u8 }),
    {
        Rgb { r: 255, g: 255, b: 255 }
    }

    /// Darkens every channel by `by`, flooring at zero.
    pub fn dim(&self, by: u8) -> (c: Self)
        ensures
            c.r as int == (if self.r >= by { self.r as int - by as int } else { 0int }),
            c.g as int == (if self.g >= by { self.g as int - by as int } else { 0int }),
            c.b as int == (if self.b >= by { self.b as int - by as int } else { 0int }),
    {
        Rgb {
            r: if self.r >= by { self.r - by } else { 0 },
            g: if self.g >= by { self.g - by } else { 0 },
            b: if self.b >= by { self.b - by } else { 0 },
        }
    }
}

/// The fixed wall palette, in material-index order.
pub fn default_palette() -> (r: Vec<Rgb>)
    ensures
        r@.len() == 6,
        r@[0] == (Rgb { r: 128u8, g: 255u8, b: 0u8 }),
        r@[1] == (Rgb { r: 0u8, g: 128u8, b: 255u8 }),
        r@[2] == (Rgb { r: 255u8, g: 0u8, b: 128u8 }),
        r@[3] == (Rgb { r: 0u8, g: 255u8, b: 0u8 }),
        r@[4] == (Rgb { r: 0u8, g: 0u8, b: 255u8 }),
        r@[5] == (Rgb { r: 255u8, g: 255u8, b: 255u8 }),
{
    let mut v: Vec<Rgb> = Vec::new();
    v.push(Rgb { r: 128, g: 255, b: 0 });
    v.push(Rgb { r: 0, g: 128, b: 255 });
    v.push(Rgb { r: 255, g: 0, b: 128 });
    v.push(Rgb { r: 0, g: 255, b: 0 });
    v.push(Rgb { r: 0, g: 0, b: 255 });
    v.push(Rgb { r: 255, g: 255, b: 255 });
    v
}

/// One drawable vertical strip: a rectangle centered on the screen's
/// vertical midpoint, in a distance-shaded color.
#[derive(Clone, Copy, PartialEq, Eq, Structural, Debug)]
pub struct Strip {
    pub center_x: u32,
    pub center_y: u32,
    pub width: u32,
    pub height: u32,
    pub color: Rgb,
}

/// How much a column of the given projected height is darkened: zero at the
/// full screen height (nearest), 255 at height zero (farthest).
pub open spec fn dim_amount_spec(h: u32) -> int {
    remap_spec(
        if h > WINDOW_HEIGHT {
            WINDOW_HEIGHT as int
        } else {
            h as int
        },
        0,
        WINDOW_HEIGHT as int,
        255,
        0,
    )
}

/// A color darkened by the given amount, each channel floored at zero.
pub open spec fn shade_spec(c: Rgb, by: int) -> Rgb {
    Rgb {
        r: if c.r >= by {
            (c.r - by) as u8
        } else {
            0u8
        },
        g: if c.g >= by {
            (c.g - by) as u8
        } else {
            0u8
        },
        b: if c.b >= by {
            (c.b - by) as u8
        } else {
            0u8
        },
    }
}

/// The palette color of a material index, falling back to white.
pub open spec fn palette_color_spec(colors: Seq<Rgb>, index: int) -> Rgb {
    if 0 <= index < colors.len() {
        colors[index]
    } else {
        Rgb { r: 255u8, g: 255u8, b: 255u8 }
    }
}

/// The strip drawn for column `i` of the state's column buffer.
pub open spec fn strip_spec(st: State, i: int) -> Strip {
    let ci = st.columns@[i].0;
    let h = st.columns@[i].1;
    Strip {
        center_x: (i * st.column_width + st.column_width / 2) as u32,
        center_y: (WINDOW_HEIGHT / 2) as u32,
        width: st.column_width,
        height: h,
        color: shade_spec(palette_color_spec(st.wall_colors@, ci as int), dim_amount_spec(h)),
    }
}

/// Turns the column buffer into drawable strips, one per column, shading
/// each column's palette color by its distance (taller columns are nearer,
/// so they are brighter).
pub fn frame_strips(st: &State) -> (r: Vec<Strip>)
    requires
        st.wf(),
        st.columns@.len() <= st.resolution,
    ensures
        r@.len() == st.columns@.len(),
        forall|i: int| 0 <= i < r@.len() ==> r@[i] == strip_spec(*st, i),
{
    let mut out: Vec<Strip> = Vec::new();
    let mut i: usize = 0;
    proof {
        vstd::arithmetic::div_mod::lemma_fundamental_div_mod(WINDOW_WIDTH as int,
            st.resolution as int);
        vstd::arithmetic::div_mod::lemma_mod_division_less_than_divisor(WINDOW_WIDTH as int,
            st.resolution as int);
        vstd::arithmetic::div_mod::lemma_div_pos_is_pos(WINDOW_WIDTH as int, st.resolution as int);
    }
    while i < st.columns.len()
        invariant
            0 <= i <= st.columns@.len(),
            st.wf(),
            st.columns@.len() <= st.resolution,
            st.resolution as int * st.column_width <= WINDOW_WIDTH,
            out@.len() == i as int,
            forall|j: int| 0 <= j < i as int ==> out@[j] == strip_spec(*st, j),
        decreases st.columns@.len() - i,
    {
        let (ci, h) = st.columns[i];
        let clamped: u32 = if h > WINDOW_HEIGHT {
            WINDOW_HEIGHT
        } else {
            h
        };
        let dim_amt = remap(clamped as i64, 0, WINDOW_HEIGHT as i64, 255, 0);
        let color = st.get_color(ci).dim(dim_amt as u8);
        proof {
            assert((i as int) * st.column_width <= (st.resolution as int) * st.column_width)
                by (nonlinear_arith)
                requires 0 <= i as int <= st.resolution as int && st.column_width >= 0;
            assert((i as int) * st.column_width >= 0) by (nonlinear_arith)
                requires i as int >= 0 && st.column_width >= 0;
        }
        let strip = Strip {
            center_x: (i as u32) * st.column_width + st.column_width / 2,
            center_y: WINDOW_HEIGHT / 2,
            width: st.column_width,
            height: h,
            color,
        };
        out.push(strip);
        i = i + 1;
    }
    out
}

/// A wall segment of the minimap, in minimap fixed-point coordinates.
#[derive(Clone, Copy, PartialEq, Eq, Structural, Debug)]
pub struct SceneSegment {
    pub a: Vec2D,
    pub b: Vec2D,
    pub color: Rgb,
}

/// Everything the minimap draws, all coordinates in fixed-point pixels
/// relative to the minimap rectangle: the player marker, the forward ray
/// and the two field-of-view boundary rays, and every wall.
pub struct MinimapScene {
    pub player: Vec2D,
    pub rays: Vec<SceneSegment>,
    pub walls: Vec<SceneSegment>,
}

/// Where a heading ray of the minimap ends: the mapped player position
/// advanced by the unit vector of `angle`, scaled to `ray_scale`.
pub open spec fn ray_end_spec(player: Vec2D, angle: int, ray_scale: int) -> Vec2D {
    Vec2D {
        x: (player.x + div_trunc(cos_units(angle) * ray_scale, SCALE as int)) as i64,
        y: (player.y + div_trunc(sin_units(angle) * ray_scale, SCALE as int)) as i64,
    }
}

/// Computes one heading-ray endpoint for the minimap.
fn ray_end(player: Vec2D, angle: i64, ray_scale: i64) -> (r: Vec2D)
    requires
        player.in_bounds(),
        i64::MIN < angle,
        angle <= i64::MAX - QUARTER_TURN,
        0 <= ray_scale <= COORD_LIMIT,
    ensures
        r == ray_end_spec(player, angle as int, ray_scale as int),
{
    let dir = Vec2D::from_angle(angle);
    proof {
        lemma_mul_bounds(dir.x as int, ray_scale as int, SCALE as int, COORD_LIMIT as int);
        lemma_mul_bounds(dir.y as int, ray_scale as int, SCALE as int, COORD_LIMIT as int);
        assert(vstd::math::abs(dir.x as int * ray_scale) <= vstd::math::abs(SCALE as int) * (
        SCALE as int * COORD_LIMIT));
        lemma_div_trunc_abs(dir.x as int * ray_scale, SCALE as int, SCALE as int * COORD_LIMIT);
        lemma_div_trunc_abs(dir.y as int * ray_scale, SCALE as int, SCALE as int * COORD_LIMIT);
    }
    let ox = div_trunc_i128(dir.x as i128 * ray_scale as i128, SCALE as i128) as i64;
    let oy = div_trunc_i128(dir.y as i128 * ray_scale as i128, SCALE as i128) as i64;
    Vec2D::new(player.x + ox, player.y + oy)
}

/// Projects the camera pose and every wall into a `dims.0` by `dims.1`
/// pixel minimap: the player marker, the forward and field-of-view boundary
/// rays (scaled to half the larger minimap side), and the walls, each with
/// its palette color.
pub fn minimap_scene(st: &State, dims: (u32, u32)) -> (r: MinimapScene)
    requires
        st.wf(),
        1 <= dims.0 <= 16384,
        1 <= dims.1 <= 16384,
    ensures
        r.player.x == remap_spec(st.position.x as int, 0, st.map.dims.0 as int * SCALE, 0,
            dims.0 as int * SCALE),
        r.player.y == remap_spec(st.position.y as int, 0, st.map.dims.1 as int * SCALE, 0,
            dims.1 as int * SCALE),
        r.rays@.len() == 3,
        r.rays@[0].a == r.player && r.rays@[1].a == r.player && r.rays@[2].a == r.player,
        r.rays@[0].b == ray_end_spec(r.player, st.angle as int, ray_scale_spec(dims)),
        r.rays@[1].b == ray_end_spec(r.player, st.angle as int - RENDER_FOV as int / 2,
            ray_scale_spec(dims)),
        r.rays@[2].b == ray_end_spec(r.player, st.angle as int + RENDER_FOV as int / 2,
            ray_scale_spec(dims)),
        r.walls@.len() == st.map.walls@.len(),
        forall|i: int| 0 <= i < r.walls@.len() ==> {
            let w = st.map.walls@[i];
            let seg = #[trigger] r.walls@[i];
            seg.a.x == remap_spec(w.a.x as int, 0, st.map.dims.0 as int * SCALE, 0,
                dims.0 as int * SCALE) && seg.a.y == remap_spec(w.a.y as int, 0,
                st.map.dims.1 as int * SCALE, 0, dims.1 as int * SCALE) && seg.b.x == remap_spec(
                w.b.x as int, 0, st.map.dims.0 as int * SCALE, 0, dims.0 as int * SCALE)
                && seg.b.y == remap_spec(w.b.y as int, 0, st.map.dims.1 as int * SCALE, 0,
                dims.1 as int * SCALE) && seg.color == palette_color_spec(st.wall_colors@,
                w.color_index as int)
        },
{
    let player = st.position.remap(st.map.dims, dims);
    let ray_scale = if dims.0 > dims.1 {
        (dims.0 as i64) * SCALE / 2
    } else {
        (dims.1 as i64) * SCALE / 2
    };
    let half_fov = RENDER_FOV / 2;
    let mut rays: Vec<SceneSegment> = Vec::new();
    let white = Rgb::white();
    rays.push(SceneSegment { a: player, b: ray_end(player, st.angle, ray_scale), color: white });
    rays.push(SceneSegment {
        a: player,
        b: ray_end(player, st.angle - half_fov, ray_scale),
        color: white,
    });
    rays.push(SceneSegment {
        a: player,
        b: ray_end(player, st.angle + half_fov, ray_scale),
        color: white,
    });
    let mut walls: Vec<SceneSegment> = Vec::new();
    let mut i: usize = 0;
    while i < st.map.walls.len()
        invariant
            0 <= i <= st.map.walls@.len(),
            st.wf(),
            1 <= dims.0 <= 16384,
            1 <= dims.1 <= 16384,
            walls@.len() == i as int,
            forall|j: int| 0 <= j < i as int ==> {
                let w = st.map.walls@[j];
                let seg = #[trigger] walls@[j];
                seg.a.x == remap_spec(w.a.x as int, 0, st.map.dims.0 as int * SCALE, 0,
                    dims.0 as int * SCALE) && seg.a.y == remap_spec(w.a.y as int, 0,
                    st.map.dims.1 as int * SCALE, 0, dims.1 as int * SCALE) && seg.b.x
                    == remap_spec(w.b.x as int, 0, st.map.dims.0 as int * SCALE, 0,
                    dims.0 as int * SCALE) && seg.b.y == remap_spec(w.b.y as int, 0,
                    st.map.dims.1 as int * SCALE, 0, dims.1 as int * SCALE) && seg.color
                    == palette_color_spec(st.wall_colors@, w.color_index as int)
            },
        decreases st.map.walls@.len() - i,
    {
        let w = st.map.walls[i];
        proof {
            assert(st.map.walls@[i as int].in_dims(st.map.dims));
        }
        let a = w.a.remap(st.map.dims, dims);
        let b = w.b.remap(st.map.dims, dims);
        let color = st.get_color(w.color_index);
        walls.push(SceneSegment { a, b, color });
        i = i + 1;
    }
    MinimapScene { player, rays, walls }
}

/// The length of a minimap heading ray: half the larger minimap side, in
/// fixed-point pixels.
pub open spec fn ray_scale_spec(dims: (u32, u32)) -> int {
    if dims.0 > dims.1 {
        dims.0 as int * SCALE / 2
    } else {
        dims.1 as int * SCALE / 2
    }
}

} // verus!
