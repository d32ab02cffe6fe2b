//! A wall: one finite straight segment with a material (palette) index.

use vstd::prelude::*;

use crate::config::SCALE;
use crate::vector::Vec2D;

verus! {

/// A collidable wall segment between two points, colored by an index into
/// the palette.
#[derive(Clone, Copy, PartialEq, Eq, Structural, Debug)]
pub struct Wall {
    pub a: Vec2D,
    pub b: Vec2D,
    pub color_index: usize,
}

impl Wall {
    /// Both endpoints stay within the coordinate bound the geometry needs.
    pub open spec fn wf(self) -> bool {
        self.a.in_bounds() && self.b.in_bounds()
    }

    /// The wall lies within a map of the given dimensions (in map units).
    pub open spec fn in_dims(self, dims: (u32, u32)) -> bool {
        &&& 0 <= self.a.x <= dims.0 as int * SCALE
        &&& 0 <= self.a.y <= dims.1 as int * SCALE
        &&& 0 <= self.b.x <= dims.0 as int * SCALE
        &&& 0 <= self.b.y <= dims.1 as int * SCALE
    }

    pub fn new(a: Vec2D, b: Vec2D, color_index: usize) -> (r: Self)
        ensures
            r.a == a,
            r.b == b,
            r.color_index == color_index,
    {
        Wall { a, b, color_index }
    }

    /// The wall's endpoints rescaled from one map rectangle into another,
    /// for the minimap.
    pub fn map_into(&self, old_dims: (u32, u32), new_dims: (u32, u32)) -> (r: Vec<Vec2D>)
        requires
            self.in_dims(old_dims),
            old_dims.0 > 0,
            old_dims.1 > 0,
        ensures
            r@.len() == 2,
            r@[0].x == crate::util::remap_spec(self.a.x as int, 0, old_dims.0 as int * SCALE, 0,
                new_dims.0 as int * SCALE),
            r@[0].y == crate::util::remap_spec(self.a.y as int, 0, old_dims.1 as int * SCALE, 0,
                new_dims.1 as int * SCALE),
            r@[1].x == crate::util::remap_spec(self.b.x as int, 0, old_dims.0 as int * SCALE, 0,
                new_dims.0 as int * SCALE),
            r@[1].y == crate::util::remap_spec(self.b.y as int, 0, old_dims.1 as int * SCALE, 0,
                new_dims.1 as int * SCALE),
    {
        let mut v: Vec<Vec2D> = Vec::new();
        v.push(self.a.remap(old_dims, new_dims));
        v.push(self.b.remap(old_dims, new_dims));
        v
    }

    /// The wall's endpoints, in order.
    pub fn points(&self) -> (r: Vec<Vec2D>)
        ensures
            r@.len() == 2,
            r@[0] == self.a,
            r@[1] == self.b,
    {
        let mut v: Vec<Vec2D> = Vec::new();
        v.push(self.a);
        v.push(self.b);
        v
    }
}

} // verus!
