//! The map: an ordered list of walls plus bounding dimensions. It answers
//! the query "which wall does this ray strike first, and how far away".

use vstd::prelude::*;

use crate::config::SCALE;
use crate::vector::{dist_points, Ray, Vec2D};
use crate::wall::Wall;

verus! {

/// An immutable collection of walls inside a bounding box of
/// `dims` map units.
pub struct WorldMap {
    pub walls: Vec<Wall>,
    pub dims: (u32, u32),
}

/// The nearest candidate among the first `n` entries: each entry is an
/// optional raw distance with a material index. Hits beyond `max_toi` are
/// discarded; a strictly smaller distance is needed to displace an earlier
/// hit, so the first wall in iteration order wins ties.
pub open spec fn nearest_upto(s: Seq<(Option<u64>, usize)>, n: int, max_toi: u64) -> Option<
    (u64, usize),
>
    decreases n,
{
    if n <= 0 {
        None
    } else {
        let prev = nearest_upto(s, n - 1, max_toi);
        match s[n - 1].0 {
            Some(d) => {
                let closer = match prev {
                    Some(p) => d < p.0,
                    None => true,
                };
                if d <= max_toi && closer {
                    Some((d, s[n - 1].1))
                } else {
                    prev
                }
            },
            None => prev,
        }
    }
}

/// The nearest candidate in the whole list.
pub open spec fn nearest_spec(s: Seq<(Option<u64>, usize)>, max_toi: u64) -> Option<(u64, usize)> {
    nearest_upto(s, s.len() as int, max_toi)
}

/// A hit past the cutoff is never reported: whatever the list, the nearest
/// candidate lies within `max_toi`.
pub proof fn lemma_nearest_within_cutoff(s: Seq<(Option<u64>, usize)>, n: int, max_toi: u64)
    requires
        nearest_upto(s, n, max_toi).is_some(),
    ensures
        nearest_upto(s, n, max_toi).unwrap().0 <= max_toi,
    decreases n,
{
    if n > 0 {
        if nearest_upto(s, n - 1, max_toi).is_some() {
            lemma_nearest_within_cutoff(s, n - 1, max_toi);
        }
    }
}

/// The reported hit is at least as near as every accepted candidate.
pub proof fn lemma_nearest_is_min(s: Seq<(Option<u64>, usize)>, n: int, max_toi: u64, i: int)
    requires
        0 <= i < n,
        s[i].0.is_some(),
        s[i].0.unwrap() <= max_toi,
    ensures
        nearest_upto(s, n, max_toi).is_some(),
        nearest_upto(s, n, max_toi).unwrap().0 <= s[i].0.unwrap(),
    decreases n,
{
    if i < n - 1 {
        lemma_nearest_is_min(s, n - 1, max_toi, i);
    }
}

/// Ties break to iteration order: when candidate `i` attains the accepted
/// minimum and every earlier candidate is strictly farther, candidate `i`
/// is the one reported.
pub proof fn lemma_nearest_first_wins(
    s: Seq<(Option<u64>, usize)>,
    n: int,
    max_toi: u64,
    i: int,
    d: u64,
)
    requires
        0 <= i < n <= s.len(),
        s[i].0 == Some(d),
        d <= max_toi,
        forall|j: int| 0 <= j < i && (#[trigger] s[j].0) is Some ==> s[j].0.unwrap() > d,
        forall|j: int| i <= j < n && (#[trigger] s[j].0) is Some ==> s[j].0.unwrap() >= d,
    ensures
        nearest_upto(s, n, max_toi) == Some((d, s[i].1)),
    decreases n,
{
    if n - 1 == i {
        if nearest_upto(s, i, max_toi).is_some() {
            lemma_nearest_member(s, i, max_toi);
        }
    } else {
        lemma_nearest_first_wins(s, n - 1, max_toi, i, d);
    }
}

/// The reported hit is one of the candidates.
pub proof fn lemma_nearest_member(s: Seq<(Option<u64>, usize)>, n: int, max_toi: u64)
    requires
        nearest_upto(s, n, max_toi).is_some(),
    ensures
        exists|i: int|
            0 <= i < n && #[trigger] s[i].0 == Some(nearest_upto(s, n, max_toi).unwrap().0)
                && s[i].1 == nearest_upto(s, n, max_toi).unwrap().1,
    decreases n,
{
    if n > 0 {
        let cur = nearest_upto(s, n, max_toi);
        let prev = nearest_upto(s, n - 1, max_toi);
        if cur == prev {
            lemma_nearest_member(s, n - 1, max_toi);
        } else {
            assert(s[n - 1].0 == Some(cur.unwrap().0) && s[n - 1].1 == cur.unwrap().1);
        }
    }
}

/// The raw distance from the ray's origin to its hit on the wall, when the
/// ray strikes it.
pub open spec fn hit_dist(ray: Ray, w: Wall) -> int {
    dist_points(ray.origin.x as int, ray.origin.y as int, ray.hit_x(w), ray.hit_y(w))
}

/// The per-wall candidate list a ray produces against a wall sequence.
pub open spec fn candidates_spec(ray: Ray, walls: Seq<Wall>) -> Seq<(Option<u64>, usize)> {
    Seq::new(walls.len(), |i: int| (
        if ray.hits(walls[i]) {
            Some(hit_dist(ray, walls[i]) as u64)
        } else {
            None
        },
        walls[i].color_index,
    ))
}

/// The least x coordinate among the first `n` walls' endpoints.
pub open spec fn walls_min_x(s: Seq<Wall>, n: int) -> int
    decreases n,
{
    if n <= 0 {
        i64::MAX as int
    } else {
        vstd::math::min(
            walls_min_x(s, n - 1),
            vstd::math::min(s[n - 1].a.x as int, s[n - 1].b.x as int),
        )
    }
}

/// The greatest x coordinate among the first `n` walls' endpoints.
pub open spec fn walls_max_x(s: Seq<Wall>, n: int) -> int
    decreases n,
{
    if n <= 0 {
        i64::MIN as int
    } else {
        vstd::math::max(
            walls_max_x(s, n - 1),
            vstd::math::max(s[n - 1].a.x as int, s[n - 1].b.x as int),
        )
    }
}

/// The least y coordinate among the first `n` walls' endpoints.
pub open spec fn walls_min_y(s: Seq<Wall>, n: int) -> int
    decreases n,
{
    if n <= 0 {
        i64::MAX as int
    } else {
        vstd::math::min(
            walls_min_y(s, n - 1),
            vstd::math::min(s[n - 1].a.y as int, s[n - 1].b.y as int),
        )
    }
}

/// The greatest y coordinate among the first `n` walls' endpoints.
pub open spec fn walls_max_y(s: Seq<Wall>, n: int) -> int
    decreases n,
{
    if n <= 0 {
        i64::MIN as int
    } else {
        vstd::math::max(
            walls_max_y(s, n - 1),
            vstd::math::max(s[n - 1].a.y as int, s[n - 1].b.y as int),
        )
    }
}

/// Render-distance cutoff, at the map level: whatever hit a ray's sweep of
/// a wall list reports, its raw distance lies within `max_toi` - a wall
/// beyond the render distance is never returned, even if the ray
/// geometrically intersects it.
pub proof fn lemma_render_distance_cutoff(ray: Ray, walls: Seq<Wall>, max_toi: u64)
    requires
        nearest_spec(candidates_spec(ray, walls), max_toi).is_some(),
    ensures
        nearest_spec(candidates_spec(ray, walls), max_toi).unwrap().0 <= max_toi,
{
    lemma_nearest_within_cutoff(candidates_spec(ray, walls), walls.len() as int, max_toi);
}

/// A map with no walls is valid: every ray resolves to no hit.
pub proof fn lemma_empty_map_no_hit(ray: Ray, walls: Seq<Wall>, max_toi: u64)
    requires
        walls.len() == 0,
    ensures
        nearest_spec(candidates_spec(ray, walls), max_toi) is None,
{
}

/// Nearest-hit correctness, at the map level: if the ray strikes wall `i`
/// within the cutoff, a hit is reported, and it is at most that wall's
/// distance away.
pub proof fn lemma_nearest_hit_minimal(ray: Ray, walls: Seq<Wall>, max_toi: u64, i: int)
    requires
        0 <= i < walls.len(),
        ray.hits(walls[i]),
        hit_dist(ray, walls[i]) <= max_toi,
        0 <= hit_dist(ray, walls[i]),
    ensures
        nearest_spec(candidates_spec(ray, walls), max_toi).is_some(),
        nearest_spec(candidates_spec(ray, walls), max_toi).unwrap().0 <= hit_dist(ray, walls[i]),
{
    let s = candidates_spec(ray, walls);
    assert(s[i].0 == Some(hit_dist(ray, walls[i]) as u64));
    lemma_nearest_is_min(s, walls.len() as int, max_toi, i);
}

impl WorldMap {
    /// Folds a list of per-wall candidates to the nearest accepted hit.
    pub fn nearest_collision(collisions: &Vec<(Option<u64>, usize)>, max_toi: u64) -> (r: Option<
        (u64, usize),
    >)
        ensures
            r == nearest_spec(collisions@, max_toi),
    {
        let mut acc: Option<(u64, usize)> = None;
        let mut i: usize = 0;
        while i < collisions.len()
            invariant
                0 <= i <= collisions@.len(),
                acc == nearest_upto(collisions@, i as int, max_toi),
            decreases collisions@.len() - i,
        {
            let (cand, color) = collisions[i];
            match cand {
                Some(d) => {
                    let closer = match acc {
                        Some(p) => d < p.0,
                        None => true,
                    };
                    if d <= max_toi && closer {
                        acc = Some((d, color));
                    }
                },
                None => {},
            }
            i = i + 1;
        }
        acc
    }

    /// Every wall lies inside the bounding box.
    pub open spec fn wf(self) -> bool {
        forall|i: int| 0 <= i < self.walls@.len() ==> #[trigger] self.walls@[i].in_dims(self.dims)
    }

    /// An empty map of the given dimensions.
    pub fn new(sz: (u32, u32)) -> (r: Self)
        ensures
            r.walls@.len() == 0,
            r.dims == sz,
            r.wf(),
    {
        WorldMap { walls: Vec::new(), dims: sz }
    }

    /// Appends one wall; map-authoring only, not part of the render loop.
    pub fn push_wall(&mut self, wall: Wall)
        requires
            wall.in_dims(old(self).dims),
        ensures
            final(self).walls@ == old(self).walls@.push(wall),
            final(self).dims == old(self).dims,
            old(self).wf() ==> final(self).wf(),
    {
        self.walls.push(wall);
    }

    /// The bounding dimensions, in map units.
    pub fn dims(&self) -> (r: (u32, u32))
        ensures
            r == self.dims,
    {
        self.dims
    }

    /// A built-in 100 by 100 debugging layout: four border walls, an
    /// axis-aligned cross, and a diagonal cross.
    pub fn debug() -> (r: Self)
        ensures
            r.wf(),
            r.dims == (100u32, 100u32),
            r.walls@.len() == 8,
    {
        let mut m = WorldMap::new((100, 100));
        let a = Vec2D::from_map_units(0, 0);
        let b = Vec2D::from_map_units(0, 100);
        let c = Vec2D::from_map_units(100, 100);
        let d = Vec2D::from_map_units(100, 0);
        m.push_wall(Wall::new(a, b, 2));
        m.push_wall(Wall::new(b, c, 2));
        m.push_wall(Wall::new(c, d, 2));
        m.push_wall(Wall::new(d, a, 2));
        m.push_wall(Wall::new(Vec2D::from_map_units(50, 25), Vec2D::from_map_units(50, 75), 3));
        m.push_wall(Wall::new(Vec2D::from_map_units(25, 50), Vec2D::from_map_units(75, 50), 3));
        m.push_wall(Wall::new(Vec2D::from_map_units(25, 25), Vec2D::from_map_units(75, 75), 4));
        m.push_wall(Wall::new(Vec2D::from_map_units(25, 75), Vec2D::from_map_units(75, 25), 4));
        m
    }

    /// A built-in convex room of six walls inside a 1000 by 1000 box.
    pub fn convex() -> (r: Self)
        ensures
            r.wf(),
            r.dims == (1000u32, 1000u32),
            r.walls@.len() == 6,
    {
        let mut m = WorldMap::new((1000, 1000));
        let p0 = Vec2D::from_map_units(250, 375);
        let p1 = Vec2D::from_map_units(500, 200);
        let p2 = Vec2D::from_map_units(750, 625);
        let p3 = Vec2D::from_map_units(750, 750);
        let p4 = Vec2D::from_map_units(500, 870);
        let p5 = Vec2D::from_map_units(250, 500);
        m.push_wall(Wall::new(p0, p1, 0));
        m.push_wall(Wall::new(p1, p2, 1));
        m.push_wall(Wall::new(p2, p3, 2));
        m.push_wall(Wall::new(p3, p4, 3));
        m.push_wall(Wall::new(p4, p5, 4));
        m.push_wall(Wall::new(p5, p0, 5));
        m
    }

    /// The center of the walls' bounding box.
    pub fn center_point(&self) -> (r: Vec2D)
        requires
            self.wf(),
            self.walls@.len() > 0,
        ensures
            r.x == (walls_min_x(self.walls@, self.walls@.len() as int) + walls_max_x(
                self.walls@, self.walls@.len() as int)) / 2,
            r.y == (walls_min_y(self.walls@, self.walls@.len() as int) + walls_max_y(
                self.walls@, self.walls@.len() as int)) / 2,
    {
        let mut min_x: i64 = i64::MAX;
        let mut max_x: i64 = i64::MIN;
        let mut min_y: i64 = i64::MAX;
        let mut max_y: i64 = i64::MIN;
        let mut i: usize = 0;
        while i < self.walls.len()
            invariant
                0 <= i <= self.walls@.len(),
                self.wf(),
                min_x == walls_min_x(self.walls@, i as int),
                max_x == walls_max_x(self.walls@, i as int),
                min_y == walls_min_y(self.walls@, i as int),
                max_y == walls_max_y(self.walls@, i as int),
                i > 0 ==> 0 <= min_x && 0 <= max_x && 0 <= min_y && 0 <= max_y,
            decreases self.walls@.len() - i,
        {
            let w = self.walls[i];
            proof {
                assert(self.walls@[i as int].in_dims(self.dims));
            }
            if w.a.x < min_x {
                min_x = w.a.x;
            }
            if w.b.x < min_x {
                min_x = w.b.x;
            }
            if w.a.x > max_x {
                max_x = w.a.x;
            }
            if w.b.x > max_x {
                max_x = w.b.x;
            }
            if w.a.y < min_y {
                min_y = w.a.y;
            }
            if w.b.y < min_y {
                min_y = w.b.y;
            }
            if w.a.y > max_y {
                max_y = w.a.y;
            }
            if w.b.y > max_y {
                max_y = w.b.y;
            }
            i = i + 1;
        }
        Vec2D::new(
            (((min_x as u64) + (max_x as u64)) / 2) as i64,
            (((min_y as u64) + (max_y as u64)) / 2) as i64,
        )
    }

    /// Casts the ray against every wall and keeps the nearest hit within
    /// `max_toi`: the raw distance and the material index.
    pub fn get_collision(&self, ray: &Ray, max_toi: u64) -> (r: Option<(u64, usize)>)
        requires
            self.wf(),
            ray.wf(),
        ensures
            r == nearest_spec(candidates_spec(*ray, self.walls@), max_toi),
    {
        let mut collisions: Vec<(Option<u64>, usize)> = Vec::new();
        let mut i: usize = 0;
        while i < self.walls.len()
            invariant
                0 <= i <= self.walls@.len(),
                self.wf(),
                ray.wf(),
                collisions@.len() == i as int,
                forall|j: int| 0 <= j < i as int ==> collisions@[j] == #[trigger] candidates_spec(
                    *ray, self.walls@)[j],
            decreases self.walls@.len() - i,
        {
            let wall = self.walls[i];
            proof {
                assert(self.walls@[i as int].in_dims(self.dims));
                assert(self.dims.0 as int * SCALE <= 0x4_0000_0000_0000);
                assert(self.dims.1 as int * SCALE <= 0x4_0000_0000_0000);
            }
            let cand: Option<u64> = match ray.intersects(&wall) {
                Some(p) => Some(ray.origin.dist(&p)),
                None => None,
            };
            collisions.push((cand, wall.color_index));
            i = i + 1;
        }
        proof {
            assert(collisions@ =~= candidates_spec(*ray, self.walls@));
        }
        WorldMap::nearest_collision(&collisions, max_toi)
    }
}

} // verus!
