//! Map and nearest-collision tests.

use raycaster::config::SCALE;
use raycaster::map::WorldMap;
use raycaster::vector::{Ray, Vec2D};
use raycaster::wall::Wall;

#[test]
fn test_nearest_collision() {
    let tois: Vec<i64> = vec![50, 120, 10, 11, 500, 30];
    let mut collisions: Vec<(Option<u64>, usize)> = tois
        .iter()
        .map(|toi| (Some((toi * SCALE) as u64), 0usize))
        .collect();
    // 10.5 map units, exactly representable in fixed point.
    collisions.push((Some((10 * SCALE + SCALE / 2) as u64), 0));

    assert_eq!(
        (10 * SCALE) as u64,
        WorldMap::nearest_collision(&collisions, (1000 * SCALE) as u64).unwrap().0
    );
}

fn three_wall_map() -> WorldMap {
    // Three vertical walls across the +x ray from (20, 100): at raw
    // distances 50, 10 and 30 map units, in that iteration order.
    let mut m = WorldMap::new((200, 200));
    m.push_wall(Wall::new(
        Vec2D::from_map_units(70, 90),
        Vec2D::from_map_units(70, 110),
        0,
    ));
    m.push_wall(Wall::new(
        Vec2D::from_map_units(30, 90),
        Vec2D::from_map_units(30, 110),
        1,
    ));
    m.push_wall(Wall::new(
        Vec2D::from_map_units(50, 90),
        Vec2D::from_map_units(50, 110),
        2,
    ));
    m
}

#[test]
fn nearest_hit_wins() {
    let m = three_wall_map();
    let ray = Ray::new(Vec2D::from_map_units(20, 100), 0);
    let hit = m.get_collision(&ray, (1000 * SCALE) as u64).unwrap();
    assert_eq!(hit.0, (10 * SCALE) as u64);
    assert_eq!(hit.1, 1);
}

#[test]
fn render_distance_cuts_off_hits() {
    // A wall five units beyond the cutoff is treated as no hit even though
    // the ray geometrically intersects it.
    let mut m = WorldMap::new((200, 200));
    m.push_wall(Wall::new(
        Vec2D::from_map_units(70, 90),
        Vec2D::from_map_units(70, 110),
        0,
    ));
    let ray = Ray::new(Vec2D::from_map_units(20, 100), 0);
    assert!(m.get_collision(&ray, (20 * SCALE) as u64).is_none());
    assert!(m.get_collision(&ray, (50 * SCALE) as u64).is_some());
}

#[test]
fn cutoff_drops_far_walls_from_nearest() {
    let m = three_wall_map();
    let ray = Ray::new(Vec2D::from_map_units(20, 100), 0);
    // Only the wall at distance 10 is within a cutoff of 20.
    let hit = m.get_collision(&ray, (20 * SCALE) as u64).unwrap();
    assert_eq!(hit.0, (10 * SCALE) as u64);
    assert_eq!(hit.1, 1);
}

#[test]
fn empty_map_never_collides() {
    let m = WorldMap::new((100, 100));
    let ray = Ray::new(Vec2D::from_map_units(50, 50), 123);
    assert!(m.get_collision(&ray, (1000 * SCALE) as u64).is_none());
}

#[test]
fn debug_map_has_eight_walls() {
    let m = WorldMap::debug();
    assert_eq!(m.walls.len(), 8);
    assert_eq!(m.dims(), (100, 100));
}

#[test]
fn convex_map_has_six_walls() {
    let m = WorldMap::convex();
    assert_eq!(m.walls.len(), 6);
    assert_eq!(m.dims(), (1000, 1000));
}

#[test]
fn center_point_is_bounding_box_middle() {
    let m = WorldMap::debug();
    let c = m.center_point();
    assert_eq!(c.x_y(), (50 * SCALE, 50 * SCALE));
}

#[test]
fn push_wall_appends() {
    let mut m = WorldMap::new((100, 100));
    assert_eq!(m.walls.len(), 0);
    m.push_wall(Wall::new(
        Vec2D::from_map_units(1, 1),
        Vec2D::from_map_units(2, 2),
        3,
    ));
    assert_eq!(m.walls.len(), 1);
    assert_eq!(m.walls[0].color_index, 3);
}

#[test]
fn wall_points_and_map_into() {
    let w = Wall::new(
        Vec2D::from_map_units(0, 0),
        Vec2D::from_map_units(100, 100),
        0,
    );
    let pts = w.points();
    assert_eq!(pts.len(), 2);
    assert_eq!(pts[0].x_y(), (0, 0));
    assert_eq!(pts[1].x_y(), (100 * SCALE, 100 * SCALE));

    let mapped = w.map_into((100, 100), (50, 50));
    assert_eq!(mapped[0].x_y(), (0, 0));
    assert_eq!(mapped[1].x_y(), (50 * SCALE, 50 * SCALE));
}
