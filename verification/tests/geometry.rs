//! Vector, trig, and arithmetic tests.

use raycaster::config::SCALE;
use raycaster::num::{isqrt, mod_euclid};
use raycaster::trig::{cos_fp, sin_fp};
use raycaster::util::{max_vals_points, remap, to_degs, to_rads};
use raycaster::vector::{Ray, Vec2D};
use raycaster::wall::Wall;

#[test]
fn test_degs_rads() {
    let a: i64 = 10;
    let b = to_degs(to_rads(a));
    assert_eq!(a, b);
}

#[test]
fn test_max_vals_points() {
    let points = vec![
        Vec2D::new(50, 0),
        Vec2D::new(0, 0),
        Vec2D::new(10, 0),
        Vec2D::new(0, 10),
        Vec2D::new(0, 0),
        Vec2D::new(0, 0),
        Vec2D::new(0, 110),
        Vec2D::new(10, 0),
    ];

    let (mx, my) = max_vals_points(&points);
    assert_eq!(mx, 50);
    assert_eq!(my, 110);
}

#[test]
fn max_vals_points_empty_is_sentinel() {
    let points: Vec<Vec2D> = Vec::new();
    assert_eq!(max_vals_points(&points), (i64::MAX, i64::MAX));
}

#[test]
fn sine_is_exact_on_axes() {
    assert_eq!(sin_fp(0), 0);
    assert_eq!(sin_fp(5760), SCALE);
    assert_eq!(sin_fp(11520), 0);
    assert_eq!(sin_fp(17280), -SCALE);
    assert_eq!(cos_fp(0), SCALE);
    assert_eq!(cos_fp(5760), 0);
    assert_eq!(cos_fp(11520), -SCALE);
}

#[test]
fn sine_of_thirty_degrees_is_half() {
    assert_eq!(sin_fp(1920), 512);
}

#[test]
fn sine_is_periodic_and_odd() {
    assert_eq!(sin_fp(23040 + 1920), sin_fp(1920));
    assert_eq!(sin_fp(-5760), -SCALE);
}

#[test]
fn isqrt_rounds_down() {
    assert_eq!(isqrt(0), 0);
    assert_eq!(isqrt(24), 4);
    assert_eq!(isqrt(25), 5);
    assert_eq!(isqrt(26), 5);
}

#[test]
fn mod_euclid_wraps_negatives() {
    assert_eq!(mod_euclid(-1, 23040), 23039);
    assert_eq!(mod_euclid(23041, 23040), 1);
    assert_eq!(mod_euclid(0, 23040), 0);
}

#[test]
fn dist_is_euclidean() {
    let a = Vec2D::new(0, 0);
    let b = Vec2D::new(3, 4);
    assert_eq!(a.dist(&b), 5);
}

#[test]
fn remap_rescales_linearly() {
    assert_eq!(remap(5, 0, 10, 0, 100), 50);
    assert_eq!(remap(0, 0, 1080, 255, 0), 255);
    assert_eq!(remap(1080, 0, 1080, 255, 0), 0);
    assert_eq!(remap(540, 0, 1080, 255, 0), 128);
}

#[test]
fn scale_to_rescales_magnitude() {
    let v = Vec2D::new(3, 4);
    let r = v.scale_to(100);
    assert_eq!(r.x_y(), (60, 80));
}

#[test]
fn normalize_gives_unit_scale() {
    let v = Vec2D::new(300, 400);
    let r = v.normalize();
    assert_eq!(r.x_y(), (614, 819));
}

#[test]
fn clamp_pins_into_padded_box() {
    let mut v = Vec2D::new(-5 * SCALE, 50 * SCALE);
    v.clamp((100, 100), 10 * SCALE);
    assert_eq!(v.x(), 10 * SCALE);
    assert_eq!(v.y(), 50 * SCALE);

    let mut w = Vec2D::new(50 * SCALE, 120 * SCALE);
    w.clamp((100, 100), 10 * SCALE);
    assert_eq!(w.x(), 50 * SCALE);
    assert_eq!(w.y(), 90 * SCALE);
}

#[test]
fn translate_adds_in_place() {
    let mut v = Vec2D::new(1, 2);
    let r = v.translate(&Vec2D::new(10, 20));
    assert_eq!(v.x_y(), (11, 22));
    assert_eq!(r.x_y(), (11, 22));
}

#[test]
fn intersects_hits_crossing_wall() {
    let ray = Ray::new(Vec2D::from_map_units(0, 0), 0);
    let wall = Wall::new(
        Vec2D::from_map_units(10, -5),
        Vec2D::from_map_units(10, 5),
        0,
    );
    let hit = ray.intersects(&wall).unwrap();
    assert_eq!(hit.x_y(), (10 * SCALE, 0));
}

#[test]
fn intersects_is_deterministic() {
    let ray = Ray::new(Vec2D::from_map_units(1, 2), 777);
    let wall = Wall::new(
        Vec2D::from_map_units(10, -5),
        Vec2D::from_map_units(10, 7),
        0,
    );
    let first = ray.intersects(&wall).is_some();
    let second = ray.intersects(&wall).is_some();
    assert_eq!(first, second);
}

#[test]
fn intersects_misses_wall_endpoint() {
    // The ray along +x at y == 0 grazes the wall exactly at its first
    // endpoint: the open interval classifies that as no hit.
    let ray = Ray::new(Vec2D::from_map_units(0, 0), 0);
    let wall = Wall::new(
        Vec2D::from_map_units(10, 0),
        Vec2D::from_map_units(10, 10),
        0,
    );
    assert!(ray.intersects(&wall).is_none());
}

#[test]
fn intersects_misses_parallel_wall() {
    let ray = Ray::new(Vec2D::from_map_units(0, 0), 0);
    let wall = Wall::new(
        Vec2D::from_map_units(5, 1),
        Vec2D::from_map_units(10, 1),
        0,
    );
    assert!(ray.intersects(&wall).is_none());
}

#[test]
fn intersects_misses_wall_behind() {
    let ray = Ray::new(Vec2D::from_map_units(0, 0), 0);
    let wall = Wall::new(
        Vec2D::from_map_units(-10, -5),
        Vec2D::from_map_units(-10, 5),
        0,
    );
    assert!(ray.intersects(&wall).is_none());
}
