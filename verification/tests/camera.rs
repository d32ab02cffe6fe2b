//! Camera movement, sweep, rendering, and frame-pacing tests.

use raycaster::config::{AppConfig, MOVE_SPEED, SCALE};
use raycaster::map::WorldMap;
use raycaster::render::{default_palette, frame_strips, minimap_scene, Rgb};
use raycaster::state::{corrected_distance, MoveIntents, State, HALF_TURN_ANGLE};
use raycaster::vector::Vec2D;
use raycaster::wall::Wall;

fn no_keys() -> MoveIntents {
    MoveIntents { forward: false, backward: false, left: false, right: false }
}

fn displacement_sq(before: Vec2D, after: Vec2D) -> i64 {
    let dx = after.x() - before.x();
    let dy = after.y() - before.y();
    dx * dx + dy * dy
}

#[test]
fn forward_movement_magnitude_is_move_speed() {
    let mut st = State::new(WorldMap::new((1000, 1000)), 16);
    let before = st.position;
    let mut keys = no_keys();
    keys.forward = true;
    st.update_camera(&keys);
    let sq = displacement_sq(before, st.position);
    assert!((MOVE_SPEED - 2) * (MOVE_SPEED - 2) <= sq);
    assert!(sq <= (MOVE_SPEED + 8) * (MOVE_SPEED + 8));
    // The initial heading looks along -x exactly, so the step is exact.
    assert_eq!(st.position.x(), before.x() - MOVE_SPEED);
    assert_eq!(st.position.y(), before.y());
}

#[test]
fn diagonal_movement_is_not_faster() {
    // Forward plus strafe-right moves MOVE_SPEED, not MOVE_SPEED * sqrt(2).
    let mut st = State::new(WorldMap::new((1000, 1000)), 16);
    let before = st.position;
    let mut keys = no_keys();
    keys.forward = true;
    keys.right = true;
    st.update_camera(&keys);
    let sq = displacement_sq(before, st.position);
    assert!((MOVE_SPEED - 2) * (MOVE_SPEED - 2) <= sq);
    assert!(sq <= (MOVE_SPEED + 8) * (MOVE_SPEED + 8));
    // Far below the squared magnitude of the un-normalized diagonal.
    assert!(sq < 2 * MOVE_SPEED * MOVE_SPEED - 4 * MOVE_SPEED);
}

#[test]
fn opposed_keys_cancel() {
    let mut st = State::new(WorldMap::new((1000, 1000)), 16);
    let before = st.position;
    let mut keys = no_keys();
    keys.forward = true;
    keys.backward = true;
    st.update_camera(&keys);
    assert_eq!(before.x_y(), st.position.x_y());
}

#[test]
fn movement_is_clamped_to_padding() {
    // Walking into the border for many ticks parks the camera exactly at
    // the padding distance.
    let mut st = State::new(WorldMap::new((25, 25)), 16);
    let mut keys = no_keys();
    keys.forward = true;
    for _ in 0..50 {
        st.update_camera(&keys);
    }
    // Heading is half a turn: forward is -x, so the camera rests at the
    // left padding boundary.
    assert_eq!(st.position.x(), 10 * SCALE);
}

#[test]
fn update_fills_one_column_per_resolution() {
    for res in [1usize, 7, 120] {
        let mut st = State::new(WorldMap::debug(), res);
        st.update(&no_keys());
        assert_eq!(st.columns.len(), res);
        st.update(&no_keys());
        assert_eq!(st.columns.len(), res);
    }
}

#[test]
fn sweep_reports_background_when_nothing_is_hit() {
    let mut st = State::new(WorldMap::new((1000, 1000)), 8);
    st.update(&no_keys());
    for c in st.columns.iter() {
        assert_eq!(*c, (0usize, 0u32));
    }
}

#[test]
fn sweep_sees_a_facing_wall() {
    let mut m = WorldMap::new((200, 200));
    m.push_wall(Wall::new(
        Vec2D::from_map_units(40, 0),
        Vec2D::from_map_units(40, 200),
        2,
    ));
    let mut st = State::new(m, 128);
    st.update(&no_keys());
    // The center column looks straight down the heading and strikes the
    // wall at a raw (and, dead ahead, corrected) distance of 60 units; the
    // projection factor for 128 columns is 5280, so the strip is
    // (5280 * 1024 + 30720) / 61440 = 88 pixels tall, wall material 2.
    assert_eq!(st.projection_factor, 5280);
    let center = st.columns[64];
    assert_eq!(center, (2usize, 88u32));
}

#[test]
fn fisheye_correction_is_identity_straight_ahead() {
    let d = (60 * SCALE) as u64;
    assert_eq!(corrected_distance(d, 0), d);
}

#[test]
fn fisheye_correction_shrinks_at_fov_edge() {
    let d = (60 * SCALE) as u64;
    let at_edge = corrected_distance(d, 1920);
    assert!(at_edge < d);
    assert!(at_edge > 0);
    let other_edge = corrected_distance(d, -1920);
    assert_eq!(at_edge, other_edge);
}

#[test]
fn mouse_motion_turns_and_wraps() {
    let mut st = State::new(WorldMap::debug(), 16);
    assert_eq!(st.angle, HALF_TURN_ANGLE);
    st.mouse_motion(10);
    assert_eq!(st.angle, HALF_TURN_ANGLE + 360);
    st.mouse_motion(-1000);
    assert_eq!(st.angle, 21960);
}

#[test]
fn app_config_frame_budget() {
    let cfg = AppConfig::default();
    assert_eq!(cfg.frame_time_micros(), Some(16667));
    assert!(cfg.shows_fps());

    let capped = cfg.set_max_fps(144);
    assert_eq!(capped.frame_time_micros(), Some(6944));
    assert!(capped.should_wait(6943));
    assert!(!capped.should_wait(6944));

    let uncapped = capped.no_fps_limit();
    assert_eq!(uncapped.frame_time_micros(), None);
    assert!(!uncapped.should_wait(0));

    let quiet = uncapped.show_fps_counter(false);
    assert!(!quiet.shows_fps());
}

#[test]
fn dim_floors_channels_at_zero() {
    let c = Rgb::rgb(128, 255, 0);
    let d = c.dim(200);
    assert_eq!((d.r, d.g, d.b), (0, 55, 0));
}

#[test]
fn palette_has_six_colors_and_white_fallback() {
    let p = default_palette();
    assert_eq!(p.len(), 6);
    let st = State::new(WorldMap::debug(), 16);
    let fallback = st.get_color(99);
    assert_eq!((fallback.r, fallback.g, fallback.b), (255, 255, 255));
    let first = st.get_color(0);
    assert_eq!((first.r, first.g, first.b), (128, 255, 0));
}

#[test]
fn frame_strips_shade_and_center_columns() {
    let mut m = WorldMap::new((200, 200));
    m.push_wall(Wall::new(
        Vec2D::from_map_units(40, 0),
        Vec2D::from_map_units(40, 200),
        1,
    ));
    let mut st = State::new(m, 128);
    st.update(&no_keys());
    let strips = frame_strips(&st);
    assert_eq!(strips.len(), 128);
    for (i, s) in strips.iter().enumerate() {
        assert_eq!(s.center_y, 540);
        assert_eq!(s.width, 1920 / 128);
        assert_eq!(s.height, st.columns[i].1);
    }
}

#[test]
fn minimap_scene_projects_player_and_walls() {
    let mut m = WorldMap::new((200, 200));
    m.push_wall(Wall::new(
        Vec2D::from_map_units(40, 0),
        Vec2D::from_map_units(40, 200),
        1,
    ));
    let st = State::new(m, 16);
    let scene = minimap_scene(&st, (100, 100));
    // The camera starts at (100, 150) in a 200 by 200 map; halving the box
    // puts the marker at (50, 75), in fixed-point pixels.
    assert_eq!(scene.player.x_y(), (50 * SCALE, 75 * SCALE));
    assert_eq!(scene.rays.len(), 3);
    assert_eq!(scene.walls.len(), 1);
    assert_eq!(scene.walls[0].a.x_y(), (20 * SCALE, 0));
    assert_eq!(scene.walls[0].b.x_y(), (20 * SCALE, 100 * SCALE));
}
