//! Engine-wide constants.
//!
//! All geometry runs on fixed-point integers: a map unit is `SCALE`
//! fixed-point units, and a full turn of angle is `FULL_TURN` angle units
//! (so one degree is `UNITS_PER_DEGREE` angle units).

use vstd::prelude::*;

verus! {

/// Fixed-point one: 1 map unit == `SCALE` fixed-point units.
pub const SCALE: i64 = 1024;

/// A full turn of angle, in angle units.
pub const FULL_TURN: i64 = 23040;

/// Half a turn (the straight angle).
pub const HALF_TURN: i64 = 11520;

/// A quarter turn (the right angle).
pub const QUARTER_TURN: i64 = 5760;

/// One degree, in angle units.
pub const UNITS_PER_DEGREE: i64 = 64;

/// Bound on every coordinate the geometry handles, in fixed-point units;
/// keeps all intersection arithmetic inside `i128`.
pub const COORD_LIMIT: i64 = 0x1000_0000_0000;

/// Camera speed per tick: 2.5 map units, in fixed-point units.
pub const MOVE_SPEED: i64 = 2560;

/// Heading change per unit of pointer motion, in angle units.
pub const MOUSE_SENSITIVITY: i64 = 36;

/// How close the camera may come to the map border: 10 map units,
/// in fixed-point units.
pub const PLAYER_WALL_PADDING: i64 = 10240;

/// Reference height of a wall, in map units.
pub const WALL_ACTUAL_HEIGHT: i64 = 48;

/// Width of the rendered frame, in pixels.
pub const WINDOW_WIDTH: u32 = 1920;

/// Height of the rendered frame, in pixels.
pub const WINDOW_HEIGHT: u32 = 1080;

/// The horizontal field of view: 60 degrees, in angle units.
pub const RENDER_FOV: i64 = 3840;

/// Farthest hit the sweep accepts: 1000 map units, in fixed-point units.
pub const RENDER_DISTANCE: i64 = 1024000;

/// Every unit direction vector has a component of at least this size
/// (see `trig::lemma_unit_sq_mag_lower`).
pub const MIN_UNIT_COMPONENT: i64 = 512;

/// Frame pacing and overlay options for the surrounding application shell.
pub struct AppConfig {
    max_fps: Option<u8>,
    show_fps_counter: bool,
}

/// The frame budget for a nonzero frame rate, in microseconds, rounded to
/// the nearest whole microsecond.
pub open spec fn frame_budget_micros(fps: u8) -> int {
    (1000000 + fps / 2) / (fps as int)
}

impl AppConfig {
    /// A stored frame cap is never zero.
    pub closed spec fn wf(self) -> bool {
        self.max_fps != Some(0u8)
    }

    /// The stored frame cap.
    pub closed spec fn max_fps_spec(self) -> Option<u8> {
        self.max_fps
    }

    /// Whether the frame counter overlay is on.
    pub closed spec fn show_fps_spec(self) -> bool {
        self.show_fps_counter
    }

    /// Caps the frame rate; a cap of zero frames per second is meaningless,
    /// so callers must not ask for one.
    pub fn set_max_fps(self, max_fps: u8) -> (r: Self)
        requires
            max_fps != 0,
        ensures
            r.max_fps_spec() == Some(max_fps),
            r.show_fps_spec() == self.show_fps_spec(),
            r.wf(),
    {
        AppConfig { max_fps: Some(max_fps), show_fps_counter: self.show_fps_counter }
    }

    /// Removes the frame cap.
    pub fn no_fps_limit(self) -> (r: Self)
        ensures
            r.max_fps_spec() is None,
            r.show_fps_spec() == self.show_fps_spec(),
            r.wf(),
    {
        AppConfig { max_fps: None, show_fps_counter: self.show_fps_counter }
    }

    /// Switches the frame counter overlay on or off.
    pub fn show_fps_counter(self, show_fps_counter: bool) -> (r: Self)
        ensures
            r.max_fps_spec() == self.max_fps_spec(),
            r.show_fps_spec() == show_fps_counter,
            self.wf() ==> r.wf(),
    {
        AppConfig { max_fps: self.max_fps, show_fps_counter }
    }

    /// Whether the frame counter overlay should be drawn.
    pub fn shows_fps(&self) -> (r: bool)
        ensures
            r == self.show_fps_spec(),
    {
        self.show_fps_counter
    }

    /// The frame budget in microseconds, or nothing when uncapped.
    pub fn frame_time_micros(&self) -> (r: Option<u64>)
        requires
            self.wf(),
        ensures
            match self.max_fps_spec() {
                Some(f) => r == Some(frame_budget_micros(f) as u64),
                None => r is None,
            },
    {
        match self.max_fps {
            Some(f) => Some((1000000u64 + (f / 2) as u64) / (f as u64)),
            None => None,
        }
    }

    /// Whether the frame limiter should keep waiting after `elapsed`
    /// microseconds of this frame; the application shell loops on this.
    pub fn should_wait(&self, elapsed_micros: u64) -> (r: bool)
        requires
            self.wf(),
        ensures
            r == match self.max_fps_spec() {
                Some(f) => elapsed_micros < frame_budget_micros(f),
                None => false,
            },
    {
        match self.frame_time_micros() {
            Some(t) => elapsed_micros < t,
            None => false,
        }
    }
}

impl Default for AppConfig {
    /// 60 frames per second, with the counter shown.
    fn default() -> (r: Self)
        ensures
            r.max_fps_spec() == Some(60u8),
            r.show_fps_spec() == true,
            r.wf(),
    {
        AppConfig { max_fps: Some(60), show_fps_counter: true }
    }
}

} // verus!
