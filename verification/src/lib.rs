//! A 2.5D raycasting renderer core on fixed-point integer geometry.
//!
//! The camera lives in a 2D map of straight wall segments. Each tick it
//! applies a movement command (normalized so diagonals are no faster, and
//! clamped to the map), then sweeps one viewing ray per screen column,
//! finds the nearest wall each ray strikes, corrects the distance for the
//! fisheye artifact, and projects a wall height per column. A thin
//! presentation layer turns the resulting column buffer and camera pose
//! into drawable strips and a top-down minimap.
//!
//! All arithmetic is integer: map coordinates carry `config::SCALE`
//! fixed-point units per map unit, and angles are binary units with
//! `config::FULL_TURN` to the turn, so the ray/segment intersection test is
//! exact and every stated property is proved, not approximated.

pub mod config;
pub mod map;
pub mod num;
pub mod render;
pub mod state;
pub mod trig;
pub mod util;
pub mod vector;
pub mod wall;
