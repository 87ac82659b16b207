//! A puzzle board of movement-rule tiles, and the engine that moves a
//! player token over it.
//!
//! `tile` and `item` hold the cell contents, `editing_model` the board being
//! edited and the check that makes it playable, `movement` the resolution
//! engine, and `playing_model` a play session with its animation. `editing`
//! and `playing` hold simpler boards of bare tiles.

pub mod direction;
pub mod editing;
pub mod editing_model;
pub mod grid;
pub mod item;
pub mod modes;
pub mod movement;
pub mod playing;
pub mod playing_model;
pub mod tile;
