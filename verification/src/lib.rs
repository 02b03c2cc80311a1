//! The rules of an Arkanoid clone: level data, the levelset file format, the
//! game's state machine and score keeping, the sprite atlas, and the plan of
//! what a frame draws.
//!
//! Nothing here does arithmetic on positions and speeds. Types that carry such
//! quantities are generic in them, and the front end that owns the physics
//! reports what its bodies did.

pub mod assets;
pub mod bench;
pub mod chance;
pub mod cli;
pub mod display;
pub mod events;
pub mod frame_laws;
pub mod game;
pub mod game_laws;
pub mod levels;
pub mod levelset;
pub mod levelset_laws;
pub mod order;
pub mod render;
pub mod render3d;
pub mod sheet;
pub mod step_laws;
pub mod text;
pub mod tick_laws;
