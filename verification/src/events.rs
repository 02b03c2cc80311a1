//! What the simulation did during a tick, for other layers to react to.
//!
//! A game appends to its event list while a tick runs; the caller drains the
//! list after every tick, so events never pile up across ticks. Events are
//! notifications, not snapshots: what a reactor can read off the game itself
//! is not repeated here.

use vstd::prelude::*;

use crate::levels::BrickKind;

verus! {

/// The three power-ups a brick can drop.
#[derive(Debug, Clone, Copy, PartialEq, Eq, Structural)]
pub enum PowerUpKind {
    Widen,
    Slow,
    Multiball,
}

/// Something that happened during a tick.
#[derive(Debug, Clone, Copy, PartialEq, Eq, Structural)]
pub enum GameEvent {
    /// A brick took its last hit.
    BrickDestroyed,
    /// A ball fell below the bottom edge. Fires once per ball.
    BallLost,
    /// The last ball on the field was lost and a life was spent.
    LifeLost,
    /// All destructible bricks of the current level are gone.
    LevelCleared,
    /// A power-up began falling from a destroyed brick.
    PowerUpSpawned(PowerUpKind),
    /// The paddle caught a falling power-up.
    PowerUpCaught(PowerUpKind),
    /// The last level was cleared.
    Victory,
    /// Lives reached zero.
    GameOver,
    /// Follows every `BrickDestroyed` with the geometry and kind of the brick,
    /// which is no longer on the board when the event is read.
    BrickDestroyedAt { x: i64, y: i64, width: i64, height: i64, kind: BrickKind },
}

} // verus!
