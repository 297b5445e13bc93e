//! Markers that the game keeps on a materialized player.

use vstd::prelude::*;

verus! {

/// One second of simulated time, in ticks of the simulation clock.
pub const SECOND: u64 = 1_000_000;

/// Whether input for a player is currently translated into forces.
#[derive(Debug, Clone, Copy, PartialEq, Eq, Structural)]
pub enum Gate {
    /// The marker is stale and not sticky: input is ignored.
    Locked,
    /// The marker is fresh or sticky: input is translated.
    Unlocked,
}

/// The actor that last touched a player; zero stands for no one.
#[derive(Debug, Clone, Copy, PartialEq, Eq, Structural)]
pub struct LastTouchedId(pub u64);

/// When a player was last touched, and whether input is always allowed.
///
/// The first field is the time of the touch on the simulation clock, the
/// second the sticky flag.
#[derive(Debug, Clone, Copy, PartialEq, Eq, Structural)]
pub struct LastTouchedTime(pub u64, pub bool);

/// A temporary change of a player's gravity.
#[derive(Debug, Clone, Copy, PartialEq, Eq, Structural)]
pub struct GravityModifier {
    /// The gravity scale to return to.
    pub base_gravity: i64,
    /// Ticks left before gravity returns to the base.
    pub remaining: u64,
    /// The gravity scale in effect.
    pub current: i64,
}

impl LastTouchedTime {
    /// The state at time `now`: unlocked while less than one second has passed
    /// since the touch, or whenever the sticky flag is set.
    pub open spec fn gate_at(self, now: u64) -> Gate {
        if self.1 || now - self.0 < SECOND {
            Gate::Unlocked
        } else {
            Gate::Locked
        }
    }

    /// Derives the state of the input gate from the marker; nothing is cached.
    pub fn gate(&self, now: u64) -> (gate: Gate)
        ensures
            gate == self.gate_at(now),
    {
        if self.1 || now < self.0 || now - self.0 < SECOND {
            Gate::Unlocked
        } else {
            Gate::Locked
        }
    }
}

} // verus!
