//! Server-authoritative movement core of a networked multiplayer game.
//!
//! The core resolves the player behind each input event, checks the
//! time-windowed "last touched" gate, turns directional input into torque on
//! the player's rigid body, attaches the visual and physical representation to
//! bare player entities once the roster is full, and publishes the simulated
//! transform as the authoritative network record.
//!
//! All quantities are fixed-point integers: one unit of length, force or
//! gravity is [`math::ONE`], and one second of simulated time is
//! [`world::SECOND`] ticks of the simulation clock. Every result is an exact
//! function of its inputs, the same on every machine, and no operation of the
//! core can overflow, divide by zero or fail: a tick is never aborted.

pub mod math;
pub mod physics;
pub mod player;
pub mod protocol;
pub mod registry;
pub mod server_input;
pub mod world;
