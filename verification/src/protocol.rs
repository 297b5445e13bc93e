//! What travels between the server and its clients.

use vstd::prelude::*;
use crate::math::{Quat, Vec3};

verus! {

/// The identifier that the network layer assigns to a connected client.
#[derive(Debug, Clone, Copy, PartialEq, Eq, Structural)]
pub struct ClientId(pub u64);

/// The colour assigned to a player, as red, green and blue.
#[derive(Debug, Clone, Copy, PartialEq, Eq, Structural)]
pub struct Color {
    pub red: u8,
    pub green: u8,
    pub blue: u8,
}

/// The authoritative position and rotation of a player.
#[derive(Debug, Clone, Copy, PartialEq, Eq, Structural)]
pub struct PlayerPosition(pub Vec3, pub Quat);

/// The colour of a player.
#[derive(Debug, Clone, Copy, PartialEq, Eq, Structural)]
pub struct PlayerColor(pub Color);

/// The directional flags of one input.
#[derive(Debug, Clone, Copy, PartialEq, Eq, Structural)]
pub struct Direction {
    pub forward: bool,
    pub back: bool,
    pub left: bool,
    pub right: bool,
    pub reset: bool,
}

/// The payload of an input event.
#[derive(Debug, Clone, Copy, PartialEq, Eq, Structural)]
pub enum Inputs {
    /// Directional intent.
    Direction(Direction),
    /// Any input without directional intent.
    Idle,
}

/// One input received from a client.
#[derive(Debug, Clone, Copy, PartialEq, Eq, Structural)]
pub struct InputEvent {
    /// The client that sent the input.
    pub from: ClientId,
    /// What the client sent, if anything.
    pub input: Option<Inputs>,
}

} // verus!
