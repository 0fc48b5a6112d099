//! The marks that tell the player's entities apart.

use vstd::prelude::*;

verus! {

/// Marks the entity that the movement keys steer.
#[derive(Clone, Copy, Debug, PartialEq, Eq, Structural)]
pub struct Controllable;

/// Marks the player's humanoid.
#[derive(Clone, Copy, Debug, PartialEq, Eq, Structural)]
pub struct Player;

/// Marks an entity that the player can aim at.
#[derive(Clone, Copy, Debug, PartialEq, Eq, Structural)]
pub struct PlayerTargetSet;

} // verus!
