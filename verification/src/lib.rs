//! Inverse kinematics for limb chains in whole numbers, and the rules of the character that
//! uses them: its feet, its bones, its movement keys and what it sees and hears.
//!
//! Space is measured in whole units. What a unit is, the caller decides: the engine's metre
//! divided by 65536, say. Lengths and tolerances are counted in the same units. Coordinates
//! stay inside the bounds of [`vec3`], so that no step of the arithmetic can overflow, and
//! every operation says how far its result can be from the exact one.
//!
//! [`ik::ik`] bends a chain toward a goal; [`laws`] holds what is proved of every pose that it
//! returns.

pub mod controller;
pub mod gait;
pub mod humanoid;
pub mod ik;
pub mod laws;
pub mod lightning;
pub mod player;
pub mod scale;
pub mod scene;
pub mod sqrt;
pub mod vec3;
