//! The integer side of the player: which cells around the body are probed
//! for collisions, and what the keyboard does to the controller.

pub mod collision;
pub mod controller;
