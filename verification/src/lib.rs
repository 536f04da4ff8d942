//! A verified core for a grid-based arcade game: a segmented creature moves
//! across a toroidal grid in fixed-point sub-cell steps, grows when it eats
//! food, and dies on self-collision.
//!
//! Positions are held in integer sub-cell units (`SUBCELL` units per grid
//! cell), so every movement, wrap and collision rule is proved exactly.

pub mod game;
pub mod snake;
