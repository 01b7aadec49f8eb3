//! The simulation core of an asteroids game on a plane that wraps around at
//! its edges: entities and their components, motion, collision detection,
//! what collisions do, and the data a renderer draws a frame from.
//!
//! All lengths, speeds and rotations are fixed-point integers, so that every
//! rule of the game is exact and the same on every machine.

pub mod arith;
pub mod clock;
pub mod collision;
pub mod components;
pub mod entity;
pub mod factory;
pub mod gamestate;
pub mod geometry;
pub mod laws;
pub mod names;
pub mod random;
pub mod registry;
pub mod render;
pub mod resolve;
pub mod resource;
pub mod rotation;
pub mod shaders;
pub mod systems;
pub mod world;
