//! Simulation core of a side-scrolling avoidance game: a body falls under
//! gravity and is steered by discrete jump inputs while obstacles with
//! passable gaps scroll toward it. The core owns body physics, obstacle
//! spawning and retirement, collision detection, scoring, and the discrete
//! game-phase state machine; rendering and input polling live outside it.

pub mod config;
pub mod pipe;
pub mod player;
mod rng;
pub mod track;
pub mod judge;
pub mod sim;

