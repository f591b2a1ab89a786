//! A two-paddle ball game simulated on an integer grid: integration of
//! positions, circle-versus-box collisions, paddle control, scoring and reset,
//! each step with a contract over a mathematical model of the entities.

pub mod geometry;
pub mod entity;
pub mod movement;
pub mod collision;
pub mod control;
pub mod scoring;
pub mod game;
pub mod laws;
