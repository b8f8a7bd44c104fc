//! A particle simulation's decision logic: how keyboard and window events steer
//! the simulation, which physics phases a frame runs, how particles are tinted,
//! how a particle system grows, and how close encounters are counted.

pub mod controls;
pub mod event;
pub mod collide;
pub mod system;
pub mod frame;
pub mod tint;
pub mod pairs;
