//! Behaviour and movement of the creatures of a top-down action game, in
//! fixed point: steering, triggers, behaviour graphs, the motion integrator,
//! spawners, and the world tick that runs them over a snapshot of positions.
pub mod archetype;
pub mod behaviour;
pub mod motion;
pub mod random;
pub mod spawner;
pub mod steering;
pub mod timer;
pub mod trigger;
pub mod vector;
pub mod world;
