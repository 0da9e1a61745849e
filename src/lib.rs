//! A small pausable simulation of chain-reacting explosions: clicking spawns a
//! growing explosion, and bombs caught inside one detonate in turn, each
//! generation one level deeper than the explosion that set it off; and a box
//! bouncing around a frame buffer.
pub mod geometry;
pub mod clock;
pub mod explosion;
pub mod breakable;
pub mod chain;
pub mod world;
pub mod bouncing;
