//! The per-tick core of a Minecraft Java-Edition game server: logged-in
//! clients, the packets each of them is owed every tick, and the world
//! containers those packets are computed from.
//!
//! Real-valued quantities (positions, angles, velocities, speeds) are
//! fixed-point numbers with twelve fractional bits, see [`fixed`].

pub mod c2s;
pub mod channel;
pub mod chunk;
pub mod client;
pub mod entity;
pub mod event;
pub mod fixed;
pub mod flags;
pub mod geometry;
pub mod ident;
pub mod outbox;
pub mod player_list;
pub mod registry;
pub mod seqs;
pub mod server;
pub mod s2c;
pub mod slotmap;
pub mod tick;
pub mod wire;
pub mod world;

use vstd::prelude::*;

verus! {

/// A count of simulation steps.
pub type Ticks = i64;

/// The nominal number of ticks per second.
pub const STANDARD_TPS: Ticks = 20;

} // verus!
