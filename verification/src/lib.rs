//! A time-stepped simulation of a wireless network of mobile devices: a
//! drone swarm with a command node, a GPS source and adversarial
//! transmitters.  Each discrete tick the model propagates signals, derives a
//! connectivity graph, routes control, GPS and malware messages with a
//! transit delay, and advances every device's internal state.
//!
//! All physical quantities are integers: positions and distances in
//! millimeters, times in milliseconds, signal strengths in thousandths of a
//! strength unit.  The world is a bounded box, so every arithmetic operation
//! is proved free of overflow.
use vstd::prelude::*;

pub mod attack;
pub mod config;
pub mod connections;
pub mod device;
pub mod gps;
pub mod idmaps;
pub mod malware;
pub mod mathphysics;
pub mod networkmodel;
pub mod power;
pub mod queue;
pub mod security;
pub mod signal;
pub mod task;
pub mod trx;

verus! {

/// Length of one discrete simulation step, in milliseconds.
pub const ITERATION_TIME: u64 = 50;

/// A device is considered to have arrived once it is within this distance of
/// its destination, in millimeters.
pub const DESTINATION_RADIUS: u64 = 5_000;

} // verus!
