//! Turns continuous per-key analog depth telemetry from a keyboard into MIDI
//! note and aftertouch events.
//!
//! Depths, velocities and pressures are fixed-point fractions of one full key
//! travel: the value `DEPTH_SCALE` stands for a fully pressed key, `0` for a
//! released one.  Timestamps are integer microseconds supplied by the caller.
//! Reading the analog device and transmitting MIDI bytes are left to the
//! embedding program; the library decides which events to emit and how they
//! are encoded.

pub mod config;
pub mod engine;
pub mod key;
pub mod laws;
pub mod note;

pub use engine::MidiService;

use vstd::prelude::*;

verus! {

/// Fixed-point representation of a depth of 1.0 (full key travel).
pub const DEPTH_SCALE: u32 = 1_000_000;

} // verus!
