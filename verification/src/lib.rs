//! A periodic traffic-counter telemetry library.
//!
//! The library turns semi-structured counter listings into typed samples,
//! assembles per-interface snapshots, renders them as a canonical JSON
//! document, and drives a poll/publish lifecycle as an explicit state
//! machine.  All I/O (subprocess queries, file writes, timers, signals)
//! stays with the embedding program; the logic here is pure and verified.

pub mod config;
pub mod control;
pub mod parse;
pub mod publish;
pub mod reader;
pub mod snapshot;

use vstd::prelude::*;

verus! {

/// One point-in-time reading of a named traffic counter.
#[derive(Clone, Copy, PartialEq, Eq, Structural, Debug)]
pub struct CounterSample {
    pub packets: u64,
    pub bytes: u64,
}

impl CounterSample {
    /// The sentinel sample substituted when a counter cannot be read.
    pub fn zero() -> (s: CounterSample)
        ensures
            s.packets == 0,
            s.bytes == 0,
    {
        CounterSample { packets: 0, bytes: 0 }
    }
}

} // verus!
