//! A small library for a daemon that watches hardware input devices being
//! attached or detached and reacts by running configured commands and showing
//! desktop notifications.
//!
//! The library holds the verified core: the configuration model with its
//! text format (a TOML subset), device-identity matching, and the dispatch
//! rules that decide which notifications and commands an event triggers.
//! The surrounding binary performs the actual I/O: reading and writing the
//! configuration file, polling the device subsystem, spawning commands and
//! showing notifications.

pub mod config;
pub mod device;
pub mod manager;
pub mod text;
pub mod command;
pub mod ser;
pub mod parse;
pub mod roundtrip;

use vstd::prelude::*;

verus! {

/// Milliseconds slept between polls of the device-event channel when no
/// event is pending.
pub const SLEEP_DURATION: u64 = 1000;

} // verus!
