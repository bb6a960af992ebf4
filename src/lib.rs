//! Core of a traffic-policing daemon: per-address sliding-window rate evaluation, a
//! firewall controller that keeps a registry of the rules it installed, and the
//! bookkeeping of the pool of firewall-program processes.
//!
//! Everything here is plain computation with contracts; running the firewall program,
//! reading the clock and the traffic counters is left to the caller, which hands the
//! results in as values.
use vstd::prelude::*;

pub mod commands;
pub mod engine;
pub mod firewall;
pub mod laws;
pub mod output;
pub mod pool;
pub mod text;
pub mod types;
pub mod window;

verus! {

} // verus!
