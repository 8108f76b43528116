//! Session broker for a remote-desktop-over-terminal gateway.
//!
//! The crate owns the broker's core state: a bounded display-number
//! allocator, a session registry with idle eviction, process-wide session
//! metrics, and the relay state machine that sequences server-to-client
//! frames. Process supervision, networking and log I/O live outside the
//! crate and drive this state through the public functions here.

pub mod xpra_config;
pub mod xpra_log_analyzer;
pub mod xpra_log_rotation;
pub mod xpra_logger;
pub mod xpra_metrics;
pub mod xpra_monitor;
pub mod xpra_pool;
pub mod xpra_runner;
pub mod xpra_status;

use vstd::prelude::*;

verus! {

/// Errors the broker reports to a caller before or while setting a session
/// up. Capacity errors (`Exhausted`, `MaxSessionsReached`) are expected and
/// ask the caller to apply backpressure; the others signal that a resource
/// could not be acquired, after any partially-acquired display number has
/// already been released.
#[derive(Clone, Copy, Debug, PartialEq, Eq, Structural)]
pub enum XpraError {
    /// Every display number in the configured range is taken.
    Exhausted,
    /// The requesting user already holds the maximum number of sessions.
    MaxSessionsReached,
    /// The websocket port derived from the display number is already bound.
    PortUnavailable,
    /// The desktop-server process failed to spawn.
    SpawnFailed,
}

} // verus!
