//! Outbound action requests and the records describing their failures.

use vstd::prelude::*;

verus! {

/// An outbound command originating in the synchronous domain, executed
/// against the external service by a background task.
#[derive(Clone, Copy, PartialEq, Eq, Structural, Debug)]
pub enum ActionRequest {
    /// Enable or disable the network radio (`setWifi`).
    SetWifi { enabled: bool },
    /// Switch the network radio to the given state (`toggleWifi`).
    ToggleWifi { enabled: bool },
}

/// A failed action, flowing from the background task back into the
/// synchronous domain through the error queue. Successes are fire-and-forget
/// and produce no record.
#[derive(Clone, Debug)]
pub enum ErrorRecord {
    /// `setWifi` failed, with a human-readable reason.
    SetWifiFailed { reason: String },
    /// `toggleWifi` failed, with a human-readable reason.
    ToggleWifiFailed { reason: String },
}

/// Service construction failed. Once recorded, the readiness flag stays false
/// for the rest of the process lifetime: there is no retry policy.
#[derive(Clone, Debug)]
pub struct InitError {
    pub reason: String,
}

} // verus!
