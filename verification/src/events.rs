//! Agent lifecycle states and the domain events components exchange.
use vstd::prelude::*;

use crate::errors::DarbError;

verus! {

/// Agent lifecycle states.
#[derive(Debug, Clone, Copy, PartialEq, Eq, Structural)]
pub enum AgentState {
    Idle,
    Analyzing,
    Planning,
    WaitingProvider,
    WaitingPermission,
    Executing,
    Reviewing,
    Retrying,
    Completed,
    Failed,
    Cancelled,
}

/// Domain events. The agent emits them; the interface folds them.
#[derive(Debug, Clone, PartialEq, Eq)]
pub enum DarbEvent {
    AgentStarted { task: String },
    AgentStateChanged { from: AgentState, to: AgentState },
    ContextRequested { query: String },
    ContextReady { files: usize },
    ToolRequested { tool: String, target: String },
    ToolCompleted { tool: String, success: bool },
    PermissionRequested { tool: String, target: String },
    PermissionResolved { tool: String, allowed: bool },
    ReviewRequested { files: usize },
    AgentFinished { summary: String },
    ConfigReloaded,
    ErrorOccurred { message: String },
    /// One streamed text fragment from the provider.
    ProviderDelta { text: String },
}

/// Capacity the event channel falls back to when asked for zero.
pub const DEFAULT_CAPACITY: usize = 64;

/// Channel capacity actually used for a requested one: zero would make
/// the channel unusable, so it falls back to the default.
pub fn effective_capacity(requested: usize) -> (c: usize)
    ensures
        c == (if requested == 0 { DEFAULT_CAPACITY } else { requested }),
        c > 0,
{
    if requested == 0 {
        DEFAULT_CAPACITY
    } else {
        requested
    }
}

/// The error of a failed receive on the event channel, carrying the
/// channel's description of the failure.
pub fn receive_error(reason: &str) -> (e: DarbError)
    ensures
        e is Internal,
        e.detail_view() == "event bus receive failed: "@ + reason@,
{
    DarbError::Internal(crate::text::concat("event bus receive failed: ", reason))
}

} // verus!
