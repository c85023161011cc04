//! Agent state machine: terminal states and legal transitions.
use vstd::prelude::*;

use crate::events::AgentState;
use crate::events::AgentState::{
    Analyzing, Cancelled, Completed, Executing, Failed, Idle, Planning, Retrying, Reviewing,
    WaitingPermission, WaitingProvider,
};

verus! {

/// States the loop never leaves.
pub open spec fn terminal(s: AgentState) -> bool {
    s == AgentState::Completed || s == AgentState::Failed || s == AgentState::Cancelled
}

/// Legal transitions of the main loop.
pub open spec fn legal(from: AgentState, to: AgentState) -> bool {
    ||| (from == Idle && to == Analyzing)
    ||| (from == Analyzing && to == Planning)
    ||| (from == Planning && to == WaitingProvider)
    ||| (from == WaitingProvider && to == Executing)
    ||| (from == WaitingProvider && to == Completed)
    ||| (from == Executing && to == Reviewing)
    ||| (from == Executing && to == WaitingPermission)
    ||| (from == WaitingPermission && to == Executing)
    ||| (from == Reviewing && to == Completed)
    ||| (from == Reviewing && to == Retrying)
    ||| (from == Retrying && to == Executing)
    ||| (from == Retrying && to == WaitingProvider)
    ||| to == Failed
    ||| to == Cancelled
    ||| (from == Cancelled && to == Idle)
    ||| (from == Completed && to == Idle)
    ||| (from == Failed && to == Idle)
}

/// True for `Completed`, `Failed` and `Cancelled`.
pub fn is_terminal(state: &AgentState) -> (r: bool)
    ensures
        r == terminal(*state),
{
    match state {
        AgentState::Completed | AgentState::Failed | AgentState::Cancelled => true,
        _ => false,
    }
}

/// Whether the loop may go from `from` to `to`.
pub fn is_legal_transition(from: &AgentState, to: &AgentState) -> (r: bool)
    ensures
        r == legal(*from, *to),
{
    match (from, to) {
        (Idle, Analyzing)
        | (Analyzing, Planning)
        | (Planning, WaitingProvider)
        | (WaitingProvider, Executing)
        | (WaitingProvider, Completed)
        | (WaitingProvider, Failed)
        | (Executing, Reviewing)
        | (Executing, WaitingPermission)
        | (WaitingPermission, Executing)
        | (Reviewing, Completed)
        | (Reviewing, Retrying)
        | (Reviewing, Failed)
        | (Retrying, Executing)
        | (Retrying, WaitingProvider)
        | (_, Failed)
        | (_, Cancelled)
        | (Cancelled, Idle)
        | (Completed, Idle)
        | (Failed, Idle) => true,
        _ => false,
    }
}

/// Every state can fail or be cancelled, and every terminal state can
/// only be left back to `Idle`.
pub proof fn law_failure_and_cancel_always_reachable(from: AgentState, to: AgentState)
    ensures
        legal(from, AgentState::Failed),
        legal(from, AgentState::Cancelled),
        terminal(from) && legal(from, to) ==> to == AgentState::Idle || terminal(to),
{
}

} // verus!
