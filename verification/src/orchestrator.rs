//! Stream orchestrator.
//!
//! One session walks from the client's first message through streamer launch
//! to teardown.  The walk is a state machine from state and event to the next
//! state and the actions owed: progress messages to the primary leg, IPC to
//! the streamer child, and the final kill.  The signaling and process work
//! around it happens outside.

use vstd::prelude::*;

verus! {

/// Where a session stands.
#[derive(Clone, Copy, Debug, PartialEq, Eq, Structural)]
pub enum OrchestratorState {
    /// Waiting for the client's first message.
    AwaitingInit,
    /// Reserving the session and spawning the streamer child.
    Preparing,
    /// The child is up; the transport is being established.
    Launching,
    /// Media is flowing.
    Streaming,
    /// Torn down.
    Stopped,
}

/// What the orchestrator observes.
#[derive(Clone, Copy, Debug, PartialEq, Eq, Structural)]
pub enum OrchestratorEvent {
    /// The client's first message arrived, with its hybrid flag.
    InitReceived { hybrid: bool },
    /// The streamer child is running and took the forwarded configuration.
    StreamerSpawned,
    /// The transport reported the stream started.
    StreamStarted,
    /// The primary leg closed.
    PrimaryClosed,
    /// The streamer child exited on its own.
    StreamerExited,
    /// Orchestration failed.
    Fault,
}

/// What the orchestrator owes after a step.
#[derive(Clone, Copy, Debug, PartialEq, Eq, Structural)]
pub enum OrchestratorAction {
    /// Nothing.
    NoAction,
    /// Mint a session token, reserve the session, then spawn the child;
    /// progress is reported around it.
    ReserveHybridAndSpawn,
    /// Spawn the child without a hybrid reservation.
    SpawnOnly,
    /// Report the launch stage done: media is flowing.
    ReportLaunchComplete,
    /// Send a graceful stop over IPC, then kill and unregister the child,
    /// and remove the session.
    StopAndKillChild,
    /// Surface a terminal internal error to the primary leg, then tear down.
    SurfaceInternalError,
}

/// The stage reported around session preparation.
pub fn stage_preparing() -> (r: &'static str)
    ensures
        r@ == "Preparing Stream"@,
{
    "Preparing Stream"
}

/// The stage reported around streamer launch.
pub fn stage_launching() -> (r: &'static str)
    ensures
        r@ == "Launch Streamer"@,
{
    "Launch Streamer"
}

/// One orchestration step: the next state and the action owed.
///
/// An unexpected event in a state changes nothing.  A primary close or child
/// exit in any live state tears the session down; a fault surfaces a terminal
/// error first.
pub fn orchestrate(state: OrchestratorState, event: OrchestratorEvent) -> (r: (
    OrchestratorState,
    OrchestratorAction,
))
    ensures
        r == spec_orchestrate(state, event),
{
    match (state, event) {
        (OrchestratorState::AwaitingInit, OrchestratorEvent::InitReceived { hybrid }) => (
            OrchestratorState::Preparing,
            if hybrid {
                OrchestratorAction::ReserveHybridAndSpawn
            } else {
                OrchestratorAction::SpawnOnly
            },
        ),
        (OrchestratorState::Preparing, OrchestratorEvent::StreamerSpawned) => (
            OrchestratorState::Launching,
            OrchestratorAction::NoAction,
        ),
        (OrchestratorState::Launching, OrchestratorEvent::StreamStarted) => (
            OrchestratorState::Streaming,
            OrchestratorAction::ReportLaunchComplete,
        ),
        (_, OrchestratorEvent::PrimaryClosed) => (
            OrchestratorState::Stopped,
            OrchestratorAction::StopAndKillChild,
        ),
        (_, OrchestratorEvent::StreamerExited) => (
            OrchestratorState::Stopped,
            OrchestratorAction::StopAndKillChild,
        ),
        (_, OrchestratorEvent::Fault) => (
            OrchestratorState::Stopped,
            OrchestratorAction::SurfaceInternalError,
        ),
        _ => (state, OrchestratorAction::NoAction),
    }
}

/// The orchestration step relation.
pub open spec fn spec_orchestrate(state: OrchestratorState, event: OrchestratorEvent) -> (
    OrchestratorState,
    OrchestratorAction,
) {
    match event {
        OrchestratorEvent::PrimaryClosed => (
            OrchestratorState::Stopped,
            OrchestratorAction::StopAndKillChild,
        ),
        OrchestratorEvent::StreamerExited => (
            OrchestratorState::Stopped,
            OrchestratorAction::StopAndKillChild,
        ),
        OrchestratorEvent::Fault => (
            OrchestratorState::Stopped,
            OrchestratorAction::SurfaceInternalError,
        ),
        OrchestratorEvent::InitReceived { hybrid } => if state == OrchestratorState::AwaitingInit {
            (
                OrchestratorState::Preparing,
                if hybrid {
                    OrchestratorAction::ReserveHybridAndSpawn
                } else {
                    OrchestratorAction::SpawnOnly
                },
            )
        } else {
            (state, OrchestratorAction::NoAction)
        },
        OrchestratorEvent::StreamerSpawned => if state == OrchestratorState::Preparing {
            (OrchestratorState::Launching, OrchestratorAction::NoAction)
        } else {
            (state, OrchestratorAction::NoAction)
        },
        OrchestratorEvent::StreamStarted => if state == OrchestratorState::Launching {
            (OrchestratorState::Streaming, OrchestratorAction::ReportLaunchComplete)
        } else {
            (state, OrchestratorAction::NoAction)
        },
    }
}

/// Law: a closed primary always tears the session down — from every state,
/// the step lands in the stopped state and owes the stop-and-kill action.
pub proof fn lemma_primary_close_always_stops(state: OrchestratorState)
    ensures
        spec_orchestrate(state, OrchestratorEvent::PrimaryClosed) == (
            OrchestratorState::Stopped,
            OrchestratorAction::StopAndKillChild,
        ),
{
}

} // verus!
