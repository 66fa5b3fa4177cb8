//! The session worker's lifecycle, as a state machine from state and
//! event to next state and action. The surrounding runtime owns the
//! engine handle and the per-session stop channel: it performs each
//! action and reports the resulting event back.

use vstd::prelude::*;

verus! {

/// Lifecycle states of one session worker.
#[derive(Clone, Copy, Debug, PartialEq, Eq, Structural)]
pub enum WorkerState {
    /// Settings are being acquired and the engine's connection procedure
    /// is being started.
    Starting,
    /// The engine drives callbacks into the dispatcher; the worker waits
    /// for its stop signal.
    Running,
    /// The engine has been told to terminate the session.
    Stopping,
    /// Terminal: the worker's thread of control exits.
    Stopped,
}

/// Events the surrounding runtime reports to the worker.
#[derive(Clone, Copy, Debug, PartialEq, Eq, Structural)]
pub enum WorkerEvent {
    /// The engine accepted the settings and its connection procedure is
    /// under way.
    EngineStarted,
    /// Session establishment failed; fatal to this one worker only.
    StartFailed,
    /// This session's stop signal fired.
    StopRequested,
    /// The engine finished terminating the session.
    EngineStopped,
}

/// What the runtime must do next on the worker's behalf.
#[derive(Clone, Copy, Debug, PartialEq, Eq, Structural)]
pub enum WorkerAction {
    /// Instantiate a fresh store, register the dispatcher, and start the
    /// engine's connection procedure.
    StartEngine,
    /// Block until this session's stop signal fires.
    AwaitStop,
    /// Instruct the engine to terminate the session and release it.
    StopEngine,
    /// Nothing remains; exit the worker's thread of control.
    Exit,
}

/// The action a state is waiting on; re-issued when an event does not
/// concern the state.
pub open spec fn pending_action(s: WorkerState) -> WorkerAction {
    match s {
        WorkerState::Starting => WorkerAction::StartEngine,
        WorkerState::Running => WorkerAction::AwaitStop,
        WorkerState::Stopping => WorkerAction::StopEngine,
        WorkerState::Stopped => WorkerAction::Exit,
    }
}

/// The worker's transition relation: Starting advances to Running when
/// the engine comes up and to Stopped when it cannot; Running advances to
/// Stopping on the stop signal; Stopping advances to Stopped when the
/// engine is released. Stopped is terminal, and an event that does not
/// concern the current state leaves it unchanged.
pub open spec fn spec_worker_step(s: WorkerState, e: WorkerEvent) -> (WorkerState, WorkerAction) {
    match (s, e) {
        (WorkerState::Starting, WorkerEvent::EngineStarted) => (
            WorkerState::Running,
            WorkerAction::AwaitStop,
        ),
        (WorkerState::Starting, WorkerEvent::StartFailed) => (
            WorkerState::Stopped,
            WorkerAction::Exit,
        ),
        (WorkerState::Running, WorkerEvent::StopRequested) => (
            WorkerState::Stopping,
            WorkerAction::StopEngine,
        ),
        (WorkerState::Stopping, WorkerEvent::EngineStopped) => (
            WorkerState::Stopped,
            WorkerAction::Exit,
        ),
        _ => (s, pending_action(s)),
    }
}

/// A fresh worker: in `Starting`, with the engine start as its first
/// action.
pub fn worker_init() -> (r: (WorkerState, WorkerAction))
    ensures
        r == (WorkerState::Starting, WorkerAction::StartEngine),
{
    (WorkerState::Starting, WorkerAction::StartEngine)
}

/// Advances one worker by one reported event.
pub fn worker_step(s: WorkerState, e: WorkerEvent) -> (r: (WorkerState, WorkerAction))
    ensures
        r == spec_worker_step(s, e),
{
    match (s, e) {
        (WorkerState::Starting, WorkerEvent::EngineStarted) => (
            WorkerState::Running,
            WorkerAction::AwaitStop,
        ),
        (WorkerState::Starting, WorkerEvent::StartFailed) => (
            WorkerState::Stopped,
            WorkerAction::Exit,
        ),
        (WorkerState::Running, WorkerEvent::StopRequested) => (
            WorkerState::Stopping,
            WorkerAction::StopEngine,
        ),
        (WorkerState::Stopping, WorkerEvent::EngineStopped) => (
            WorkerState::Stopped,
            WorkerAction::Exit,
        ),
        (WorkerState::Starting, _) => (WorkerState::Starting, WorkerAction::StartEngine),
        (WorkerState::Running, _) => (WorkerState::Running, WorkerAction::AwaitStop),
        (WorkerState::Stopping, _) => (WorkerState::Stopping, WorkerAction::StopEngine),
        (WorkerState::Stopped, _) => (WorkerState::Stopped, WorkerAction::Exit),
    }
}

/// A stopped worker stays stopped, whatever else is reported: no event
/// revives a session that has reached its terminal state.
pub proof fn lemma_stopped_is_terminal(e: WorkerEvent)
    ensures
        spec_worker_step(WorkerState::Stopped, e) == (WorkerState::Stopped, WorkerAction::Exit),
{
}

} // verus!
