use vstd::prelude::*;
use crate::session::SessionState;

verus! {

/// Attempts, 10 ms apart, to wait for the seat to become active: 500 ms.
pub const SEAT_POLL_ATTEMPTS: u32 = 50;

/// Which display backend to run.
#[derive(Debug, Clone, Copy, PartialEq, Eq, Structural)]
pub enum BackendType {
    /// A window on another display server, for development.
    Windowed,
    /// Direct DRM access through the seat; no windowed fallback.
    Drm,
    /// DRM when the seat activates in time, windowed otherwise.
    Auto,
}

/// What backend start-up does next.
#[derive(Debug, Clone, Copy, PartialEq, Eq, Structural)]
pub enum StartupAction {
    UseDrm,
    UseWindowed,
    /// Poll the seat again after a short sleep.
    Wait,
    /// The seat never activated and the windowed fallback is not allowed.
    Abort,
}

/// One step of backend start-up after `attempts` polls of the seat.
pub fn backend_startup_step(requested: BackendType, attempts: u32, session: SessionState) -> (a: StartupAction)
    ensures
        a == (if requested == BackendType::Windowed {
            StartupAction::UseWindowed
        } else if session == SessionState::Active {
            StartupAction::UseDrm
        } else if attempts < SEAT_POLL_ATTEMPTS {
            StartupAction::Wait
        } else if requested == BackendType::Auto {
            StartupAction::UseWindowed
        } else {
            StartupAction::Abort
        }),
{
    match requested {
        BackendType::Windowed => StartupAction::UseWindowed,
        _ => {
            match session {
                SessionState::Active => StartupAction::UseDrm,
                _ => {
                    if attempts < SEAT_POLL_ATTEMPTS {
                        StartupAction::Wait
                    } else {
                        match requested {
                            BackendType::Auto => StartupAction::UseWindowed,
                            _ => StartupAction::Abort,
                        }
                    }
                },
            }
        },
    }
}

/// Where the compositor is in its life.
#[derive(Debug, Clone, Copy, PartialEq, Eq, Structural)]
pub enum Phase {
    Running,
    /// A termination signal arrived: no new GPU work; waiting for the device.
    Draining,
    /// GPU idle: closing clients and removing the socket.
    Closing,
    Exited,
}

/// What the event loop sees at one iteration.
#[derive(Debug, Clone, Copy, PartialEq, Eq, Structural)]
pub struct LoopObservation {
    pub termination_requested: bool,
    pub frames_in_flight: usize,
    pub open_clients: usize,
    pub socket_present: bool,
}

/// What the event loop does at one iteration.
#[derive(Debug, Clone, Copy, PartialEq, Eq, Structural)]
pub enum LoopAction {
    /// Dispatch client requests, flush, drain timers and render if due.
    Dispatch,
    WaitDeviceIdle,
    CloseClients,
    RemoveSocket,
    Exit,
}

/// The shutdown sequence as a step from phase and observation to the next
/// phase and the action to perform.
pub open spec fn loop_step_spec(phase: Phase, o: LoopObservation) -> (Phase, LoopAction) {
    match phase {
        Phase::Running => if o.termination_requested {
            (Phase::Draining, LoopAction::WaitDeviceIdle)
        } else {
            (Phase::Running, LoopAction::Dispatch)
        },
        Phase::Draining => if o.frames_in_flight > 0 {
            (Phase::Draining, LoopAction::WaitDeviceIdle)
        } else {
            (Phase::Closing, LoopAction::CloseClients)
        },
        Phase::Closing => if o.frames_in_flight > 0 {
            (Phase::Closing, LoopAction::WaitDeviceIdle)
        } else if o.open_clients > 0 {
            (Phase::Closing, LoopAction::CloseClients)
        } else if o.socket_present {
            (Phase::Closing, LoopAction::RemoveSocket)
        } else {
            (Phase::Exited, LoopAction::Exit)
        },
        Phase::Exited => (Phase::Exited, LoopAction::Exit),
    }
}

pub fn loop_step(phase: Phase, o: LoopObservation) -> (r: (Phase, LoopAction))
    ensures
        r == loop_step_spec(phase, o),
{
    match phase {
        Phase::Running => if o.termination_requested {
            (Phase::Draining, LoopAction::WaitDeviceIdle)
        } else {
            (Phase::Running, LoopAction::Dispatch)
        },
        Phase::Draining => if o.frames_in_flight > 0 {
            (Phase::Draining, LoopAction::WaitDeviceIdle)
        } else {
            (Phase::Closing, LoopAction::CloseClients)
        },
        Phase::Closing => if o.frames_in_flight > 0 {
            (Phase::Closing, LoopAction::WaitDeviceIdle)
        } else if o.open_clients > 0 {
            (Phase::Closing, LoopAction::CloseClients)
        } else if o.socket_present {
            (Phase::Closing, LoopAction::RemoveSocket)
        } else {
            (Phase::Exited, LoopAction::Exit)
        },
        Phase::Exited => (Phase::Exited, LoopAction::Exit),
    }
}

/// The phase after the observations of `os`, in order, from `phase`.
pub open spec fn run_phases(phase: Phase, os: Seq<LoopObservation>) -> Phase
    decreases os.len(),
{
    if os.len() == 0 {
        phase
    } else {
        loop_step_spec(run_phases(phase, os.drop_last()), os.last()).0
    }
}

/// Shutdown safety: the loop leaves the running phase only on a termination
/// request, never dispatches once it has, and reaches the exit only from an
/// observation with no GPU work in flight, no client left and the socket
/// removed.
pub proof fn shutdown_is_orderly(phase: Phase, o: LoopObservation)
    ensures
        phase == Phase::Running && !o.termination_requested ==> loop_step_spec(phase, o).0 == Phase::Running,
        phase != Phase::Running ==> loop_step_spec(phase, o).1 != LoopAction::Dispatch,
        loop_step_spec(phase, o).1 == LoopAction::Exit && phase != Phase::Exited ==> o.frames_in_flight == 0
            && o.open_clients == 0 && !o.socket_present,
        phase == Phase::Running ==> loop_step_spec(phase, o).1 != LoopAction::Exit,
{
}

/// Once a termination request is seen, the loop never dispatches again,
/// whatever it observes later.
pub proof fn no_dispatch_after_termination(phase: Phase, o: LoopObservation, later: Seq<LoopObservation>)
    requires
        phase != Phase::Running || o.termination_requested,
    ensures
        run_phases(loop_step_spec(phase, o).0, later) != Phase::Running,
    decreases later.len(),
{
    if later.len() > 0 {
        no_dispatch_after_termination(phase, o, later.drop_last());
    }
}

} // verus!
