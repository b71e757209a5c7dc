//! The poll-loop lifecycle as an explicit state machine.
//!
//! The controller decides; the embedding program acts.  Each action it hands
//! back (reset, run a cycle, delay, exit) is performed outside, and the
//! outcome comes back as the next event.  Shutdown is cooperative: a
//! shutdown event stops the machine at once, and no further cycle is ever
//! requested.

use vstd::prelude::*;

verus! {

/// Where the lifecycle stands.
#[derive(Clone, Copy, PartialEq, Eq, Structural, Debug)]
pub enum LifecyclePhase {
    /// Configuration is resolved; the initial counter reset is in flight.
    Starting,
    /// The steady state: build, publish, delay, repeat.
    Running,
    /// Terminal; no further work is requested.
    Stopped,
}

/// What the embedding program reports back to the controller.
#[derive(Clone, Copy, PartialEq, Eq, Structural, Debug)]
pub enum ControlEvent {
    /// The initial counter reset finished; `ok` tells whether it succeeded.
    /// A failed reset is tolerated: the first cycle may then include stale
    /// pre-startup traffic.
    ResetCompleted { ok: bool },
    /// One build-and-publish cycle finished; `published` tells whether the
    /// snapshot reached stable storage.  A failed publish is tolerated: the
    /// loop simply waits for the next tick.
    CycleCompleted { published: bool },
    /// The inter-cycle delay elapsed.
    DelayElapsed,
    /// The external shutdown signal arrived.
    ShutdownRequested,
}

/// What the embedding program must do next.
#[derive(Clone, Copy, PartialEq, Eq, Structural, Debug)]
pub enum ControlAction {
    /// Ask the counter source to zero its counters, then report back.
    RunReset,
    /// Build one snapshot and publish it, then report back.
    RunCycle,
    /// Suspend for the configured poll interval, then report back.
    Delay,
    /// Stop: exit the loop with no pending work.
    Exit,
}

/// The transition function of the lifecycle.  Shutdown dominates every
/// phase; otherwise a finished reset starts the first cycle, a finished
/// cycle (published or not) starts the delay, and an elapsed delay starts
/// the next cycle.  An event that its phase cannot produce stops the
/// machine, so a confused embedding can only ever halt the loop, never
/// drive it wrongly.
pub open spec fn spec_step(p: LifecyclePhase, e: ControlEvent) -> (LifecyclePhase, ControlAction) {
    match e {
        ControlEvent::ShutdownRequested => (LifecyclePhase::Stopped, ControlAction::Exit),
        ControlEvent::ResetCompleted { .. } => match p {
            LifecyclePhase::Starting => (LifecyclePhase::Running, ControlAction::RunCycle),
            _ => (LifecyclePhase::Stopped, ControlAction::Exit),
        },
        ControlEvent::CycleCompleted { .. } => match p {
            LifecyclePhase::Running => (LifecyclePhase::Running, ControlAction::Delay),
            _ => (LifecyclePhase::Stopped, ControlAction::Exit),
        },
        ControlEvent::DelayElapsed => match p {
            LifecyclePhase::Running => (LifecyclePhase::Running, ControlAction::RunCycle),
            _ => (LifecyclePhase::Stopped, ControlAction::Exit),
        },
    }
}

/// The lifecycle controller: holds the current phase and steps it by events.
pub struct LifecycleController {
    pub phase: LifecyclePhase,
}

impl LifecycleController {
    /// A fresh controller: starting up, with the initial reset as its first
    /// requested action.
    pub fn new() -> (r: (LifecycleController, ControlAction))
        ensures
            r.0.phase == LifecyclePhase::Starting,
            r.1 == ControlAction::RunReset,
    {
        (LifecycleController { phase: LifecyclePhase::Starting }, ControlAction::RunReset)
    }

    /// Feed one event to the controller; it moves to the next phase and
    /// says what to do next.
    pub fn on_event(&mut self, e: ControlEvent) -> (a: ControlAction)
        ensures
            final(self).phase == spec_step(old(self).phase, e).0,
            a == spec_step(old(self).phase, e).1,
    {
        let (next, action) = match e {
            ControlEvent::ShutdownRequested => (LifecyclePhase::Stopped, ControlAction::Exit),
            ControlEvent::ResetCompleted { .. } => match self.phase {
                LifecyclePhase::Starting => (LifecyclePhase::Running, ControlAction::RunCycle),
                _ => (LifecyclePhase::Stopped, ControlAction::Exit),
            },
            ControlEvent::CycleCompleted { .. } => match self.phase {
                LifecyclePhase::Running => (LifecyclePhase::Running, ControlAction::Delay),
                _ => (LifecyclePhase::Stopped, ControlAction::Exit),
            },
            ControlEvent::DelayElapsed => match self.phase {
                LifecyclePhase::Running => (LifecyclePhase::Running, ControlAction::RunCycle),
                _ => (LifecyclePhase::Stopped, ControlAction::Exit),
            },
        };
        self.phase = next;
        action
    }
}

/// Law: a shutdown request, whatever the phase, stops the lifecycle at once
/// and never starts another cycle.
pub proof fn lemma_shutdown_is_immediate(p: LifecyclePhase)
    ensures
        spec_step(p, ControlEvent::ShutdownRequested).0 == LifecyclePhase::Stopped,
        spec_step(p, ControlEvent::ShutdownRequested).1 == ControlAction::Exit,
{
}

/// Law: the stopped phase is terminal: no event can revive the lifecycle
/// or make it request work again.
pub proof fn lemma_stopped_is_terminal(e: ControlEvent)
    ensures
        spec_step(LifecyclePhase::Stopped, e).0 == LifecyclePhase::Stopped,
        spec_step(LifecyclePhase::Stopped, e).1 == ControlAction::Exit,
{
}

/// Law: a failed publish never ends the loop: the lifecycle stays in its
/// running phase and waits for the next scheduled tick.
pub proof fn lemma_publish_failure_tolerated()
    ensures
        spec_step(
            LifecyclePhase::Running,
            ControlEvent::CycleCompleted { published: false },
        ) == (LifecyclePhase::Running, ControlAction::Delay),
{
}

/// Law: a failed initial reset is tolerated: the lifecycle still enters its
/// running phase and starts the first cycle.
pub proof fn lemma_reset_failure_tolerated()
    ensures
        spec_step(
            LifecyclePhase::Starting,
            ControlEvent::ResetCompleted { ok: false },
        ) == (LifecyclePhase::Running, ControlAction::RunCycle),
{
}

} // verus!
