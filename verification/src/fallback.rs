//! Killing a process by its process id, as a state machine.
//!
//! Where the platform can ask a process to terminate, it is asked first and
//! given a grace period; only a process that is still there afterwards is
//! killed by force. Elsewhere the process is killed by force at once. The
//! machine decides; the driver signals and sleeps.

use crate::termination::FallbackOutcome;
use vstd::prelude::*;

verus! {

/// Milliseconds that a process is given to exit after it was asked to.
pub const GRACE_PERIOD_MS: u64 = 2000;

/// Class of a signal sent to a process id.
#[derive(Clone, Copy, Debug, PartialEq, Eq, Structural)]
pub enum SignalClass {
    /// Asks the process to terminate; it may clean up first.
    Graceful,
    /// Terminates the process; it cannot intercept or delay this.
    Forceful,
    /// Has no effect on the process; succeeds while the process exists.
    Probe,
}

/// How the attempt to send a signal ended.
#[derive(Clone, Copy, Debug, PartialEq, Eq, Structural)]
pub enum SignalReport {
    /// The kill facility ran and reported success.
    Succeeded,
    /// The kill facility ran and reported failure.
    Refused,
    /// The kill facility could not be run.
    NotRun,
}

/// Where a kill by process id stands.
#[derive(Clone, Copy, Debug, PartialEq, Eq, Structural)]
pub enum PidKillState {
    /// The process is to be asked to terminate.
    Terminating { pid: u32 },
    /// The process was asked; the grace period is due.
    Grace { pid: u32 },
    /// The grace period is over; the process is to be probed.
    Checking { pid: u32 },
    /// The process is to be killed by force.
    Killing { pid: u32 },
    /// The process is gone; its record is to be removed from the registry.
    Removing,
    /// Nothing is left to do.
    Done(FallbackOutcome),
}

/// What a state asks its driver to do.
#[derive(Clone, Copy, Debug, PartialEq, Eq, Structural)]
pub enum PidKillAction {
    /// Send a signal of this class to the process.
    Signal { pid: u32, class: SignalClass },
    /// Sleep for the grace period.
    Sleep,
    /// Remove the record from the registry.
    Unregister,
    /// Nothing is left to do; the value is the result.
    Finish(FallbackOutcome),
}

/// What the driver reports.
#[derive(Clone, Copy, Debug, PartialEq, Eq, Structural)]
pub enum PidKillReport {
    /// The signal that was asked for was attempted.
    Signalled(SignalReport),
    /// The grace period is over.
    Slept,
}

/// The state in which a kill of `pid` begins.
pub open spec fn pid_kill_start(pid: u32, graceful: bool) -> PidKillState {
    if graceful {
        PidKillState::Terminating { pid }
    } else {
        PidKillState::Killing { pid }
    }
}

/// The action that `state` asks for.
pub open spec fn pid_kill_pending(state: PidKillState) -> PidKillAction {
    match state {
        PidKillState::Terminating { pid } => PidKillAction::Signal {
            pid,
            class: SignalClass::Graceful,
        },
        PidKillState::Grace { .. } => PidKillAction::Sleep,
        PidKillState::Checking { pid } => PidKillAction::Signal { pid, class: SignalClass::Probe },
        PidKillState::Killing { pid } => PidKillAction::Signal { pid, class: SignalClass::Forceful },
        PidKillState::Removing => PidKillAction::Unregister,
        PidKillState::Done(outcome) => PidKillAction::Finish(outcome),
    }
}

/// Whether `report` is what carrying out `action` can bring.
pub open spec fn pid_report_answers(report: PidKillReport, action: PidKillAction) -> bool {
    match action {
        PidKillAction::Signal { .. } => report is Signalled,
        PidKillAction::Sleep => report is Slept,
        _ => false,
    }
}

/// The state that follows `state` once the driver has reported `report`. A
/// report that does not answer what the state asked for changes nothing.
pub open spec fn pid_kill_after_report(state: PidKillState, report: PidKillReport) -> PidKillState {
    match (state, report) {
        (PidKillState::Terminating { pid }, PidKillReport::Signalled(sent)) => match sent {
            SignalReport::Succeeded => PidKillState::Grace { pid },
            _ => PidKillState::Killing { pid },
        },
        (PidKillState::Grace { pid }, PidKillReport::Slept) => PidKillState::Checking { pid },
        (PidKillState::Checking { pid }, PidKillReport::Signalled(sent)) => match sent {
            SignalReport::Succeeded => PidKillState::Killing { pid },
            _ => PidKillState::Removing,
        },
        (PidKillState::Killing { pid }, PidKillReport::Signalled(sent)) => match sent {
            SignalReport::Succeeded => PidKillState::Removing,
            SignalReport::Refused => PidKillState::Done(FallbackOutcome::NotKilled),
            SignalReport::NotRun => PidKillState::Done(FallbackOutcome::Failed),
        },
        _ => state,
    }
}

/// The state that follows `state` once the record has been removed.
pub open spec fn pid_kill_after_removal(state: PidKillState) -> PidKillState {
    match state {
        PidKillState::Removing => PidKillState::Done(FallbackOutcome::Killed),
        _ => state,
    }
}

/// An upper bound on the number of answered actions that lie between
/// `state` and the end of the kill.
pub open spec fn pid_kill_steps_left(state: PidKillState) -> nat {
    match state {
        PidKillState::Terminating { .. } => 5,
        PidKillState::Grace { .. } => 4,
        PidKillState::Checking { .. } => 3,
        PidKillState::Killing { .. } => 2,
        PidKillState::Removing => 1,
        PidKillState::Done(_) => 0,
    }
}

/// Every report that answers the pending action, and the removal where it
/// is due, brings the kill closer to its end.
pub proof fn lemma_pid_kill_makes_progress(state: PidKillState, report: PidKillReport)
    ensures
        pid_report_answers(report, pid_kill_pending(state)) ==> pid_kill_steps_left(
            pid_kill_after_report(state, report),
        ) < pid_kill_steps_left(state),
        !pid_report_answers(report, pid_kill_pending(state)) ==> pid_kill_after_report(
            state,
            report,
        ) == state,
        state is Removing ==> pid_kill_steps_left(pid_kill_after_removal(state))
            < pid_kill_steps_left(state),
{
}

/// Success is reported only once the record has been removed; failure only
/// by the forceful signal.
pub proof fn lemma_pid_kill_outcomes(state: PidKillState, report: PidKillReport)
    requires
        !(state is Done),
    ensures
        !(pid_kill_after_report(state, report) matches PidKillState::Done(FallbackOutcome::Killed)),
        pid_kill_after_report(state, report) is Done ==> state is Killing,
        pid_kill_after_removal(state) is Done ==> state is Removing && pid_kill_after_removal(state)
            == PidKillState::Done(FallbackOutcome::Killed),
{
}

/// Force follows a refusal or a survivor: the forceful signal is asked for
/// at the start only where the platform has no graceful one, and later only
/// when the graceful one was not delivered or the process outlived the
/// grace period.
pub proof fn lemma_force_is_last(state: PidKillState, report: PidKillReport)
    requires
        !(state is Killing),
        pid_kill_after_report(state, report) is Killing,
    ensures
        (state is Terminating && report is Signalled && !(report matches PidKillReport::Signalled(
            SignalReport::Succeeded,
        ))) || (state is Checking && report matches PidKillReport::Signalled(
            SignalReport::Succeeded,
        )),
{
}

impl PidKillState {
    /// The state in which a kill of `pid` begins.
    pub fn start(pid: u32, graceful: bool) -> (state: PidKillState)
        ensures
            state == pid_kill_start(pid, graceful),
    {
        if graceful {
            PidKillState::Terminating { pid }
        } else {
            PidKillState::Killing { pid }
        }
    }

    /// The action that this state asks for.
    pub fn action(&self) -> (action: PidKillAction)
        ensures
            action == pid_kill_pending(*self),
    {
        match self {
            PidKillState::Terminating { pid } => PidKillAction::Signal {
                pid: *pid,
                class: SignalClass::Graceful,
            },
            PidKillState::Grace { .. } => PidKillAction::Sleep,
            PidKillState::Checking { pid } => PidKillAction::Signal {
                pid: *pid,
                class: SignalClass::Probe,
            },
            PidKillState::Killing { pid } => PidKillAction::Signal {
                pid: *pid,
                class: SignalClass::Forceful,
            },
            PidKillState::Removing => PidKillAction::Unregister,
            PidKillState::Done(outcome) => PidKillAction::Finish(*outcome),
        }
    }

    /// The state after the driver has reported `report`.
    pub fn on_report(self, report: PidKillReport) -> (next: PidKillState)
        ensures
            next == pid_kill_after_report(self, report),
    {
        match self {
            PidKillState::Terminating { pid } => match report {
                PidKillReport::Signalled(SignalReport::Succeeded) => PidKillState::Grace { pid },
                PidKillReport::Signalled(_) => PidKillState::Killing { pid },
                _ => self,
            },
            PidKillState::Grace { pid } => match report {
                PidKillReport::Slept => PidKillState::Checking { pid },
                _ => self,
            },
            PidKillState::Checking { pid } => match report {
                PidKillReport::Signalled(SignalReport::Succeeded) => PidKillState::Killing { pid },
                PidKillReport::Signalled(_) => PidKillState::Removing,
                _ => self,
            },
            PidKillState::Killing { pid } => match report {
                PidKillReport::Signalled(SignalReport::Succeeded) => PidKillState::Removing,
                PidKillReport::Signalled(SignalReport::Refused) => PidKillState::Done(
                    FallbackOutcome::NotKilled,
                ),
                PidKillReport::Signalled(SignalReport::NotRun) => PidKillState::Done(
                    FallbackOutcome::Failed,
                ),
                _ => self,
            },
            _ => self,
        }
    }

    /// The state after the record has been removed.
    pub fn on_removal(self) -> (next: PidKillState)
        ensures
            next == pid_kill_after_removal(self),
    {
        match self {
            PidKillState::Removing => PidKillState::Done(FallbackOutcome::Killed),
            _ => self,
        }
    }
}

} // verus!
