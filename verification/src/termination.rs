//! The protocol that stops a tracked process, as a state machine.
//!
//! The machine decides; it performs nothing. Whoever drives it carries out
//! the action that a state asks for and comes back with what happened. Some
//! actions are work on the registry (looking the run up, signalling or
//! probing the child it holds, dropping the handle, removing the record);
//! the others are work outside of it (killing by process id, sleeping).

use vstd::prelude::*;

verus! {

/// Milliseconds to sleep between two probes while waiting for the exit.
pub const EXIT_POLL_INTERVAL_MS: u64 = 100;

/// Number of sleeps after which waiting for the exit is given up. Together
/// with the poll interval this bounds the wait at five seconds.
pub const MAX_EXIT_POLLS: u32 = 50;

/// How a kill by process id ended.
#[derive(Clone, Copy, Debug, PartialEq, Eq, Structural)]
pub enum FallbackOutcome {
    /// The kill facility reported success.
    Killed,
    /// The kill facility ran and reported failure.
    NotKilled,
    /// The kill facility could not be run at all.
    Failed,
}

/// What a probe of a run's child handle found.
#[derive(Clone, Copy, Debug, PartialEq, Eq, Structural)]
pub enum ExitProbe {
    /// The child has exited.
    Exited,
    /// The child has not exited yet.
    StillRunning,
    /// The state of the child could not be read.
    Failed,
    /// No child handle is held for the run.
    NoHandle,
}

/// How a finished termination ended.
#[derive(Clone, Copy, Debug, PartialEq, Eq, Structural)]
pub enum KillOutcome {
    /// The process was seen to have exited.
    Exited,
    /// A kill by process id reported success.
    ForceKilled,
    /// The process could not be confirmed dead and is no longer tracked.
    Abandoned,
}

/// Where a termination stands.
#[derive(Clone, Copy, Debug, PartialEq, Eq, Structural)]
pub enum KillState {
    /// Nothing has been done yet.
    Running,
    /// The run holds a child handle, which is to be signalled.
    Signalling { pid: u32 },
    /// The in-process signal was not possible; the process is to be killed
    /// by its process id.
    FallingBack { pid: u32 },
    /// The child is to be probed for its exit. `polls` sleeps have passed;
    /// `signalled` says whether the in-process signal was accepted.
    WaitingForExit { pid: u32, polls: u32, signalled: bool },
    /// The child was still running; a sleep is due before the next probe.
    Pausing { pid: u32, polls: u32, signalled: bool },
    /// The wait ran out; the child handle is to be dropped.
    TimedOut { pid: u32 },
    /// The handle is dropped; one last kill by process id is due.
    LastResort { pid: u32 },
    /// The record is to be removed from the registry.
    Closing { outcome: KillOutcome },
    /// Done: the process exited.
    Exited,
    /// Done: the process was killed by its process id.
    ForceKilled,
    /// Done: the process was given up and is no longer tracked.
    Abandoned,
    /// Done: the run was not tracked, and nothing was changed.
    Unknown,
}

/// What a state asks its driver to do.
#[derive(Clone, Copy, Debug, PartialEq, Eq, Structural)]
pub enum KillAction {
    /// Look the run up in the registry.
    Lookup,
    /// Signal the child through its handle.
    SendSignal,
    /// Probe the child handle for the exit of the process.
    Probe,
    /// Drop the child handle.
    ClearHandle,
    /// Remove the record from the registry.
    Unregister,
    /// Kill the process by its process id.
    Fallback { pid: u32 },
    /// Sleep for the poll interval.
    Sleep,
    /// Nothing is left to do; the value is the result of the kill.
    Finish(bool),
}

/// What the registry found when it carried out an action.
#[derive(Clone, Copy, Debug, PartialEq, Eq, Structural)]
pub enum KillFinding {
    /// The run is not tracked.
    NotFound,
    /// The run is tracked, with this process id, with or without a child
    /// handle.
    Found { pid: u32, has_child: bool },
    /// The child was signalled; the flag says whether that was accepted.
    Signalled { accepted: bool },
    /// The child handle was probed.
    Probed(ExitProbe),
    /// The child handle was dropped.
    HandleCleared,
    /// The record was removed.
    Unregistered,
}

/// What the driver reports of the work outside the registry.
#[derive(Clone, Copy, Debug, PartialEq, Eq, Structural)]
pub enum KillReport {
    /// The sleep is over.
    Slept,
    /// The kill by process id ended.
    FellBack(FallbackOutcome),
}

/// The action that `state` asks for.
pub open spec fn pending(state: KillState) -> KillAction {
    match state {
        KillState::Running => KillAction::Lookup,
        KillState::Signalling { .. } => KillAction::SendSignal,
        KillState::FallingBack { pid } => KillAction::Fallback { pid },
        KillState::WaitingForExit { .. } => KillAction::Probe,
        KillState::Pausing { .. } => KillAction::Sleep,
        KillState::TimedOut { .. } => KillAction::ClearHandle,
        KillState::LastResort { pid } => KillAction::Fallback { pid },
        KillState::Closing { .. } => KillAction::Unregister,
        KillState::Exited => KillAction::Finish(true),
        KillState::ForceKilled => KillAction::Finish(true),
        KillState::Abandoned => KillAction::Finish(true),
        KillState::Unknown => KillAction::Finish(false),
    }
}

/// Whether `state` is final.
pub open spec fn is_done(state: KillState) -> bool {
    pending(state) is Finish
}

/// Whether the action is work on the registry.
pub open spec fn is_registry_work(action: KillAction) -> bool {
    action is Lookup || action is SendSignal || action is Probe || action is ClearHandle
        || action is Unregister
}

/// Whether `finding` is what carrying out `action` can bring.
pub open spec fn finding_answers(finding: KillFinding, action: KillAction) -> bool {
    match action {
        KillAction::Lookup => finding is NotFound || finding is Found,
        KillAction::SendSignal => finding is Signalled,
        KillAction::Probe => finding is Probed,
        KillAction::ClearHandle => finding is HandleCleared,
        KillAction::Unregister => finding is Unregistered,
        _ => false,
    }
}

/// Whether `report` is what carrying out `action` can bring.
pub open spec fn report_answers(report: KillReport, action: KillAction) -> bool {
    match action {
        KillAction::Fallback { .. } => report is FellBack,
        KillAction::Sleep => report is Slept,
        _ => false,
    }
}

/// The state that follows `state` once the registry has found `finding`. A
/// finding that does not answer what the state asked for changes nothing.
pub open spec fn after_finding(state: KillState, finding: KillFinding) -> KillState {
    match (state, finding) {
        (KillState::Running, KillFinding::NotFound) => KillState::Unknown,
        (KillState::Running, KillFinding::Found { pid, has_child }) => if has_child {
            KillState::Signalling { pid }
        } else {
            KillState::FallingBack { pid }
        },
        (KillState::Signalling { pid }, KillFinding::Signalled { accepted }) => if accepted {
            KillState::WaitingForExit { pid, polls: 0, signalled: true }
        } else {
            KillState::FallingBack { pid }
        },
        (KillState::WaitingForExit { pid, polls, signalled }, KillFinding::Probed(probe)) => match probe {
            ExitProbe::Exited => KillState::Closing { outcome: KillOutcome::Exited },
            ExitProbe::StillRunning => KillState::Pausing { pid, polls, signalled },
            ExitProbe::Failed => KillState::Closing { outcome: KillOutcome::Abandoned },
            ExitProbe::NoHandle => KillState::Closing {
                outcome: if signalled {
                    KillOutcome::Exited
                } else {
                    KillOutcome::Abandoned
                },
            },
        },
        (KillState::TimedOut { pid }, KillFinding::HandleCleared) => KillState::LastResort { pid },
        (KillState::Closing { outcome }, KillFinding::Unregistered) => match outcome {
            KillOutcome::Exited => KillState::Exited,
            KillOutcome::ForceKilled => KillState::ForceKilled,
            KillOutcome::Abandoned => KillState::Abandoned,
        },
        _ => state,
    }
}

/// The state that follows `state` once the driver has reported `report`. A
/// report that does not answer what the state asked for changes nothing.
pub open spec fn after_report(state: KillState, report: KillReport) -> KillState {
    match (state, report) {
        (KillState::FallingBack { pid }, KillReport::FellBack(outcome)) => match outcome {
            FallbackOutcome::Killed => KillState::Closing { outcome: KillOutcome::ForceKilled },
            _ => KillState::WaitingForExit { pid, polls: 0, signalled: false },
        },
        (KillState::Pausing { pid, polls, signalled }, KillReport::Slept) => if polls
            >= MAX_EXIT_POLLS - 1 {
            KillState::TimedOut { pid }
        } else {
            KillState::WaitingForExit { pid, polls: (polls + 1) as u32, signalled }
        },
        (KillState::LastResort { pid }, KillReport::FellBack(outcome)) => match outcome {
            FallbackOutcome::Killed => KillState::Closing { outcome: KillOutcome::ForceKilled },
            _ => KillState::Closing { outcome: KillOutcome::Abandoned },
        },
        _ => state,
    }
}

/// An upper bound on the number of answered actions that lie between
/// `state` and the end of the protocol.
pub open spec fn steps_left(state: KillState) -> nat {
    match state {
        KillState::Running => 106,
        KillState::Signalling { .. } => 105,
        KillState::FallingBack { .. } => 104,
        KillState::WaitingForExit { polls, .. } => 5 + 2 * polls_left(polls),
        KillState::Pausing { polls, .. } => 4 + 2 * polls_left(polls),
        KillState::TimedOut { .. } => 3,
        KillState::LastResort { .. } => 2,
        KillState::Closing { .. } => 1,
        _ => 0,
    }
}

/// Sleeps that may still follow the one that is due after `polls` sleeps.
pub open spec fn polls_left(polls: u32) -> nat {
    if polls >= MAX_EXIT_POLLS - 1 {
        0
    } else {
        (MAX_EXIT_POLLS - 1 - polls) as nat
    }
}

/// Every finding that answers the pending action brings the protocol
/// closer to its end.
pub proof fn lemma_finding_makes_progress(state: KillState, finding: KillFinding)
    requires
        finding_answers(finding, pending(state)),
    ensures
        steps_left(after_finding(state, finding)) < steps_left(state),
{
}

/// Every report that answers the pending action brings the protocol closer
/// to its end.
pub proof fn lemma_report_makes_progress(state: KillState, report: KillReport)
    requires
        report_answers(report, pending(state)),
    ensures
        steps_left(after_report(state, report)) < steps_left(state),
{
}

/// A finding or report that does not answer the pending action is ignored.
pub proof fn lemma_unasked_is_ignored(state: KillState, finding: KillFinding, report: KillReport)
    ensures
        !finding_answers(finding, pending(state)) ==> after_finding(state, finding) == state,
        !report_answers(report, pending(state)) ==> after_report(state, report) == state,
{
}

/// A final state stays what it is.
pub proof fn lemma_done_is_final(state: KillState, finding: KillFinding, report: KillReport)
    requires
        is_done(state),
    ensures
        after_finding(state, finding) == state,
        after_report(state, report) == state,
{
}

/// The kill reports `false` only for a run that was not found when the
/// protocol began: no step leads to `Unknown` but that one.
pub proof fn lemma_false_only_when_not_found(
    state: KillState,
    finding: KillFinding,
    report: KillReport,
)
    requires
        !(state is Unknown),
    ensures
        after_finding(state, finding) is Unknown ==> state is Running && finding is NotFound,
        !(after_report(state, report) is Unknown),
{
}

/// A termination ends with `true` only through the removal of the record:
/// the only step into a final state other than `Unknown` is the one that
/// answers `Unregister`.
pub proof fn lemma_true_only_after_unregister(
    state: KillState,
    finding: KillFinding,
    report: KillReport,
)
    requires
        !is_done(state),
    ensures
        pending(after_finding(state, finding)) == KillAction::Finish(true) ==> state is Closing
            && finding is Unregistered,
        !(pending(after_report(state, report)) == KillAction::Finish(true)),
{
}

/// Once the wait has run out nothing is waited for again: from `TimedOut`
/// on, no state asks for a probe or a sleep.
pub proof fn lemma_no_wait_after_timeout(state: KillState, finding: KillFinding, report: KillReport)
    requires
        state is TimedOut || state is LastResort || state is Closing || is_done(state),
    ensures
        !(pending(after_finding(state, finding)) is Probe),
        !(pending(after_finding(state, finding)) is Sleep),
        !(pending(after_report(state, report)) is Probe),
        !(pending(after_report(state, report)) is Sleep),
        !(after_finding(state, finding) is TimedOut) || state is TimedOut,
        !(after_report(state, report) is TimedOut) || state is TimedOut,
{
}

/// A child that has exited by the first probe is never slept for: from the
/// accepted signal the protocol goes to the removal of the record and ends
/// with `true`.
pub proof fn lemma_exited_child_is_removed_at_once(pid: u32)
    ensures
        ({
            let s1 = after_finding(KillState::Running, KillFinding::Found { pid, has_child: true });
            let s2 = after_finding(s1, KillFinding::Signalled { accepted: true });
            let s3 = after_finding(s2, KillFinding::Probed(ExitProbe::Exited));
            let s4 = after_finding(s3, KillFinding::Unregistered);
            &&& pending(s1) == KillAction::SendSignal
            &&& pending(s2) == KillAction::Probe
            &&& pending(s3) == KillAction::Unregister
            &&& s4 == KillState::Exited
            &&& pending(s4) == KillAction::Finish(true)
        }),
{
}

/// What happens to a termination: the registry finds something, or the
/// driver reports something.
#[derive(Clone, Copy, Debug, PartialEq, Eq, Structural)]
pub enum KillEvent {
    Found(KillFinding),
    Reported(KillReport),
}

/// Whether `event` is what carrying out `action` can bring.
pub open spec fn answers(event: KillEvent, action: KillAction) -> bool {
    match event {
        KillEvent::Found(finding) => finding_answers(finding, action),
        KillEvent::Reported(report) => report_answers(report, action),
    }
}

/// The state that follows `state` once `event` has happened.
pub open spec fn after_event(state: KillState, event: KillEvent) -> KillState {
    match event {
        KillEvent::Found(finding) => after_finding(state, finding),
        KillEvent::Reported(report) => after_report(state, report),
    }
}

/// The state that follows `state` once all of `events` have happened, in
/// order.
pub open spec fn after_events(state: KillState, events: Seq<KillEvent>) -> KillState
    decreases events.len(),
{
    if events.len() == 0 {
        state
    } else {
        after_events(after_event(state, events[0]), events.drop_first())
    }
}

/// Whether each of `events` answers what the state that it meets asks
/// for, as long as the termination has not ended.
pub open spec fn answered_in_turn(state: KillState, events: Seq<KillEvent>) -> bool
    decreases events.len(),
{
    events.len() == 0 || is_done(state) || (answers(events[0], pending(state)) && answered_in_turn(
        after_event(state, events[0]),
        events.drop_first(),
    ))
}

/// Whether any of `events` says that the run is not tracked.
pub open spec fn says_not_found(events: Seq<KillEvent>) -> bool {
    exists|i: int|
        0 <= i < events.len() && #[trigger] events[i] == KillEvent::Found(KillFinding::NotFound)
}

/// The termination ends, whatever the child and the kill facility do:
/// once as many actions have been answered as `steps_left` allows, the
/// state is final. From the start these are 106 actions, of which no more
/// than `MAX_EXIT_POLLS` are sleeps.
pub proof fn lemma_termination_ends(state: KillState, events: Seq<KillEvent>)
    requires
        answered_in_turn(state, events),
        events.len() >= steps_left(state),
    ensures
        is_done(after_events(state, events)),
    decreases events.len(),
{
    if events.len() == 0 {
    } else if is_done(state) {
        lemma_done_stays_done(state, events);
    } else {
        match events[0] {
            KillEvent::Found(finding) => {
                lemma_finding_makes_progress(state, finding);
            },
            KillEvent::Reported(report) => {
                lemma_report_makes_progress(state, report);
            },
        }
        lemma_termination_ends(after_event(state, events[0]), events.drop_first());
    }
}

/// Nothing that happens changes a final state.
pub proof fn lemma_done_stays_done(state: KillState, events: Seq<KillEvent>)
    requires
        is_done(state),
    ensures
        after_events(state, events) == state,
    decreases events.len(),
{
    if events.len() > 0 {
        lemma_done_stays_done(state, events.drop_first());
    }
}

/// The termination of a tracked run ends with `true`: where no event says
/// that the run is not tracked, the state never becomes `Unknown`, so a
/// final state reports `true`. The child may never respond and every kill
/// may fail: the run is given up and the result is `true` all the same.
pub proof fn lemma_tracked_run_ends_true(state: KillState, events: Seq<KillEvent>)
    requires
        !(state is Unknown),
        !says_not_found(events),
    ensures
        !(after_events(state, events) is Unknown),
        is_done(after_events(state, events)) ==> pending(after_events(state, events))
            == KillAction::Finish(true),
    decreases events.len(),
{
    if events.len() > 0 {
        let rest = events.drop_first();
        assert(events[0] != KillEvent::Found(KillFinding::NotFound));
        assert forall|i: int| 0 <= i < rest.len() implies #[trigger] rest[i] != KillEvent::Found(
            KillFinding::NotFound,
        ) by {
            assert(rest[i] == events[i + 1]);
        }
        lemma_tracked_run_ends_true(after_event(state, events[0]), rest);
    }
}

/// The wait for the exit is bounded: the sleeps that a state has counted
/// never exceed `MAX_EXIT_POLLS` while it asks for another probe or sleep,
/// whatever happens, once they are within that bound.
pub proof fn lemma_sleeps_are_bounded(state: KillState, event: KillEvent)
    requires
        polls_of(state) < MAX_EXIT_POLLS,
    ensures
        polls_of(after_event(state, event)) < MAX_EXIT_POLLS,
        polls_of(after_event(state, event)) <= polls_of(state) + 1,
        polls_of(after_event(state, event)) == polls_of(state) + 1 ==> state is Pausing && event
            == KillEvent::Reported(KillReport::Slept),
{
}

/// The sleeps that a state has counted.
pub open spec fn polls_of(state: KillState) -> nat {
    match state {
        KillState::WaitingForExit { polls, .. } => polls as nat,
        KillState::Pausing { polls, .. } => polls as nat,
        _ => 0,
    }
}

impl KillAction {
    /// Whether the action is work on the registry.
    pub fn for_registry(&self) -> (yes: bool)
        ensures
            yes == is_registry_work(*self),
    {
        match self {
            KillAction::Lookup => true,
            KillAction::SendSignal => true,
            KillAction::Probe => true,
            KillAction::ClearHandle => true,
            KillAction::Unregister => true,
            _ => false,
        }
    }
}

impl KillState {
    /// The action that this state asks for.
    pub fn action(&self) -> (action: KillAction)
        ensures
            action == pending(*self),
    {
        match self {
            KillState::Running => KillAction::Lookup,
            KillState::Signalling { .. } => KillAction::SendSignal,
            KillState::FallingBack { pid } => KillAction::Fallback { pid: *pid },
            KillState::WaitingForExit { .. } => KillAction::Probe,
            KillState::Pausing { .. } => KillAction::Sleep,
            KillState::TimedOut { .. } => KillAction::ClearHandle,
            KillState::LastResort { pid } => KillAction::Fallback { pid: *pid },
            KillState::Closing { .. } => KillAction::Unregister,
            KillState::Exited => KillAction::Finish(true),
            KillState::ForceKilled => KillAction::Finish(true),
            KillState::Abandoned => KillAction::Finish(true),
            KillState::Unknown => KillAction::Finish(false),
        }
    }

    /// The state after the registry has found `finding`.
    pub fn on_finding(self, finding: KillFinding) -> (next: KillState)
        ensures
            next == after_finding(self, finding),
    {
        match self {
            KillState::Running => match finding {
                KillFinding::NotFound => KillState::Unknown,
                KillFinding::Found { pid, has_child } => {
                    if has_child {
                        KillState::Signalling { pid }
                    } else {
                        KillState::FallingBack { pid }
                    }
                },
                _ => self,
            },
            KillState::Signalling { pid } => match finding {
                KillFinding::Signalled { accepted } => {
                    if accepted {
                        KillState::WaitingForExit { pid, polls: 0, signalled: true }
                    } else {
                        KillState::FallingBack { pid }
                    }
                },
                _ => self,
            },
            KillState::WaitingForExit { pid, polls, signalled } => match finding {
                KillFinding::Probed(ExitProbe::Exited) => KillState::Closing {
                    outcome: KillOutcome::Exited,
                },
                KillFinding::Probed(ExitProbe::StillRunning) => KillState::Pausing {
                    pid,
                    polls,
                    signalled,
                },
                KillFinding::Probed(ExitProbe::Failed) => KillState::Closing {
                    outcome: KillOutcome::Abandoned,
                },
                KillFinding::Probed(ExitProbe::NoHandle) => {
                    if signalled {
                        KillState::Closing { outcome: KillOutcome::Exited }
                    } else {
                        KillState::Closing { outcome: KillOutcome::Abandoned }
                    }
                },
                _ => self,
            },
            KillState::TimedOut { pid } => match finding {
                KillFinding::HandleCleared => KillState::LastResort { pid },
                _ => self,
            },
            KillState::Closing { outcome } => match finding {
                KillFinding::Unregistered => match outcome {
                    KillOutcome::Exited => KillState::Exited,
                    KillOutcome::ForceKilled => KillState::ForceKilled,
                    KillOutcome::Abandoned => KillState::Abandoned,
                },
                _ => self,
            },
            _ => self,
        }
    }

    /// The state after the driver has reported `report`.
    pub fn on_report(self, report: KillReport) -> (next: KillState)
        ensures
            next == after_report(self, report),
    {
        match self {
            KillState::FallingBack { pid } => match report {
                KillReport::FellBack(FallbackOutcome::Killed) => KillState::Closing {
                    outcome: KillOutcome::ForceKilled,
                },
                KillReport::FellBack(_) => KillState::WaitingForExit {
                    pid,
                    polls: 0,
                    signalled: false,
                },
                _ => self,
            },
            KillState::Pausing { pid, polls, signalled } => match report {
                KillReport::Slept => {
                    if polls >= MAX_EXIT_POLLS - 1 {
                        KillState::TimedOut { pid }
                    } else {
                        KillState::WaitingForExit { pid, polls: polls + 1, signalled }
                    }
                },
                _ => self,
            },
            KillState::LastResort { pid } => match report {
                KillReport::FellBack(FallbackOutcome::Killed) => KillState::Closing {
                    outcome: KillOutcome::ForceKilled,
                },
                KillReport::FellBack(_) => KillState::Closing { outcome: KillOutcome::Abandoned },
                _ => self,
            },
            _ => self,
        }
    }
}

} // verus!
