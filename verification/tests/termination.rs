use process_registry::fallback::{
    PidKillAction, PidKillReport, PidKillState, SignalClass, SignalReport, GRACE_PERIOD_MS,
};
use process_registry::termination::{
    ExitProbe, FallbackOutcome, KillAction, KillFinding, KillOutcome, KillReport, KillState,
    EXIT_POLL_INTERVAL_MS, MAX_EXIT_POLLS,
};

#[test]
fn timing_constants() {
    assert_eq!(EXIT_POLL_INTERVAL_MS, 100);
    assert_eq!(MAX_EXIT_POLLS, 50);
    assert_eq!(EXIT_POLL_INTERVAL_MS * MAX_EXIT_POLLS as u64, 5000);
    assert_eq!(GRACE_PERIOD_MS, 2000);
}

#[test]
fn unknown_run_ends_false() {
    let state = KillState::Running;
    assert_eq!(state.action(), KillAction::Lookup);
    let state = state.on_finding(KillFinding::NotFound);
    assert_eq!(state, KillState::Unknown);
    assert_eq!(state.action(), KillAction::Finish(false));
}

#[test]
fn responsive_child_exits_after_signal() {
    let state = KillState::Running.on_finding(KillFinding::Found { pid: 7, has_child: true });
    assert_eq!(state.action(), KillAction::SendSignal);
    let state = state.on_finding(KillFinding::Signalled { accepted: true });
    assert_eq!(state, KillState::WaitingForExit { pid: 7, polls: 0, signalled: true });
    assert_eq!(state.action(), KillAction::Probe);
    let state = state.on_finding(KillFinding::Probed(ExitProbe::StillRunning));
    assert_eq!(state.action(), KillAction::Sleep);
    let state = state.on_report(KillReport::Slept);
    assert_eq!(state, KillState::WaitingForExit { pid: 7, polls: 1, signalled: true });
    let state = state.on_finding(KillFinding::Probed(ExitProbe::Exited));
    assert_eq!(state, KillState::Closing { outcome: KillOutcome::Exited });
    assert_eq!(state.action(), KillAction::Unregister);
    let state = state.on_finding(KillFinding::Unregistered);
    assert_eq!(state, KillState::Exited);
    assert_eq!(state.action(), KillAction::Finish(true));
}

#[test]
fn child_that_never_responds_is_abandoned() {
    let mut state = KillState::Running
        .on_finding(KillFinding::Found { pid: 7, has_child: true })
        .on_finding(KillFinding::Signalled { accepted: true });
    let mut probes = 0;
    let mut sleeps = 0;
    loop {
        match state.action() {
            KillAction::Probe => {
                probes += 1;
                state = state.on_finding(KillFinding::Probed(ExitProbe::StillRunning));
            }
            KillAction::Sleep => {
                sleeps += 1;
                state = state.on_report(KillReport::Slept);
            }
            _ => break,
        }
    }
    assert_eq!(probes, 50);
    assert_eq!(sleeps, 50);
    assert_eq!(state, KillState::TimedOut { pid: 7 });
    assert_eq!(state.action(), KillAction::ClearHandle);
    let state = state.on_finding(KillFinding::HandleCleared);
    assert_eq!(state.action(), KillAction::Fallback { pid: 7 });
    let state = state.on_report(KillReport::FellBack(FallbackOutcome::NotKilled));
    assert_eq!(state, KillState::Closing { outcome: KillOutcome::Abandoned });
    let state = state.on_finding(KillFinding::Unregistered);
    assert_eq!(state, KillState::Abandoned);
    assert_eq!(state.action(), KillAction::Finish(true));
}

#[test]
fn last_resort_kill_that_works_is_force_killed() {
    let state = KillState::LastResort { pid: 3 }
        .on_report(KillReport::FellBack(FallbackOutcome::Killed))
        .on_finding(KillFinding::Unregistered);
    assert_eq!(state, KillState::ForceKilled);
    let state = KillState::LastResort { pid: 3 }
        .on_report(KillReport::FellBack(FallbackOutcome::Failed))
        .on_finding(KillFinding::Unregistered);
    assert_eq!(state, KillState::Abandoned);
}

#[test]
fn run_without_handle_falls_back_to_its_pid() {
    let state = KillState::Running.on_finding(KillFinding::Found { pid: 9, has_child: false });
    assert_eq!(state, KillState::FallingBack { pid: 9 });
    assert_eq!(state.action(), KillAction::Fallback { pid: 9 });
    let killed = state.on_report(KillReport::FellBack(FallbackOutcome::Killed));
    assert_eq!(killed, KillState::Closing { outcome: KillOutcome::ForceKilled });
    assert_eq!(killed.on_finding(KillFinding::Unregistered), KillState::ForceKilled);
    let unreachable = state.on_report(KillReport::FellBack(FallbackOutcome::NotKilled));
    assert_eq!(unreachable, KillState::WaitingForExit { pid: 9, polls: 0, signalled: false });
    let gone = unreachable.on_finding(KillFinding::Probed(ExitProbe::NoHandle));
    assert_eq!(gone, KillState::Closing { outcome: KillOutcome::Abandoned });
    assert_eq!(gone.on_finding(KillFinding::Unregistered).action(), KillAction::Finish(true));
}

#[test]
fn refused_signal_falls_back_to_the_pid() {
    let state = KillState::Signalling { pid: 4 }.on_finding(KillFinding::Signalled { accepted: false });
    assert_eq!(state, KillState::FallingBack { pid: 4 });
    let state = state.on_report(KillReport::FellBack(FallbackOutcome::Failed));
    assert_eq!(state, KillState::WaitingForExit { pid: 4, polls: 0, signalled: false });
}

#[test]
fn probe_outcomes_while_waiting() {
    let waiting = KillState::WaitingForExit { pid: 1, polls: 3, signalled: true };
    assert_eq!(
        waiting.on_finding(KillFinding::Probed(ExitProbe::Failed)),
        KillState::Closing { outcome: KillOutcome::Abandoned }
    );
    assert_eq!(
        waiting.on_finding(KillFinding::Probed(ExitProbe::NoHandle)),
        KillState::Closing { outcome: KillOutcome::Exited }
    );
    assert_eq!(
        waiting.on_finding(KillFinding::Probed(ExitProbe::StillRunning)),
        KillState::Pausing { pid: 1, polls: 3, signalled: true }
    );
}

#[test]
fn the_last_sleep_ends_the_wait() {
    let state = KillState::Pausing { pid: 1, polls: 48, signalled: true }.on_report(KillReport::Slept);
    assert_eq!(state, KillState::WaitingForExit { pid: 1, polls: 49, signalled: true });
    let state = KillState::Pausing { pid: 1, polls: 49, signalled: true }.on_report(KillReport::Slept);
    assert_eq!(state, KillState::TimedOut { pid: 1 });
    let state =
        KillState::Pausing { pid: 1, polls: u32::MAX, signalled: true }.on_report(KillReport::Slept);
    assert_eq!(state, KillState::TimedOut { pid: 1 });
}

#[test]
fn what_was_not_asked_for_is_ignored() {
    let waiting = KillState::WaitingForExit { pid: 1, polls: 0, signalled: true };
    assert_eq!(waiting.on_report(KillReport::Slept), waiting);
    assert_eq!(waiting.on_finding(KillFinding::Unregistered), waiting);
    assert_eq!(waiting.on_finding(KillFinding::NotFound), waiting);
    assert_eq!(KillState::Running.on_finding(KillFinding::Unregistered), KillState::Running);
    assert_eq!(KillState::Exited.on_finding(KillFinding::NotFound), KillState::Exited);
    assert_eq!(
        KillState::Unknown.on_report(KillReport::FellBack(FallbackOutcome::Killed)),
        KillState::Unknown
    );
}

#[test]
fn registry_work_and_driver_work() {
    assert!(KillAction::Lookup.for_registry());
    assert!(KillAction::SendSignal.for_registry());
    assert!(KillAction::Probe.for_registry());
    assert!(KillAction::ClearHandle.for_registry());
    assert!(KillAction::Unregister.for_registry());
    assert!(!KillAction::Sleep.for_registry());
    assert!(!KillAction::Fallback { pid: 1 }.for_registry());
    assert!(!KillAction::Finish(true).for_registry());
}

#[test]
fn graceful_kill_of_a_process_that_obeys() {
    let state = PidKillState::start(11, true);
    assert_eq!(state.action(), PidKillAction::Signal { pid: 11, class: SignalClass::Graceful });
    let state = state.on_report(PidKillReport::Signalled(SignalReport::Succeeded));
    assert_eq!(state.action(), PidKillAction::Sleep);
    let state = state.on_report(PidKillReport::Slept);
    assert_eq!(state.action(), PidKillAction::Signal { pid: 11, class: SignalClass::Probe });
    let state = state.on_report(PidKillReport::Signalled(SignalReport::Refused));
    assert_eq!(state, PidKillState::Removing);
    assert_eq!(state.action(), PidKillAction::Unregister);
    let state = state.on_removal();
    assert_eq!(state.action(), PidKillAction::Finish(FallbackOutcome::Killed));
}

#[test]
fn graceful_kill_of_a_process_that_stays() {
    let state = PidKillState::start(11, true)
        .on_report(PidKillReport::Signalled(SignalReport::Succeeded))
        .on_report(PidKillReport::Slept)
        .on_report(PidKillReport::Signalled(SignalReport::Succeeded));
    assert_eq!(state.action(), PidKillAction::Signal { pid: 11, class: SignalClass::Forceful });
    assert_eq!(
        state.on_report(PidKillReport::Signalled(SignalReport::Succeeded)),
        PidKillState::Removing
    );
    assert_eq!(
        state.on_report(PidKillReport::Signalled(SignalReport::Refused)),
        PidKillState::Done(FallbackOutcome::NotKilled)
    );
    assert_eq!(
        state.on_report(PidKillReport::Signalled(SignalReport::NotRun)),
        PidKillState::Done(FallbackOutcome::Failed)
    );
}

#[test]
fn refused_graceful_signal_goes_to_force() {
    for report in [SignalReport::Refused, SignalReport::NotRun] {
        let state = PidKillState::start(11, true).on_report(PidKillReport::Signalled(report));
        assert_eq!(state, PidKillState::Killing { pid: 11 });
    }
}

#[test]
fn unreadable_probe_counts_as_gone() {
    let state = PidKillState::Checking { pid: 2 }.on_report(PidKillReport::Signalled(SignalReport::NotRun));
    assert_eq!(state, PidKillState::Removing);
}

#[test]
fn platform_without_graceful_signal_kills_at_once() {
    let state = PidKillState::start(11, false);
    assert_eq!(state.action(), PidKillAction::Signal { pid: 11, class: SignalClass::Forceful });
}

#[test]
fn pid_kill_ignores_what_was_not_asked_for() {
    let state = PidKillState::Terminating { pid: 1 };
    assert_eq!(state.on_report(PidKillReport::Slept), state);
    assert_eq!(state.on_removal(), state);
    let grace = PidKillState::Grace { pid: 1 };
    assert_eq!(grace.on_report(PidKillReport::Signalled(SignalReport::Succeeded)), grace);
    let done = PidKillState::Done(FallbackOutcome::NotKilled);
    assert_eq!(done.on_report(PidKillReport::Slept), done);
    assert_eq!(done.on_removal(), done);
}
