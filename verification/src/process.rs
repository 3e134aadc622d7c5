//! What is known about one tracked process.

use crate::buffer::CircularOutputBuffer;
use tokio::process::Child;
use vstd::prelude::*;

verus! {

/// The handle that tokio gives for a spawned child process. Nothing inside
/// it is visible here; it is held, handed to tokio, and dropped.
#[verifier::external_type_specification]
#[verifier::external_body]
pub struct ExChild(Child);

/// Kind of process being tracked.
#[derive(Debug)]
pub enum ProcessType {
    AgentRun { agent_id: i64, agent_name: String },
    ClaudeSession { session_id: String },
}

/// A point in time: whole seconds since the start of 1970 (UTC) and the
/// nanoseconds into that second.
#[derive(Clone, Copy, Debug, PartialEq, Eq, Structural)]
pub struct Timestamp {
    pub secs: i64,
    pub nanos: u32,
}

/// Metadata of a tracked process, fixed when it is registered.
#[derive(Debug)]
pub struct ProcessInfo {
    pub run_id: i64,
    pub process_type: ProcessType,
    pub pid: u32,
    pub started_at: Timestamp,
    pub project_path: String,
    pub task: String,
    pub model: String,
}

/// One tracked process: its metadata, the handle of the child where the
/// registry owns one, and the output captured so far.
pub struct ProcessHandle {
    pub info: ProcessInfo,
    pub child: Option<Child>,
    pub live_output: CircularOutputBuffer,
}

/// What a non-blocking look at a child process found.
#[derive(Clone, Copy, Debug, PartialEq, Eq, Structural)]
pub enum ProbeOutcome {
    /// The process has exited and was reaped.
    Exited,
    /// The process has not exited yet.
    StillRunning,
    /// The state of the process could not be read.
    Failed,
}

impl Clone for ProcessType {
    /// A copy that is equal to what it was made from.
    fn clone(&self) -> (copy: Self)
        ensures
            copy == *self,
    {
        match self {
            ProcessType::AgentRun { agent_id, agent_name } => ProcessType::AgentRun {
                agent_id: *agent_id,
                agent_name: agent_name.clone(),
            },
            ProcessType::ClaudeSession { session_id } => ProcessType::ClaudeSession {
                session_id: session_id.clone(),
            },
        }
    }
}

impl Clone for ProcessInfo {
    /// A copy that is equal to what it was made from.
    fn clone(&self) -> (copy: Self)
        ensures
            copy == *self,
    {
        ProcessInfo {
            run_id: self.run_id,
            process_type: self.process_type.clone(),
            pid: self.pid,
            started_at: self.started_at,
            project_path: self.project_path.clone(),
            task: self.task.clone(),
            model: self.model.clone(),
        }
    }
}

impl ProcessType {
    /// Whether this is an agent run.
    pub fn is_agent_run(&self) -> (yes: bool)
        ensures
            yes == (*self is AgentRun),
    {
        match self {
            ProcessType::AgentRun { .. } => true,
            ProcessType::ClaudeSession { .. } => false,
        }
    }
}

/// Asks tokio, without blocking, whether the child has exited
/// (`Child::try_wait`). What comes back depends on the process, so nothing
/// is claimed about it.
#[verifier::external_body]
pub(crate) fn probe_child(child: &mut Child) -> (outcome: ProbeOutcome) {
    match child.try_wait() {
        Ok(Some(_)) => ProbeOutcome::Exited,
        Ok(None) => ProbeOutcome::StillRunning,
        Err(_) => ProbeOutcome::Failed,
    }
}

/// Asks tokio to kill the child (`Child::start_kill`) and says whether the
/// request was accepted. What comes back depends on the process, so nothing
/// is claimed about it.
#[verifier::external_body]
pub(crate) fn signal_child(child: &mut Child) -> (accepted: bool) {
    child.start_kill().is_ok()
}

/// Reads the clock through chrono (`Utc::now`) and takes the time apart
/// into seconds and nanoseconds. What comes back depends on the clock, so
/// nothing is claimed about it. chrono panics where the clock stands
/// before 1970.
#[verifier::external_body]
pub(crate) fn current_time() -> (now: Timestamp) {
    let now = chrono::Utc::now();
    Timestamp { secs: now.timestamp(), nanos: now.timestamp_subsec_nanos() }
}

impl ProcessHandle {
    /// Whether the registry holds the handle of the child.
    pub fn has_child(&self) -> (yes: bool)
        ensures
            yes == (self.child is Some),
    {
        self.child.is_some()
    }

    /// Takes in what a probe of the child found: a child that is still
    /// running stays; the handle of any other is dropped. Says whether the
    /// child is running.
    pub fn settle_probe(&mut self, outcome: Option<ProbeOutcome>) -> (running: bool)
        ensures
            running == (outcome == Some(ProbeOutcome::StillRunning) && old(self).child is Some),
            final(self).child == if running {
                old(self).child
            } else {
                None
            },
            final(self).info == old(self).info,
            final(self).live_output == old(self).live_output,
    {
        let running: bool = match outcome {
            Some(ProbeOutcome::StillRunning) => self.child.is_some(),
            _ => false,
        };
        if !running {
            self.child = None;
        }
        running
    }

    /// Signals the child, if one is held, and says whether the signal was
    /// accepted.
    pub fn signal(&mut self) -> (accepted: bool)
        ensures
            accepted ==> old(self).child is Some,
            final(self).child is Some == (old(self).child is Some),
            final(self).info == old(self).info,
            final(self).live_output == old(self).live_output,
    {
        match &mut self.child {
            Some(child) => signal_child(child),
            None => false,
        }
    }

    /// Probes the child, if one is held.
    pub fn probe(&mut self) -> (outcome: Option<ProbeOutcome>)
        ensures
            outcome is Some == (old(self).child is Some),
            final(self).child is Some == (old(self).child is Some),
            final(self).info == old(self).info,
            final(self).live_output == old(self).live_output,
    {
        match &mut self.child {
            Some(child) => Some(probe_child(child)),
            None => None,
        }
    }
}

} // verus!
