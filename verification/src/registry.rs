//! The table of tracked processes.

use crate::buffer::{
    appended, appended_all, joined, last_lines, total_bytes_of, CircularOutputBuffer,
};
use crate::process::{current_time, ProbeOutcome, ProcessHandle, ProcessInfo, ProcessType};
use crate::fallback::{
    pid_kill_after_removal, pid_kill_after_report, pid_kill_pending, pid_kill_start, PidKillAction,
    PidKillReport, PidKillState,
};
use crate::termination::{
    after_finding, after_report, finding_answers, is_done, is_registry_work,
    lemma_finding_makes_progress, pending, steps_left, ExitProbe, KillAction, KillFinding,
    KillReport, KillState,
};
use std::collections::HashMap;
use tokio::process::Child;
use vstd::prelude::*;
use vstd::std_specs::hash::*;
use vstd::std_specs::iter::IteratorSpec;

verus! {

broadcast use vstd::std_specs::hash::group_hash_axioms;

/// First run id that the registry hands out by itself.
pub const FIRST_GENERATED_ID: i64 = 1000000;

/// Line cap of the output buffer of a newly registered process.
pub const DEFAULT_MAX_LINES: usize = 1000;

/// Byte cap of the output buffer of a newly registered process (1 MiB).
pub const DEFAULT_MAX_BYTES: usize = 1048576;

/// Why the registry could not do what it was asked.
#[derive(Clone, Copy, Debug, PartialEq, Eq, Structural)]
pub enum RegistryError {
    /// Every run id that the registry can hand out is in use.
    IdsExhausted,
}

/// Which kinds of process a listing asks for.
#[derive(Clone, Copy, Debug, PartialEq, Eq, Structural)]
pub enum KindFilter {
    All,
    AgentRuns,
    ClaudeSessions,
}

impl KindFilter {
    /// Whether a process with this metadata is asked for.
    pub open spec fn admits(self, info: ProcessInfo) -> bool {
        match self {
            KindFilter::All => true,
            KindFilter::AgentRuns => info.process_type is AgentRun,
            KindFilter::ClaudeSessions => info.process_type is ClaudeSession,
        }
    }
}

/// A record is stored under the run id that its metadata names, and its
/// output buffer is consistent.
pub open spec fn record_ok(run_id: i64, handle: ProcessHandle) -> bool {
    handle.info.run_id == run_id && handle.live_output.wf()
}

/// A record as it is right after registration: the given metadata and
/// child handle, and an empty output buffer with the default caps.
pub open spec fn fresh_record(
    handle: ProcessHandle,
    info: ProcessInfo,
    child: Option<Child>,
) -> bool {
    &&& handle.info == info
    &&& handle.child == child
    &&& handle.live_output.wf()
    &&& handle.live_output@ == Seq::<Seq<char>>::empty()
    &&& handle.live_output.line_limit() == DEFAULT_MAX_LINES
    &&& handle.live_output.byte_limit() == DEFAULT_MAX_BYTES
}

/// Metadata that names everything but the time of registration.
pub open spec fn describes(
    info: ProcessInfo,
    run_id: i64,
    process_type: ProcessType,
    pid: u32,
    project_path: String,
    task: String,
    model: String,
) -> bool {
    &&& info.run_id == run_id
    &&& info.process_type == process_type
    &&& info.pid == pid
    &&& info.project_path == project_path
    &&& info.task == task
    &&& info.model == model
}

/// The metadata stored under `run_id`, if the run is tracked.
pub open spec fn info_of(table: Map<i64, ProcessHandle>, run_id: i64) -> Option<ProcessInfo> {
    if table.contains_key(run_id) {
        Some(table[run_id].info)
    } else {
        None
    }
}

/// `infos` lists the metadata of exactly those tracked processes that
/// `filter` admits, each once, in no particular order.
pub open spec fn lists(
    table: Map<i64, ProcessHandle>,
    infos: Seq<ProcessInfo>,
    filter: KindFilter,
) -> bool {
    &&& forall|i: int|
        0 <= i < infos.len() ==> table.contains_key(#[trigger] infos[i].run_id)
            && table[infos[i].run_id].info == infos[i] && filter.admits(infos[i])
    &&& forall|i: int, j: int|
        0 <= i < j < infos.len() ==> #[trigger] infos[i].run_id != #[trigger] infos[j].run_id
    &&& forall|id: i64|
        #[trigger] table.contains_key(id) && filter.admits(table[id].info) ==> exists|i: int|
            0 <= i < infos.len() && #[trigger] infos[i].run_id == id
}

/// Whether the metadata is that of the session with this session id.
pub open spec fn is_session(info: ProcessInfo, session_id: Seq<char>) -> bool {
    info.process_type matches ProcessType::ClaudeSession { session_id: sid } && sid@ == session_id
}

/// `after` differs from `before` at most in the record of `run_id`.
pub open spec fn others_untouched(
    before: Map<i64, ProcessHandle>,
    after: Map<i64, ProcessHandle>,
    run_id: i64,
) -> bool {
    forall|id: i64|
        id != run_id ==> (#[trigger] after.contains_key(id) == before.contains_key(id)) && (
        before.contains_key(id) ==> after[id] == before[id])
}

/// `after` tracks the same runs as `before`, with the same metadata and
/// output; child handles may have been dropped, none was gained.
pub open spec fn only_children_dropped(
    before: Map<i64, ProcessHandle>,
    after: Map<i64, ProcessHandle>,
) -> bool {
    &&& after.dom() == before.dom()
    &&& forall|id: i64| #[trigger]
        before.contains_key(id) ==> {
            &&& after[id].info == before[id].info
            &&& after[id].live_output == before[id].live_output
            &&& after[id].child is Some ==> before[id].child is Some
        }
}

/// What looking `run_id` up for a termination finds.
pub open spec fn lookup_finding(table: Map<i64, ProcessHandle>, run_id: i64) -> KillFinding {
    if table.contains_key(run_id) {
        KillFinding::Found {
            pid: table[run_id].info.pid,
            has_child: table[run_id].child is Some,
        }
    } else {
        KillFinding::NotFound
    }
}

/// `after` differs from `before` at most in the record of `run_id`, which
/// may be gone or may have lost its child handle; its metadata and output
/// are as they were.
pub open spec fn touches_only(
    before: Map<i64, ProcessHandle>,
    after: Map<i64, ProcessHandle>,
    run_id: i64,
) -> bool {
    &&& others_untouched(before, after, run_id)
    &&& after.contains_key(run_id) ==> {
        &&& before.contains_key(run_id)
        &&& after[run_id].info == before[run_id].info
        &&& after[run_id].live_output == before[run_id].live_output
        &&& after[run_id].child is Some ==> before[run_id].child is Some
    }
}

/// Whether `run_id` is tracked with a child handle.
pub open spec fn has_handle(table: Map<i64, ProcessHandle>, run_id: i64) -> bool {
    table.contains_key(run_id) && table[run_id].child is Some
}

/// What is certain of the work that the registry does on a termination
/// that stands at `from`, before it hands over at `to`, whatever the child
/// does:
/// - nothing is done where the next action is the driver's, or none is
///   left;
/// - a run that is not tracked is unknown, and a tracked run never is;
/// - a run without child handle is not signalled but left to the kill by
///   process id, and is not waited for;
/// - a record that is due for removal is removed;
/// - after the wait ran out the handle is dropped;
/// - the end is reached with `true` only through the removal.
pub open spec fn settles(
    before: Map<i64, ProcessHandle>,
    after: Map<i64, ProcessHandle>,
    run_id: i64,
    from: KillState,
    to: KillState,
) -> bool {
    &&& !is_registry_work(pending(from)) ==> to == from && after == before
    &&& to is Unknown ==> after == before && (from is Unknown || (from is Running
        && !before.contains_key(run_id)))
    &&& from is Running && !before.contains_key(run_id) ==> to is Unknown
    &&& from is Running && before.contains_key(run_id) && !has_handle(before, run_id) ==> to
        == (KillState::FallingBack { pid: before[run_id].info.pid }) && after == before
    &&& from is Closing ==> to == after_finding(from, KillFinding::Unregistered) && after
        == before.remove(run_id)
    &&& from is WaitingForExit && !has_handle(before, run_id) ==> to == after_finding(
        after_finding(from, KillFinding::Probed(ExitProbe::NoHandle)),
        KillFinding::Unregistered,
    ) && after == before.remove(run_id)
    &&& from matches KillState::TimedOut { pid } ==> to == (KillState::LastResort { pid })
        && after.dom() == before.dom() && !has_handle(after, run_id)
    &&& !is_done(from) && pending(to) == KillAction::Finish(true) ==> !after.contains_key(run_id)
}

/// Table of tracked processes, keyed by run id.
pub struct ProcessRegistry {
    processes: HashMap<i64, ProcessHandle>,
    next_id: i64,
}

impl ProcessRegistry {
    /// The tracked processes by run id.
    pub closed spec fn table(&self) -> Map<i64, ProcessHandle> {
        self.processes@
    }

    /// The run id that will be handed out next.
    pub closed spec fn next_run_id(&self) -> int {
        self.next_id as int
    }

    /// Every record is in order, and generated run ids start high.
    pub open spec fn wf(&self) -> bool {
        &&& FIRST_GENERATED_ID <= self.next_run_id() <= i64::MAX
        &&& self.table().dom().finite()
        &&& forall|id: i64| #[trigger]
            self.table().contains_key(id) ==> record_ok(id, self.table()[id])
    }

    /// A registry that tracks nothing.
    pub fn new() -> (registry: Self)
        ensures
            registry.wf(),
            registry.table() == Map::<i64, ProcessHandle>::empty(),
            registry.next_run_id() == FIRST_GENERATED_ID,
    {
        ProcessRegistry { processes: HashMap::new(), next_id: FIRST_GENERATED_ID }
    }

    /// A registry that tracks nothing and hands out run ids from
    /// `first_id` on, or from `FIRST_GENERATED_ID` on where `first_id` is
    /// lower.
    pub fn with_first_id(first_id: i64) -> (registry: Self)
        ensures
            registry.wf(),
            registry.table() == Map::<i64, ProcessHandle>::empty(),
            registry.next_run_id() == if first_id < FIRST_GENERATED_ID {
                FIRST_GENERATED_ID as int
            } else {
                first_id as int
            },
    {
        let next_id: i64 = if first_id < FIRST_GENERATED_ID {
            FIRST_GENERATED_ID
        } else {
            first_id
        };
        ProcessRegistry { processes: HashMap::new(), next_id }
    }

    /// Line cap and byte cap of the output buffer of a new record.
    pub fn default_buffer_config() -> (caps: (usize, usize))
        ensures
            caps == (DEFAULT_MAX_LINES, DEFAULT_MAX_BYTES),
    {
        (DEFAULT_MAX_LINES, DEFAULT_MAX_BYTES)
    }

    /// Hands out the next run id. Fails, changing nothing, once the ids
    /// are used up.
    pub fn generate_id(&mut self) -> (id: Result<i64, RegistryError>)
        requires
            old(self).wf(),
        ensures
            final(self).wf(),
            final(self).table() == old(self).table(),
            old(self).next_run_id() < i64::MAX ==> id == Ok::<i64, RegistryError>(
                old(self).next_run_id() as i64,
            ) && final(self).next_run_id() == old(self).next_run_id() + 1,
            old(self).next_run_id() == i64::MAX ==> id == Err::<i64, RegistryError>(
                RegistryError::IdsExhausted,
            ) && final(self).next_run_id() == old(self).next_run_id(),
    {
        if self.next_id == i64::MAX {
            return Err(RegistryError::IdsExhausted);
        }
        let id: i64 = self.next_id;
        self.next_id = id + 1;
        Ok(id)
    }

    /// A new record with an empty output buffer.
    fn create_handle(info: ProcessInfo, child: Option<Child>) -> (handle: ProcessHandle)
        ensures
            fresh_record(handle, info, child),
    {
        let (max_lines, max_bytes) = Self::default_buffer_config();
        ProcessHandle {
            info,
            child,
            live_output: CircularOutputBuffer::new(max_lines, max_bytes),
        }
    }

    /// Stores a new record under `run_id`, replacing any that was there.
    fn register_process_internal(
        &mut self,
        run_id: i64,
        process_info: ProcessInfo,
        child: Option<Child>,
    )
        requires
            old(self).wf(),
            process_info.run_id == run_id,
        ensures
            final(self).wf(),
            final(self).next_run_id() == old(self).next_run_id(),
            final(self).table() == old(self).table().insert(run_id, final(self).table()[run_id]),
            fresh_record(final(self).table()[run_id], process_info, child),
    {
        let handle = Self::create_handle(process_info, child);
        self.processes.insert(run_id, handle);
    }

    /// Registers an agent run whose child handle the registry takes over.
    /// A record already stored under `run_id` is replaced.
    pub fn register_process(
        &mut self,
        run_id: i64,
        agent_id: i64,
        agent_name: String,
        pid: u32,
        project_path: String,
        task: String,
        model: String,
        child: Child,
    )
        requires
            old(self).wf(),
        ensures
            final(self).wf(),
            final(self).next_run_id() == old(self).next_run_id(),
            final(self).table() == old(self).table().insert(run_id, final(self).table()[run_id]),
            fresh_record(
                final(self).table()[run_id],
                final(self).table()[run_id].info,
                Some(child),
            ),
            describes(
                final(self).table()[run_id].info,
                run_id,
                ProcessType::AgentRun { agent_id, agent_name },
                pid,
                project_path,
                task,
                model,
            ),
    {
        let process_info = ProcessInfo {
            run_id,
            process_type: ProcessType::AgentRun { agent_id, agent_name },
            pid,
            started_at: current_time(),
            project_path,
            task,
            model,
        };
        self.register_process_internal(run_id, process_info, Some(child));
    }

    /// Registers an agent run whose process is managed elsewhere: no child
    /// handle is held. A record already stored under `run_id` is replaced.
    pub fn register_sidecar_process(
        &mut self,
        run_id: i64,
        agent_id: i64,
        agent_name: String,
        pid: u32,
        project_path: String,
        task: String,
        model: String,
    )
        requires
            old(self).wf(),
        ensures
            final(self).wf(),
            final(self).next_run_id() == old(self).next_run_id(),
            final(self).table() == old(self).table().insert(run_id, final(self).table()[run_id]),
            fresh_record(final(self).table()[run_id], final(self).table()[run_id].info, None),
            describes(
                final(self).table()[run_id].info,
                run_id,
                ProcessType::AgentRun { agent_id, agent_name },
                pid,
                project_path,
                task,
                model,
            ),
    {
        let process_info = ProcessInfo {
            run_id,
            process_type: ProcessType::AgentRun { agent_id, agent_name },
            pid,
            started_at: current_time(),
            project_path,
            task,
            model,
        };
        self.register_process_internal(run_id, process_info, None);
    }

    /// Registers a session under a run id that the registry hands out, and
    /// returns that id. No child handle is held. Fails, changing nothing,
    /// once the ids are used up.
    pub fn register_claude_session(
        &mut self,
        session_id: String,
        pid: u32,
        project_path: String,
        task: String,
        model: String,
    ) -> (registered: Result<i64, RegistryError>)
        requires
            old(self).wf(),
        ensures
            final(self).wf(),
            old(self).next_run_id() == i64::MAX ==> registered == Err::<i64, RegistryError>(
                RegistryError::IdsExhausted,
            ) && final(self).table() == old(self).table() && final(self).next_run_id()
                == old(self).next_run_id(),
            old(self).next_run_id() < i64::MAX ==> {
                let run_id = old(self).next_run_id() as i64;
                &&& registered == Ok::<i64, RegistryError>(run_id)
                &&& final(self).next_run_id() == old(self).next_run_id() + 1
                &&& final(self).table() == old(self).table().insert(
                    run_id,
                    final(self).table()[run_id],
                )
                &&& fresh_record(final(self).table()[run_id], final(self).table()[run_id].info, None)
                &&& describes(
                    final(self).table()[run_id].info,
                    run_id,
                    ProcessType::ClaudeSession { session_id },
                    pid,
                    project_path,
                    task,
                    model,
                )
            },
    {
        let run_id: i64 = match self.generate_id() {
            Ok(id) => id,
            Err(e) => {
                return Err(e);
            },
        };
        let process_info = ProcessInfo {
            run_id,
            process_type: ProcessType::ClaudeSession { session_id },
            pid,
            started_at: current_time(),
            project_path,
            task,
            model,
        };
        self.register_process_internal(run_id, process_info, None);
        Ok(run_id)
    }

    /// The run ids of all tracked processes, each once, in no particular
    /// order.
    pub fn run_ids(&self) -> (ids: Vec<i64>)
        ensures
            ids@.no_duplicates(),
            ids@.to_set() == self.table().dom(),
            ids@.len() == self.table().dom().len(),
    {
        let mut ids: Vec<i64> = Vec::new();
        for id in it: self.processes.keys()
            invariant
                ids@.len() == it.index(),
                forall|j: int| 0 <= j < ids@.len() ==> ids@[j] == *it.seq()[j],
        {
            ids.push(*id);
        }
        assert(ids@ =~= spec_keys_iter(&self.processes).remaining().unref());
        ids
    }

    /// The metadata of the tracked processes that `filter` admits.
    pub fn list_by_kind(&self, filter: KindFilter) -> (infos: Vec<ProcessInfo>)
        requires
            self.wf(),
        ensures
            lists(self.table(), infos@, filter),
    {
        let ids = self.run_ids();
        let mut infos: Vec<ProcessInfo> = Vec::new();
        let ghost mut origin: Seq<int> = Seq::empty();
        let mut n: usize = 0;
        while n < ids.len()
            invariant
                self.wf(),
                n <= ids@.len(),
                ids@.no_duplicates(),
                ids@.to_set() == self.table().dom(),
                origin.len() == infos@.len(),
                forall|i: int|
                    0 <= i < infos@.len() ==> 0 <= #[trigger] origin[i] < n && ids@[origin[i]]
                        == infos@[i].run_id,
                forall|i: int, j: int|
                    0 <= i < j < infos@.len() ==> #[trigger] origin[i] < #[trigger] origin[j],
                forall|i: int|
                    0 <= i < infos@.len() ==> self.table().contains_key(
                        #[trigger] infos@[i].run_id,
                    ) && self.table()[infos@[i].run_id].info == infos@[i] && filter.admits(
                        infos@[i],
                    ),
                forall|k: int|
                    0 <= k < n && filter.admits(self.table()[#[trigger] ids@[k]].info)
                        ==> exists|i: int|
                        0 <= i < infos@.len() && #[trigger] infos@[i].run_id == ids@[k],
            decreases ids@.len() - n,
        {
            let id: i64 = ids[n];
            assert(ids@.to_set().contains(ids@[n as int]));
            let ghost before = infos@;
            match self.processes.get(&id) {
                Some(handle) => {
                    let wanted: bool = match filter {
                        KindFilter::All => true,
                        KindFilter::AgentRuns => handle.info.process_type.is_agent_run(),
                        KindFilter::ClaudeSessions => !handle.info.process_type.is_agent_run(),
                    };
                    if wanted {
                        infos.push(handle.info.clone());
                        proof {
                            origin = origin.push(n as int);
                            assert(infos@[before.len() as int].run_id == ids@[n as int]);
                            assert forall|k: int|
                                0 <= k < n + 1 && filter.admits(
                                    self.table()[#[trigger] ids@[k]].info,
                                ) implies exists|i: int|
                                0 <= i < infos@.len() && #[trigger] infos@[i].run_id == ids@[k] by {
                                if k < n {
                                    let i = choose|i: int|
                                        0 <= i < before.len() && #[trigger] before[i].run_id
                                            == ids@[k];
                                    assert(infos@[i].run_id == ids@[k]);
                                } else {
                                    assert(infos@[before.len() as int].run_id == ids@[k]);
                                }
                            }
                        }
                    }
                },
                None => {},
            }
            n = n + 1;
        }
        proof {
            assert forall|i: int, j: int| 0 <= i < j < infos@.len() implies #[trigger] infos@[i].run_id
                != #[trigger] infos@[j].run_id by {
                assert(origin[i] < origin[j]);
            }
            assert forall|id: i64| #[trigger]
                self.table().contains_key(id) && filter.admits(
                    self.table()[id].info,
                ) implies exists|i: int| 0 <= i < infos@.len() && #[trigger] infos@[i].run_id == id by {
                assert(ids@.to_set().contains(id));
                let k = choose|k: int| 0 <= k < ids@.len() && ids@[k] == id;
                assert(filter.admits(self.table()[ids@[k]].info));
            }
        }
        infos
    }

    /// The metadata of all tracked sessions.
    pub fn get_running_claude_sessions(&self) -> (infos: Vec<ProcessInfo>)
        requires
            self.wf(),
        ensures
            lists(self.table(), infos@, KindFilter::ClaudeSessions),
    {
        self.list_by_kind(KindFilter::ClaudeSessions)
    }

    /// The metadata of all tracked agent runs.
    pub fn get_running_agent_processes(&self) -> (infos: Vec<ProcessInfo>)
        requires
            self.wf(),
        ensures
            lists(self.table(), infos@, KindFilter::AgentRuns),
    {
        self.list_by_kind(KindFilter::AgentRuns)
    }

    /// The metadata of all tracked processes.
    pub fn get_running_processes(&self) -> (infos: Vec<ProcessInfo>)
        requires
            self.wf(),
        ensures
            lists(self.table(), infos@, KindFilter::All),
    {
        self.list_by_kind(KindFilter::All)
    }

    /// The metadata of a tracked session with this session id, if there is
    /// one.
    pub fn get_claude_session_by_id(&self, session_id: &str) -> (found: Option<ProcessInfo>)
        requires
            self.wf(),
        ensures
            match found {
                Some(info) => self.table().contains_key(info.run_id) && self.table()[info.run_id].info
                    == info && is_session(info, session_id@),
                None => forall|id: i64| #[trigger]
                    self.table().contains_key(id) ==> !is_session(
                        self.table()[id].info,
                        session_id@,
                    ),
            },
    {
        let wanted: String = session_id.to_owned();
        let ids = self.run_ids();
        let mut n: usize = 0;
        while n < ids.len()
            invariant
                self.wf(),
                n <= ids@.len(),
                wanted@ == session_id@,
                ids@.to_set() == self.table().dom(),
                forall|k: int|
                    0 <= k < n ==> !is_session(self.table()[#[trigger] ids@[k]].info, session_id@),
            decreases ids@.len() - n,
        {
            let id: i64 = ids[n];
            assert(ids@.to_set().contains(ids@[n as int]));
            match self.processes.get(&id) {
                Some(handle) => {
                    match &handle.info.process_type {
                        ProcessType::ClaudeSession { session_id: sid } => {
                            if *sid == wanted {
                                return Some(handle.info.clone());
                            }
                        },
                        _ => {},
                    }
                },
                None => {},
            }
            n = n + 1;
        }
        proof {
            assert forall|id: i64| #[trigger] self.table().contains_key(id) implies !is_session(
                self.table()[id].info,
                session_id@,
            ) by {
                assert(ids@.to_set().contains(id));
                let k = choose|k: int| 0 <= k < ids@.len() && ids@[k] == id;
                assert(!is_session(self.table()[ids@[k]].info, session_id@));
            }
        }
        None
    }

    /// Stops tracking `run_id`. A run that is not tracked is left alone.
    pub fn unregister_process(&mut self, run_id: i64)
        requires
            old(self).wf(),
        ensures
            final(self).wf(),
            final(self).next_run_id() == old(self).next_run_id(),
            final(self).table() == old(self).table().remove(run_id),
    {
        self.processes.remove(&run_id);
    }

    /// Stops tracking every run in `run_ids`.
    pub fn unregister_all(&mut self, run_ids: &Vec<i64>)
        requires
            old(self).wf(),
        ensures
            final(self).wf(),
            final(self).next_run_id() == old(self).next_run_id(),
            final(self).table() == old(self).table().remove_keys(run_ids@.to_set()),
    {
        let mut n: usize = 0;
        assert(self.table() =~= old(self).table().remove_keys(run_ids@.take(0).to_set()));
        while n < run_ids.len()
            invariant
                self.wf(),
                n <= run_ids@.len(),
                self.next_run_id() == old(self).next_run_id(),
                self.table() == old(self).table().remove_keys(run_ids@.take(n as int).to_set()),
            decreases run_ids@.len() - n,
        {
            let ghost before = self.table();
            self.unregister_process(run_ids[n]);
            proof {
                let done = run_ids@.take(n as int);
                let more = run_ids@.take(n + 1);
                assert(more =~= done.push(run_ids@[n as int]));
                assert forall|id: i64| more.to_set().contains(id) <==> (done.to_set().contains(id)
                    || id == run_ids@[n as int]) by {
                    if done.to_set().contains(id) {
                        let k = choose|k: int| 0 <= k < done.len() && done[k] == id;
                        assert(more[k] == id);
                    }
                    if id == run_ids@[n as int] {
                        assert(more[n as int] == id);
                    }
                }
                assert(self.table() =~= old(self).table().remove_keys(more.to_set()));
            }
            n = n + 1;
        }
        assert(run_ids@.take(run_ids@.len() as int) =~= run_ids@);
    }

    /// The metadata stored under `run_id`, if the run is tracked.
    pub fn get_process(&self, run_id: i64) -> (found: Option<ProcessInfo>)
        requires
            self.wf(),
        ensures
            found == info_of(self.table(), run_id),
    {
        match self.processes.get(&run_id) {
            Some(handle) => Some(handle.info.clone()),
            None => None,
        }
    }

    /// Whether the child of `run_id` is still running, as far as its handle
    /// tells. A handle whose process has exited, or whose state cannot be
    /// read, is dropped. Without a handle the answer is `false`.
    pub fn is_process_running(&mut self, run_id: i64) -> (running: bool)
        requires
            old(self).wf(),
        ensures
            final(self).wf(),
            final(self).next_run_id() == old(self).next_run_id(),
            only_children_dropped(old(self).table(), final(self).table()),
            others_untouched(old(self).table(), final(self).table(), run_id),
            running ==> old(self).table().contains_key(run_id) && old(self).table()[run_id].child
                is Some && final(self).table()[run_id].child is Some,
            !running && old(self).table().contains_key(run_id) ==> final(self).table()[run_id].child
                is None,
            !old(self).table().contains_key(run_id) ==> final(self).table() == old(self).table(),
    {
        match self.processes.remove(&run_id) {
            Some(handle) => {
                let mut handle = handle;
                let outcome = handle.probe();
                let running: bool = handle.settle_probe(outcome);
                self.processes.insert(run_id, handle);
                assert(final(self).table().dom() =~= old(self).table().dom());
                running
            },
            None => {
                assert(self.table() =~= old(self).table());
                false
            },
        }
    }

    /// Appends `output` to the captured output of `run_id`. A run that is
    /// not tracked is left alone.
    pub fn append_live_output(&mut self, run_id: i64, output: &str)
        requires
            old(self).wf(),
        ensures
            final(self).wf(),
            final(self).next_run_id() == old(self).next_run_id(),
            final(self).table().dom() == old(self).table().dom(),
            others_untouched(old(self).table(), final(self).table(), run_id),
            old(self).table().contains_key(run_id) ==> {
                let before = old(self).table()[run_id];
                let after = final(self).table()[run_id];
                &&& after.info == before.info
                &&& after.child == before.child
                &&& after.live_output.line_limit() == before.live_output.line_limit()
                &&& after.live_output.byte_limit() == before.live_output.byte_limit()
                &&& after.live_output@ == appended(
                    before.live_output@,
                    output@,
                    before.live_output.line_limit(),
                    before.live_output.byte_limit(),
                )
            },
            !old(self).table().contains_key(run_id) ==> final(self).table() == old(self).table(),
    {
        match self.processes.remove(&run_id) {
            Some(handle) => {
                let mut handle = handle;
                handle.live_output.append(output);
                self.processes.insert(run_id, handle);
                assert(final(self).table().dom() =~= old(self).table().dom());
            },
            None => {
                assert(self.table() =~= old(self).table());
            },
        }
    }

    /// All captured output of `run_id`; empty for a run that is not
    /// tracked.
    pub fn get_live_output(&self, run_id: i64) -> (text: String)
        requires
            self.wf(),
        ensures
            text@ == if self.table().contains_key(run_id) {
                joined(self.table()[run_id].live_output@)
            } else {
                Seq::<char>::empty()
            },
    {
        match self.processes.get(&run_id) {
            Some(handle) => handle.live_output.get_all(),
            None => String::new(),
        }
    }

    /// The last `lines` lines of the captured output of `run_id`; empty
    /// for a run that is not tracked.
    pub fn get_recent_live_output(&self, run_id: i64, lines: usize) -> (text: String)
        requires
            self.wf(),
        ensures
            text@ == if self.table().contains_key(run_id) {
                joined(last_lines(self.table()[run_id].live_output@, lines as nat))
            } else {
                Seq::<char>::empty()
            },
    {
        match self.processes.get(&run_id) {
            Some(handle) => handle.live_output.get_recent(lines),
            None => String::new(),
        }
    }

    /// Number of lines and of bytes captured for `run_id`; nothing for a
    /// run that is not tracked.
    pub fn get_buffer_stats(&self, run_id: i64) -> (stats: Option<(usize, usize)>)
        requires
            self.wf(),
        ensures
            match stats {
                Some((lines, bytes)) => self.table().contains_key(run_id) && lines
                    == self.table()[run_id].live_output@.len() && bytes == total_bytes_of(
                    self.table()[run_id].live_output@,
                ),
                None => !self.table().contains_key(run_id),
            },
    {
        match self.processes.get(&run_id) {
            Some(handle) => Some((handle.live_output.len(), handle.live_output.total_bytes())),
            None => None,
        }
    }
    /// Removes every run whose child is not running: those whose handle
    /// reports an exit or cannot be read, and those without a handle.
    /// Returns the run ids that were removed. All runs are probed first and
    /// removed afterwards.
    pub fn cleanup_finished_processes(&mut self) -> (removed: Vec<i64>)
        requires
            old(self).wf(),
        ensures
            final(self).wf(),
            final(self).next_run_id() == old(self).next_run_id(),
            removed@.no_duplicates(),
            forall|id: i64|
                removed@.contains(id) <==> {
                    &&& old(self).table().contains_key(id)
                    &&& !final(self).table().contains_key(id)
                },
            forall|id: i64| #[trigger]
                final(self).table().contains_key(id) ==> {
                    &&& old(self).table().contains_key(id)
                    &&& old(self).table()[id].child is Some
                    &&& final(self).table()[id].child is Some
                    &&& final(self).table()[id].info == old(self).table()[id].info
                    &&& final(self).table()[id].live_output == old(self).table()[id].live_output
                },
    {
        let ids = self.run_ids();
        let mut finished_runs: Vec<i64> = Vec::new();
        let ghost mut origin: Seq<int> = Seq::empty();
        let mut n: usize = 0;
        while n < ids.len()
            invariant
                self.wf(),
                n <= ids@.len(),
                self.next_run_id() == old(self).next_run_id(),
                ids@.no_duplicates(),
                ids@.to_set() == old(self).table().dom(),
                only_children_dropped(old(self).table(), self.table()),
                origin.len() == finished_runs@.len(),
                forall|j: int|
                    0 <= j < finished_runs@.len() ==> 0 <= #[trigger] origin[j] < n
                        && ids@[origin[j]] == finished_runs@[j],
                forall|i: int, j: int|
                    0 <= i < j < finished_runs@.len() ==> #[trigger] origin[i] < #[trigger] origin[j],
                forall|k: int|
                    0 <= k < n ==> self.table()[#[trigger] ids@[k]].child is Some
                        || finished_runs@.contains(ids@[k]),
            decreases ids@.len() - n,
        {
            let run_id: i64 = ids[n];
            let ghost before = self.table();
            let ghost listed = finished_runs@;
            assert(ids@.to_set().contains(ids@[n as int]));
            if !self.is_process_running(run_id) {
                finished_runs.push(run_id);
                proof {
                    origin = origin.push(n as int);
                    assert(finished_runs@[listed.len() as int] == run_id);
                }
            }
            proof {
                assert forall|k: int| 0 <= k < n + 1 implies self.table()[#[trigger] ids@[k]].child
                    is Some || finished_runs@.contains(ids@[k]) by {
                    if k < n {
                        assert(ids@[k] != run_id);
                        assert(ids@.to_set().contains(ids@[k]));
                        assert(self.table().contains_key(ids@[k]));
                        if listed.contains(ids@[k]) {
                            let j = choose|j: int| 0 <= j < listed.len() && listed[j] == ids@[k];
                            assert(finished_runs@[j] == ids@[k]);
                        }
                    }
                }
            }
            n = n + 1;
        }
        let ghost probed = self.table();
        self.unregister_all(&finished_runs);
        proof {
            assert forall|i: int, j: int|
                0 <= i < j < finished_runs@.len() implies finished_runs@[i] != finished_runs@[j] by {
                assert(origin[i] < origin[j]);
            }
            assert forall|id: i64|
                finished_runs@.contains(id) <==> old(self).table().contains_key(id)
                    && !self.table().contains_key(id) by {
                if finished_runs@.contains(id) {
                    let j = choose|j: int| 0 <= j < finished_runs@.len() && finished_runs@[j] == id;
                    assert(ids@.to_set().contains(ids@[origin[j]]));
                }
            }
            assert forall|id: i64| #[trigger] self.table().contains_key(id) implies {
                &&& old(self).table()[id].child is Some
                &&& self.table()[id].child is Some
            } by {
                assert(probed.contains_key(id));
                assert(ids@.to_set().contains(id));
                let k = choose|k: int| 0 <= k < ids@.len() && ids@[k] == id;
                assert(probed[ids@[k]].child is Some || finished_runs@.contains(ids@[k]));
            }
        }
        finished_runs
    }

    /// Looks `run_id` up for a termination.
    fn find_for_kill(&self, run_id: i64) -> (finding: KillFinding)
        ensures
            finding == lookup_finding(self.table(), run_id),
    {
        match self.processes.get(&run_id) {
            Some(handle) => KillFinding::Found {
                pid: handle.info.pid,
                has_child: handle.has_child(),
            },
            None => KillFinding::NotFound,
        }
    }

    /// Signals the child of `run_id` through its handle and says whether
    /// the signal was accepted; without a handle it was not.
    fn signal_process(&mut self, run_id: i64) -> (accepted: bool)
        requires
            old(self).wf(),
        ensures
            final(self).wf(),
            final(self).next_run_id() == old(self).next_run_id(),
            final(self).table().dom() == old(self).table().dom(),
            touches_only(old(self).table(), final(self).table(), run_id),
            has_handle(final(self).table(), run_id) == has_handle(old(self).table(), run_id),
            !has_handle(old(self).table(), run_id) ==> final(self).table() == old(self).table(),
            accepted ==> has_handle(old(self).table(), run_id),
    {
        if !self.holds_child(run_id) {
            return false;
        }
        match self.processes.remove(&run_id) {
            Some(handle) => {
                let mut handle = handle;
                let accepted: bool = handle.signal();
                self.processes.insert(run_id, handle);
                assert(final(self).table().dom() =~= old(self).table().dom());
                accepted
            },
            None => false,
        }
    }

    /// Probes the child of `run_id` for its exit. The handle of a child
    /// that has exited is dropped.
    fn probe_exit(&mut self, run_id: i64) -> (probe: ExitProbe)
        requires
            old(self).wf(),
        ensures
            final(self).wf(),
            final(self).next_run_id() == old(self).next_run_id(),
            final(self).table().dom() == old(self).table().dom(),
            touches_only(old(self).table(), final(self).table(), run_id),
            probe is NoHandle <==> !has_handle(old(self).table(), run_id),
            probe is NoHandle ==> final(self).table() == old(self).table(),
            probe is Exited ==> final(self).table()[run_id].child is None,
    {
        if !self.holds_child(run_id) {
            return ExitProbe::NoHandle;
        }
        match self.processes.remove(&run_id) {
            Some(handle) => {
                let mut handle = handle;
                let probe: ExitProbe = match handle.probe() {
                    Some(ProbeOutcome::Exited) => {
                        handle.child = None;
                        ExitProbe::Exited
                    },
                    Some(ProbeOutcome::StillRunning) => ExitProbe::StillRunning,
                    _ => ExitProbe::Failed,
                };
                self.processes.insert(run_id, handle);
                assert(final(self).table().dom() =~= old(self).table().dom());
                probe
            },
            None => ExitProbe::NoHandle,
        }
    }

    /// Whether `run_id` is tracked with a child handle.
    fn holds_child(&self, run_id: i64) -> (yes: bool)
        ensures
            yes == has_handle(self.table(), run_id),
    {
        match self.processes.get(&run_id) {
            Some(handle) => handle.has_child(),
            None => false,
        }
    }

    /// Drops the child handle of `run_id`.
    fn clear_child(&mut self, run_id: i64)
        requires
            old(self).wf(),
        ensures
            final(self).wf(),
            final(self).next_run_id() == old(self).next_run_id(),
            final(self).table().dom() == old(self).table().dom(),
            touches_only(old(self).table(), final(self).table(), run_id),
            !has_handle(final(self).table(), run_id),
    {
        match self.processes.remove(&run_id) {
            Some(handle) => {
                let mut handle = handle;
                handle.child = None;
                self.processes.insert(run_id, handle);
                assert(final(self).table().dom() =~= old(self).table().dom());
            },
            None => {
                assert(self.table() =~= old(self).table());
            },
        }
    }

    /// Carries out one action of a termination that is work on the
    /// registry, and says what was found.
    fn carry_out(&mut self, run_id: i64, action: KillAction) -> (finding: KillFinding)
        requires
            old(self).wf(),
            is_registry_work(action),
        ensures
            final(self).wf(),
            final(self).next_run_id() == old(self).next_run_id(),
            finding_answers(finding, action),
            touches_only(old(self).table(), final(self).table(), run_id),
            action is Lookup ==> final(self).table() == old(self).table() && finding
                == lookup_finding(old(self).table(), run_id),
            action is SendSignal ==> (finding matches KillFinding::Signalled { accepted } && accepted
                ==> has_handle(old(self).table(), run_id)),
            action is Probe ==> ((finding == KillFinding::Probed(ExitProbe::NoHandle)) <==> !has_handle(
                old(self).table(),
                run_id,
            )) && (finding == KillFinding::Probed(ExitProbe::NoHandle) ==> final(self).table()
                == old(self).table()),
            action is ClearHandle ==> !has_handle(final(self).table(), run_id),
            action is Unregister ==> final(self).table() == old(self).table().remove(run_id),
            !(action is Unregister) ==> final(self).table().dom() == old(self).table().dom(),
    {
        match action {
            KillAction::Lookup => self.find_for_kill(run_id),
            KillAction::SendSignal => KillFinding::Signalled {
                accepted: self.signal_process(run_id),
            },
            KillAction::Probe => KillFinding::Probed(self.probe_exit(run_id)),
            KillAction::ClearHandle => {
                self.clear_child(run_id);
                KillFinding::HandleCleared
            },
            _ => {
                self.unregister_process(run_id);
                KillFinding::Unregistered
            },
        }
    }

    /// Carries a termination forward from `state` through all the work
    /// that falls to the registry, up to the next action that falls to the
    /// driver or to the end.
    fn drive_kill(&mut self, run_id: i64, state: KillState) -> (progress: (KillState, KillAction))
        requires
            old(self).wf(),
        ensures
            final(self).wf(),
            final(self).next_run_id() == old(self).next_run_id(),
            progress.1 == pending(progress.0),
            !is_registry_work(progress.1),
            steps_left(progress.0) <= steps_left(state),
            touches_only(old(self).table(), final(self).table(), run_id),
            settles(old(self).table(), final(self).table(), run_id, state, progress.0),
        decreases steps_left(state),
    {
        let action: KillAction = state.action();
        if !action.for_registry() {
            return (state, action);
        }
        let finding: KillFinding = self.carry_out(run_id, action);
        proof {
            lemma_finding_makes_progress(state, finding);
        }
        let ghost between = self.table();
        let progress = self.drive_kill(run_id, state.on_finding(finding));
        proof {
            if state is Closing {
                assert(self.table() == old(self).table().remove(run_id));
            }
            if progress.1 == KillAction::Finish(true) {
                assert(!self.table().contains_key(run_id));
            }
        }
        progress
    }

    /// Begins the termination of `run_id` and carries it forward through
    /// all the work that falls to the registry: the lookup, the signal
    /// through the child handle, the first probe, and the removal where
    /// the child has exited already. Returns where the termination stands
    /// and what the driver has to do next: kill by process id, sleep, or
    /// finish with the result. The result is `false` only for a run that
    /// is not tracked, and then nothing is changed; `true` comes only once
    /// the record is removed.
    pub fn kill_process(&mut self, run_id: i64) -> (progress: (KillState, KillAction))
        requires
            old(self).wf(),
        ensures
            final(self).wf(),
            final(self).next_run_id() == old(self).next_run_id(),
            progress.1 == pending(progress.0),
            !is_registry_work(progress.1),
            touches_only(old(self).table(), final(self).table(), run_id),
            settles(old(self).table(), final(self).table(), run_id, KillState::Running, progress.0),
            !old(self).table().contains_key(run_id) ==> progress == (
                KillState::Unknown,
                KillAction::Finish(false),
            ) && final(self).table() == old(self).table(),
            old(self).table().contains_key(run_id) ==> progress.1 != KillAction::Finish(false),
            progress.1 == KillAction::Finish(true) ==> !final(self).table().contains_key(run_id),
    {
        self.drive_kill(run_id, KillState::Running)
    }

    /// Takes in what the driver reports and carries the termination of
    /// `run_id` forward as `kill_process` does. A report that does not
    /// answer what `state` asked for is ignored.
    pub fn resume_kill(&mut self, run_id: i64, state: KillState, report: KillReport) -> (progress: (
        KillState,
        KillAction,
    ))
        requires
            old(self).wf(),
        ensures
            final(self).wf(),
            final(self).next_run_id() == old(self).next_run_id(),
            progress.1 == pending(progress.0),
            !is_registry_work(progress.1),
            steps_left(progress.0) <= steps_left(after_report(state, report)),
            touches_only(old(self).table(), final(self).table(), run_id),
            settles(
                old(self).table(),
                final(self).table(),
                run_id,
                after_report(state, report),
                progress.0,
            ),
            is_done(state) ==> progress.0 == state && final(self).table() == old(self).table(),
            progress.1 == KillAction::Finish(false) ==> final(self).table() == old(self).table(),
            !is_done(state) && progress.1 == KillAction::Finish(true)
                ==> !final(self).table().contains_key(run_id),
    {
        self.drive_kill(run_id, state.on_report(report))
    }

    /// Begins a kill of `pid` by process id on behalf of `run_id`. Returns
    /// where the kill stands and what the driver has to do first. Nothing
    /// is changed yet.
    pub fn kill_process_by_pid(&mut self, run_id: i64, pid: u32, graceful: bool) -> (progress: (
        PidKillState,
        PidKillAction,
    ))
        ensures
            *final(self) == *old(self),
            progress.0 == pid_kill_start(pid, graceful),
            progress.1 == pid_kill_pending(progress.0),
    {
        let state = PidKillState::start(pid, graceful);
        (state, state.action())
    }

    /// Takes in what the driver reports of a kill by process id. Once the
    /// process is known to be gone the record of `run_id` is removed, and
    /// only then is success reported. A report that does not answer what
    /// `state` asked for is ignored.
    pub fn resume_kill_by_pid(
        &mut self,
        run_id: i64,
        state: PidKillState,
        report: PidKillReport,
    ) -> (progress: (PidKillState, PidKillAction))
        requires
            old(self).wf(),
        ensures
            final(self).wf(),
            final(self).next_run_id() == old(self).next_run_id(),
            progress.0 == pid_kill_after_removal(pid_kill_after_report(state, report)),
            progress.1 == pid_kill_pending(progress.0),
            final(self).table() == if pid_kill_after_report(state, report) is Removing {
                old(self).table().remove(run_id)
            } else {
                old(self).table()
            },
    {
        let reported: PidKillState = state.on_report(report);
        let settled: PidKillState = match reported {
            PidKillState::Removing => {
                self.unregister_process(run_id);
                reported.on_removal()
            },
            _ => reported,
        };
        (settled, settled.action())
    }
}

impl Default for ProcessRegistry {
    /// A registry that tracks nothing.
    fn default() -> (registry: Self)
        ensures
            registry.wf(),
            registry.table() == Map::<i64, ProcessHandle>::empty(),
            registry.next_run_id() == FIRST_GENERATED_ID,
    {
        ProcessRegistry::new()
    }
}

/// The chunks that `schedule` submits to `run_id`, in the order in which
/// it submits them.
pub open spec fn chunks_for(schedule: Seq<(i64, Seq<char>)>, run_id: i64) -> Seq<Seq<char>>
    decreases schedule.len(),
{
    if schedule.len() == 0 {
        Seq::empty()
    } else if schedule.last().0 == run_id {
        chunks_for(schedule.drop_last(), run_id).push(schedule.last().1)
    } else {
        chunks_for(schedule.drop_last(), run_id)
    }
}

/// The captured output of every run after the appends of `schedule` have
/// been made one after the other, as `append_live_output` makes each: a
/// submission to a tracked run is appended to that run's output, and one to
/// any other run is dropped.
pub open spec fn outputs_after(
    outputs: Map<i64, Seq<Seq<char>>>,
    schedule: Seq<(i64, Seq<char>)>,
    max_lines: nat,
    max_bytes: nat,
) -> Map<i64, Seq<Seq<char>>>
    decreases schedule.len(),
{
    if schedule.len() == 0 {
        outputs
    } else {
        let earlier = outputs_after(outputs, schedule.drop_last(), max_lines, max_bytes);
        let run_id = schedule.last().0;
        if earlier.contains_key(run_id) {
            earlier.insert(
                run_id,
                appended(earlier[run_id], schedule.last().1, max_lines, max_bytes),
            )
        } else {
            earlier
        }
    }
}

/// However the appends of several producers are interleaved, the output of
/// a run is what its own appends alone, in their order, make of it: the
/// appends to other runs leave no trace in it.
pub proof fn lemma_interleaved_appends_do_not_mix(
    outputs: Map<i64, Seq<Seq<char>>>,
    schedule: Seq<(i64, Seq<char>)>,
    max_lines: nat,
    max_bytes: nat,
    run_id: i64,
)
    requires
        outputs.contains_key(run_id),
    ensures
        outputs_after(outputs, schedule, max_lines, max_bytes).dom() == outputs.dom(),
        outputs_after(outputs, schedule, max_lines, max_bytes)[run_id] == appended_all(
            outputs[run_id],
            chunks_for(schedule, run_id),
            max_lines,
            max_bytes,
        ),
    decreases schedule.len(),
{
    if schedule.len() > 0 {
        let earlier = outputs_after(outputs, schedule.drop_last(), max_lines, max_bytes);
        lemma_interleaved_appends_do_not_mix(
            outputs,
            schedule.drop_last(),
            max_lines,
            max_bytes,
            run_id,
        );
        let target = schedule.last().0;
        if earlier.contains_key(target) {
            assert(earlier.insert(
                target,
                appended(earlier[target], schedule.last().1, max_lines, max_bytes),
            ).dom() =~= earlier.dom());
        }
        if target == run_id {
            assert(chunks_for(schedule, run_id).drop_last() =~= chunks_for(
                schedule.drop_last(),
                run_id,
            ));
        }
    }
}

/// A run that was registered is found, with the metadata it was registered
/// with, however often it is asked for.
pub proof fn lemma_registered_run_is_found(
    before: Map<i64, ProcessHandle>,
    run_id: i64,
    handle: ProcessHandle,
)
    ensures
        info_of(before.insert(run_id, handle), run_id) == Some(handle.info),
{
}

/// A run that was removed is not found.
pub proof fn lemma_removed_run_is_absent(before: Map<i64, ProcessHandle>, run_id: i64)
    ensures
        info_of(before.remove(run_id), run_id) == None::<ProcessInfo>,
{
}

/// Removing a run that is not tracked changes nothing.
pub proof fn lemma_unregister_is_idempotent(before: Map<i64, ProcessHandle>, run_id: i64)
    ensures
        !before.contains_key(run_id) ==> before.remove(run_id) == before,
        before.remove(run_id).remove(run_id) == before.remove(run_id),
{
    assert(before.remove(run_id).remove(run_id) =~= before.remove(run_id));
    if !before.contains_key(run_id) {
        assert(before.remove(run_id) =~= before);
    }
}

} // verus!
