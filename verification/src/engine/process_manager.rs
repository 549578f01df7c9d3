//! Process lifecycle management.
//!
//! The manager keeps one handle for each managed process and decides what to
//! do about it; it does not touch the operating system. A caller starts a
//! process by asking for a launch plan, spawning what the plan names and
//! recording the pid; it stops one by asking for a stop plan, signalling and
//! waiting as the plan says and recording the end; and it runs a health sweep
//! by polling each running child and reporting what it saw.

use crate::clock::Timestamp;
use crate::engine::launch::{
    empty_name, empty_name_error, launch_plan_of, launch_refusal, plan_launch, LaunchPlan,
};
use crate::engine::log_buffer::{keep_last, line_matches, LogBuffer, LogLine, DEFAULT_MAX_LINES};
use crate::engine::restart::{
    budget_left, decide_restart, decision_for, next_count, restart_limit_exceeded, RestartDecision,
};
use crate::error::{Result, SentinelError, SentinelErrorView};
use crate::models::config::{ProcessConfig, ProcessConfigView};
use crate::models::process::{ProcessInfo, ProcessInfoView, ProcessState, ProcessStateView};
use crate::text::str_eq;
use vstd::prelude::*;

verus! {

/// Everything the manager keeps for one managed process.
pub struct ProcessHandle {
    /// Process information.
    info: ProcessInfo,
    /// Configuration used to spawn the process.
    config: ProcessConfig,
    /// The lines captured from the process since it was last spawned.
    log_buffer: LogBuffer,
    /// Number of restarts performed.
    restart_count: u32,
    /// Time of the last automatic restart.
    last_restart: Option<Timestamp>,
    /// The number of the spawn that this handle stands for. Output is taken
    /// only from the child of that spawn.
    generation: u64,
}

/// What a handle holds, as plain values.
pub struct HandleView {
    pub info: ProcessInfoView,
    pub config: ProcessConfigView,
    pub logs: Seq<LogLine>,
    pub log_capacity: nat,
    pub restart_count: u32,
    pub last_restart: Option<Timestamp>,
    pub generation: u64,
}

impl HandleView {
    /// What holds of every handle at all times: it has a pid exactly while
    /// it is running, it has a name, its record and its configuration bear
    /// that one name and agree on the restart counter, its log is within its
    /// capacity, and the restart counter is within the restart limit where
    /// there is one.
    pub open spec fn wf(self) -> bool {
        &&& self.info.pid_matches_state()
        &&& self.info.name.len() > 0
        &&& self.info.name == self.config.name
        &&& self.info.restart_count == self.restart_count
        &&& self.logs.len() <= self.log_capacity
        &&& (self.config.restart_limit > 0 ==> self.restart_count <= self.config.restart_limit)
    }

    /// Whether the process is running.
    pub open spec fn is_running(self) -> bool {
        self.info.state is Running
    }
}

impl View for ProcessHandle {
    type V = HandleView;

    closed spec fn view(&self) -> HandleView {
        HandleView {
            info: self.info@,
            config: self.config@,
            logs: self.log_buffer@,
            log_capacity: self.log_buffer.max_lines(),
            restart_count: self.restart_count,
            last_restart: self.last_restart,
            generation: self.generation,
        }
    }
}

/// The first position from `from` on at which a handle named `name` stands,
/// or the number of handles where none does.
pub open spec fn slot_from(handles: Seq<HandleView>, name: Seq<char>, from: int) -> int
    decreases handles.len() - from,
{
    if from < 0 || from >= handles.len() {
        handles.len() as int
    } else if handles[from].info.name == name {
        from
    } else {
        slot_from(handles, name, from + 1)
    }
}

/// The position of the handle named `name`, or the number of handles where
/// there is none.
pub open spec fn slot_of(handles: Seq<HandleView>, name: Seq<char>) -> int {
    slot_from(handles, name, 0)
}

/// Whether a process named `name` is managed.
pub open spec fn manages(handles: Seq<HandleView>, name: Seq<char>) -> bool {
    slot_of(handles, name) < handles.len()
}

/// The handle of the process named `name`, where one is managed.
pub open spec fn handle_of(handles: Seq<HandleView>, name: Seq<char>) -> HandleView {
    handles[slot_of(handles, name)]
}

/// Whether a process named `name` is managed and running.
pub open spec fn runs(handles: Seq<HandleView>, name: Seq<char>) -> bool {
    manages(handles, name) && handle_of(handles, name).is_running()
}

/// Whether no two handles bear one name.
pub open spec fn unique_names(handles: Seq<HandleView>) -> bool {
    forall|i: int, j: int|
        0 <= i < j < handles.len() ==> (#[trigger] handles[i]).info.name != (#[trigger] handles[j]).info.name
}

/// The handles with `handle` in the place of the handle of its name, or at
/// the end where no handle bears its name.
pub open spec fn placed(handles: Seq<HandleView>, handle: HandleView) -> Seq<HandleView> {
    if manages(handles, handle.info.name) {
        handles.update(slot_of(handles, handle.info.name), handle)
    } else {
        handles.push(handle)
    }
}

/// The handles without the handle named `name`.
pub open spec fn without(handles: Seq<HandleView>, name: Seq<char>) -> Seq<HandleView> {
    if manages(handles, name) {
        handles.remove(slot_of(handles, name))
    } else {
        handles
    }
}

/// The record of a process that was just spawned under `pid`.
pub open spec fn running_info(
    config: ProcessConfigView,
    pid: u32,
    restart_count: u32,
    now: Timestamp,
) -> ProcessInfoView {
    ProcessInfoView {
        name: config.name,
        state: ProcessStateView::Running,
        pid: Some(pid),
        command: config.command,
        cwd: config.cwd,
        memory_usage: 0,
        restart_count,
        started_at: Some(now),
        stopped_at: None,
    }
}

/// The handle of a process that was just spawned under `pid`: running, with
/// an empty log of the default capacity.
pub open spec fn fresh_handle(
    config: ProcessConfigView,
    pid: u32,
    restart_count: u32,
    last_restart: Option<Timestamp>,
    now: Timestamp,
    generation: u64,
) -> HandleView {
    HandleView {
        info: running_info(config, pid, restart_count, now),
        config,
        logs: Seq::empty(),
        log_capacity: DEFAULT_MAX_LINES as nat,
        restart_count,
        last_restart,
        generation,
    }
}

/// The handle once its process was asked to stop: stopping, without a pid.
pub open spec fn stopping(handle: HandleView) -> HandleView {
    HandleView {
        info: ProcessInfoView { state: ProcessStateView::Stopping, pid: None, ..handle.info },
        ..handle
    }
}

/// The handle once its process has ended at its caller's request.
pub open spec fn stopped(handle: HandleView, now: Timestamp) -> HandleView {
    HandleView {
        info: ProcessInfoView {
            state: ProcessStateView::Stopped,
            pid: None,
            stopped_at: Some(now),
            ..handle.info
        },
        ..handle
    }
}

/// The exit code recorded for a child that ended: its own, or -1 where it
/// had none because a signal ended it.
pub open spec fn recorded_exit_code(exit_code: Option<i32>) -> i32 {
    match exit_code {
        Some(code) => code,
        None => -1i32,
    }
}

/// The handle once its process was seen to have ended by itself.
pub open spec fn crashed(handle: HandleView, exit_code: Option<i32>, now: Timestamp) -> HandleView {
    HandleView {
        info: ProcessInfoView {
            state: ProcessStateView::Crashed { exit_code: recorded_exit_code(exit_code) },
            pid: None,
            stopped_at: Some(now),
            ..handle.info
        },
        ..handle
    }
}

/// The generation after `generation`.
pub open spec fn next_generation(generation: u64) -> u64 {
    if generation == u64::MAX {
        0
    } else {
        (generation + 1) as u64
    }
}

/// Two spawns in a row never get the same generation.
pub proof fn lemma_generations_differ(generation: u64)
    ensures
        next_generation(generation) != generation,
{
}

/// Where `slot_from` finds a name, a handle of that name stands there, and
/// none between `from` and there.
pub proof fn lemma_slot_from(handles: Seq<HandleView>, name: Seq<char>, from: int)
    requires
        0 <= from <= handles.len(),
    ensures
        from <= slot_from(handles, name, from) <= handles.len(),
        slot_from(handles, name, from) < handles.len() ==> handles[slot_from(
            handles,
            name,
            from,
        )].info.name == name,
        forall|j: int| from <= j < slot_from(handles, name, from) ==> (#[trigger] handles[j]).info.name != name,
    decreases handles.len() - from,
{
    if from < handles.len() && handles[from].info.name != name {
        lemma_slot_from(handles, name, from + 1);
    }
}

/// Among handles with unique names, the handle at position `at` is the one
/// that its name finds.
pub proof fn lemma_slot_of_member(handles: Seq<HandleView>, at: int)
    requires
        unique_names(handles),
        0 <= at < handles.len(),
    ensures
        slot_of(handles, handles[at].info.name) == at,
{
    lemma_slot_from(handles, handles[at].info.name, 0);
}

/// Putting a handle among handles with unique names keeps the names unique,
/// makes the handle the one that its name finds, and leaves the handle of
/// every other name as it was.
pub proof fn lemma_placed(handles: Seq<HandleView>, handle: HandleView)
    requires
        unique_names(handles),
    ensures
        unique_names(placed(handles, handle)),
        manages(placed(handles, handle), handle.info.name),
        handle_of(placed(handles, handle), handle.info.name) == handle,
        forall|other: Seq<char>|
            other != handle.info.name ==> {
                &&& #[trigger] manages(placed(handles, handle), other) == manages(handles, other)
                &&& manages(handles, other) ==> handle_of(placed(handles, handle), other) == handle_of(
                    handles,
                    other,
                )
            },
{
    let name = handle.info.name;
    let after = placed(handles, handle);
    lemma_slot_from(handles, name, 0);
    let slot = slot_of(handles, name);
    assert forall|i: int, j: int| 0 <= i < j < after.len() implies (#[trigger] after[i]).info.name != (
    #[trigger] after[j]).info.name by {
        if slot < handles.len() {
            if i == slot {
                assert(handles[j].info.name != handles[slot].info.name);
            } else if j == slot {
                assert(handles[i].info.name != handles[slot].info.name);
            } else {
                assert(handles[i].info.name != handles[j].info.name);
            }
        } else {
            if j == handles.len() {
                assert(handles[i].info.name != name);
            } else {
                assert(handles[i].info.name != handles[j].info.name);
            }
        }
    }
    lemma_slot_from(after, name, 0);
    if slot < handles.len() {
        assert(after[slot].info.name == name);
        lemma_slot_of_member(after, slot);
    } else {
        assert(after[handles.len() as int].info.name == name);
        lemma_slot_of_member(after, handles.len() as int);
    }
    assert forall|other: Seq<char>| other != name implies {
        &&& #[trigger] manages(after, other) == manages(handles, other)
        &&& manages(handles, other) ==> handle_of(after, other) == handle_of(handles, other)
    } by {
        lemma_slot_from(handles, other, 0);
        lemma_slot_from(after, other, 0);
        let a = slot_of(handles, other);
        let b = slot_of(after, other);
        if a < handles.len() {
            assert(after[a].info.name == other);
            assert(b <= a);
            if b < a {
                assert(handles[b].info.name == after[b].info.name);
            }
        } else {
            if b < after.len() {
                if b < handles.len() {
                    assert(handles[b].info.name == other);
                }
            }
        }
    }
}

/// Removing the handle of a name from handles with unique names keeps the
/// names unique and leaves the handle of every other name as it was.
pub proof fn lemma_without(handles: Seq<HandleView>, name: Seq<char>)
    requires
        unique_names(handles),
    ensures
        unique_names(without(handles, name)),
        !manages(without(handles, name), name),
        forall|other: Seq<char>|
            other != name ==> {
                &&& #[trigger] manages(without(handles, name), other) == manages(handles, other)
                &&& manages(handles, other) ==> handle_of(without(handles, name), other) == handle_of(
                    handles,
                    other,
                )
            },
{
    let after = without(handles, name);
    lemma_slot_from(handles, name, 0);
    let slot = slot_of(handles, name);
    if slot < handles.len() {
        assert forall|i: int, j: int| 0 <= i < j < after.len() implies (#[trigger] after[i]).info.name != (
        #[trigger] after[j]).info.name by {
            let a = if i < slot { i } else { i + 1 };
            let b = if j < slot { j } else { j + 1 };
            assert(after[i] == handles[a]);
            assert(after[j] == handles[b]);
            assert(handles[a].info.name != handles[b].info.name);
        }
        lemma_slot_from(after, name, 0);
        let found = slot_of(after, name);
        if found < after.len() {
            let b = if found < slot { found } else { found + 1 };
            assert(after[found] == handles[b]);
            assert(handles[b].info.name == name);
            if b < slot {
                assert(false);
            } else {
                assert(handles[slot].info.name != handles[b].info.name);
            }
        }
        assert forall|other: Seq<char>| other != name implies {
            &&& #[trigger] manages(after, other) == manages(handles, other)
            &&& manages(handles, other) ==> handle_of(after, other) == handle_of(handles, other)
        } by {
            lemma_slot_from(handles, other, 0);
            lemma_slot_from(after, other, 0);
            let a = slot_of(handles, other);
            let b = slot_of(after, other);
            if a < handles.len() {
                let a_after = if a < slot { a } else { a - 1 };
                assert(after[a_after] == handles[a]);
                assert(b <= a_after);
                if b < a_after {
                    let b_before = if b < slot { b } else { b + 1 };
                    assert(after[b] == handles[b_before]);
                    assert(false);
                }
            } else {
                if b < after.len() {
                    let b_before = if b < slot { b } else { b + 1 };
                    assert(after[b] == handles[b_before]);
                    assert(false);
                }
            }
        }
    }
}

/// The grace window of `stop`, in milliseconds.
pub const STOP_GRACE_MS: u64 = 10_000;

/// The grace window of `stop_gracefully`, in milliseconds.
pub const GRACEFUL_STOP_GRACE_MS: u64 = 5_000;

/// What the caller has to do to stop a process.
#[derive(Debug, Clone, Copy, PartialEq, Eq, Structural)]
pub enum StopPlan {
    /// Nothing: the process is not running.
    AlreadyStopped,
    /// Ask the child with this pid to terminate, and wait for its end for no
    /// longer than the grace window.
    Terminate { pid: u32, grace_ms: u64 },
}

/// How the wait for the end of a child that was asked to terminate went.
#[derive(Debug, Clone, Copy, PartialEq, Eq, Structural)]
pub enum WaitOutcome {
    /// The child ended within the grace window.
    Exited,
    /// Waiting for the child failed.
    WaitFailed,
    /// The grace window passed and the child is still alive.
    TimedOut,
}

/// What the caller does after the wait, before it records the stop.
#[derive(Debug, Clone, Copy, PartialEq, Eq, Structural)]
pub enum StopFollowUp {
    /// Nothing more.
    Finish,
    /// Kill the child by force and reap it.
    ForceKill,
}

/// What a poll of a child showed.
#[derive(Debug, Clone, Copy, PartialEq, Eq, Structural)]
pub enum PollOutcome {
    /// The child is still running.
    StillRunning,
    /// The child has ended, with this exit code if it had one.
    Exited { exit_code: Option<i32> },
    /// The poll itself failed.
    PollFailed,
}

/// What a restart at the caller's request takes: stop the process, wait
/// `delay_ms` milliseconds, start it again from `config`.
#[derive(Debug)]
pub struct RestartPlan {
    /// The configuration that the process was started from.
    pub config: ProcessConfig,
    /// The pause between the stop and the start, in milliseconds.
    pub delay_ms: u64,
}

/// The handle with its log emptied.
pub open spec fn with_logs(handle: HandleView, logs: Seq<LogLine>) -> HandleView {
    HandleView { logs, ..handle }
}

/// The names of the running processes, in order.
pub open spec fn running_names(handles: Seq<HandleView>) -> Seq<Seq<char>> {
    let running = handles.filter(|h: HandleView| h.is_running());
    Seq::new(running.len(), |i: int| running[i].info.name)
}

/// Why a process is not recorded as restarted: it is not managed, or it is
/// running, or its restart budget is used up.
pub open spec fn restart_refusal(handles: Seq<HandleView>, name: Seq<char>) -> SentinelErrorView {
    if !manages(handles, name) {
        not_found_error(name)
    } else if runs(handles, name) {
        already_running_error(handles, name)
    } else {
        SentinelErrorView::RestartLimitExceeded {
            name,
            limit: handle_of(handles, name).config.restart_limit,
        }
    }
}

/// The error that refuses to remove a running process.
pub open spec fn remove_running_error() -> SentinelErrorView {
    SentinelErrorView::Other("Cannot remove running process. Stop it first."@)
}

/// What follows the wait for a child that was asked to terminate: a child
/// that outlived the grace window is killed by force.
pub fn after_wait(outcome: WaitOutcome) -> (follow_up: StopFollowUp)
    ensures
        follow_up == if outcome is TimedOut { StopFollowUp::ForceKill } else { StopFollowUp::Finish },
{
    match outcome {
        WaitOutcome::TimedOut => StopFollowUp::ForceKill,
        WaitOutcome::Exited => StopFollowUp::Finish,
        WaitOutcome::WaitFailed => StopFollowUp::Finish,
    }
}

/// The error that refuses to start a process that is running.
pub open spec fn already_running_error(handles: Seq<HandleView>, name: Seq<char>) -> SentinelErrorView {
    SentinelErrorView::ProcessAlreadyRunning {
        name,
        pid: match handle_of(handles, name).info.pid {
            Some(pid) => pid,
            None => 0,
        },
    }
}

/// Why a spawn of `config` is not recorded, if so: the configuration has no
/// name, or, checked after that, a process of its name is running.
pub open spec fn record_refusal(handles: Seq<HandleView>, config: ProcessConfigView) -> Option<
    SentinelErrorView,
> {
    if config.name.len() == 0 {
        Some(empty_name_error())
    } else if runs(handles, config.name) {
        Some(already_running_error(handles, config.name))
    } else {
        None
    }
}

/// Why a process is not started from `config`, if so: the configuration has
/// no name; or a process of its name is running; or its command names no
/// program. The first of these that holds is the one reported.
pub open spec fn start_refusal(handles: Seq<HandleView>, config: ProcessConfigView) -> Option<
    SentinelErrorView,
> {
    if record_refusal(handles, config) is Some {
        record_refusal(handles, config)
    } else {
        launch_refusal(config)
    }
}

/// The error that reports that no process of the given name is managed.
pub open spec fn not_found_error(name: Seq<char>) -> SentinelErrorView {
    SentinelErrorView::ProcessNotFound { name }
}

/// The records of the handles, in order.
pub open spec fn infos_of(handles: Seq<HandleView>) -> Seq<ProcessInfoView> {
    Seq::new(handles.len(), |i: int| handles[i].info)
}

/// The views of a list of records.
pub open spec fn info_views(infos: Seq<ProcessInfo>) -> Seq<ProcessInfoView> {
    Seq::new(infos.len(), |i: int| infos[i]@)
}

/// Manages the lifecycle of multiple processes.
pub struct ProcessManager {
    /// The handles of the managed processes, in the order in which their
    /// names were first started.
    processes: Vec<ProcessHandle>,
    /// The generation that the next spawn gets.
    next_generation: u64,
}

impl View for ProcessManager {
    type V = Seq<HandleView>;

    /// The handles of the managed processes, in order.
    closed spec fn view(&self) -> Seq<HandleView> {
        Seq::new(self.processes@.len(), |i: int| self.processes@[i]@)
    }
}

impl ProcessManager {
    /// The manager's invariant: no two handles bear one name, and every
    /// handle is well formed. Every constructor establishes it and every
    /// method keeps it.
    pub closed spec fn wf(self) -> bool {
        &&& unique_names(self@)
        &&& forall|i: int| 0 <= i < self@.len() ==> (#[trigger] self@[i]).wf()
        &&& forall|i: int| 0 <= i < self.processes@.len() ==> (#[trigger] self.processes@[i]).log_buffer.wf()
    }

    /// The generation that the next spawn gets.
    pub closed spec fn upcoming_generation(self) -> u64 {
        self.next_generation
    }

    /// In a well-formed manager process names are unique, and every handle
    /// is well formed: in particular, a handle has a pid exactly while its
    /// process is running.
    pub proof fn lemma_invariant(self)
        requires
            self.wf(),
        ensures
            unique_names(self@),
            forall|i: int| 0 <= i < self@.len() ==> (#[trigger] self@[i]).wf(),
            forall|name: Seq<char>| #[trigger]
                manages(self@, name) ==> handle_of(self@, name).wf() && handle_of(self@, name).info.name
                    == name,
    {
        assert forall|name: Seq<char>| #[trigger] manages(self@, name) implies handle_of(self@, name).wf()
            && handle_of(self@, name).info.name == name by {
            lemma_slot_from(self@, name, 0);
        }
    }

    /// The names in the list of records are all different.
    pub proof fn lemma_listed_names_differ(self)
        requires
            self.wf(),
        ensures
            forall|i: int, j: int|
                0 <= i < j < infos_of(self@).len() ==> (#[trigger] infos_of(self@)[i]).name != (
                #[trigger] infos_of(self@)[j]).name,
    {
        assert forall|i: int, j: int| 0 <= i < j < infos_of(self@).len() implies (#[trigger] infos_of(
            self@,
        )[i]).name != (#[trigger] infos_of(self@)[j]).name by {
            assert(self@[i].info.name != self@[j].info.name);
        }
    }

    /// A managed process that is not running has no pid, and one that is
    /// running has one.
    pub proof fn lemma_pid_follows_state(self, name: Seq<char>)
        requires
            self.wf(),
            manages(self@, name),
        ensures
            runs(self@, name) <==> handle_of(self@, name).info.pid is Some,
    {
        self.lemma_invariant();
    }

    /// Creates a new ProcessManager that manages nothing yet.
    pub fn new() -> (manager: Self)
        ensures
            manager.wf(),
            manager@ == Seq::<HandleView>::empty(),
    {
        let manager = ProcessManager { processes: Vec::new(), next_generation: 0 };
        assert(manager@ =~= Seq::<HandleView>::empty());
        manager
    }

    /// Finds the position of the handle named `name`.
    fn find(&self, name: &str) -> (found: Option<usize>)
        ensures
            match found {
                Some(i) => {
                    &&& i < self.processes@.len()
                    &&& i == slot_of(self@, name@)
                    &&& self@[i as int] == handle_of(self@, name@)
                    &&& self@[i as int].info.name == name@
                },
                None => slot_of(self@, name@) == self@.len(),
            },
            found is Some <==> manages(self@, name@),
    {
        proof {
            lemma_slot_from(self@, name@, 0);
        }
        let mut i: usize = 0;
        while i < self.processes.len()
            invariant
                i <= self.processes@.len(),
                slot_from(self@, name@, i as int) == slot_of(self@, name@),
            decreases self.processes@.len() - i,
        {
            assert(self@[i as int].info.name == self.processes@[i as int].info.name@);
            if str_eq(self.processes[i].info.name.as_str(), name) {
                return Some(i);
            }
            i = i + 1;
        }
        None
    }

    /// Puts `handle` in the place of the handle of its name, or at the end
    /// where no handle bears its name.
    fn install(&mut self, handle: ProcessHandle)
        requires
            old(self).wf(),
            handle@.wf(),
            handle.log_buffer.wf(),
        ensures
            final(self).wf(),
            final(self)@ == placed(old(self)@, handle@),
            final(self).next_generation == old(self).next_generation,
    {
        proof {
            lemma_placed(self@, handle@);
        }
        match self.find(handle.info.name.as_str()) {
            Some(i) => {
                self.processes[i] = handle;
            },
            None => {
                self.processes.push(handle);
            },
        }
        assert(self@ =~= placed(old(self)@, handle@));
    }

    /// Decides whether a process may be started from `config`, and what to
    /// launch for it.
    ///
    /// Refuses, in this order: with `InvalidConfig` a configuration whose
    /// name is empty; with `ProcessAlreadyRunning` a name that is running;
    /// with `InvalidConfig` a configuration that has no arguments and whose
    /// command has no word. The manager itself does not change: a start that
    /// fails leaves no trace.
    pub fn plan_start(&self, config: &ProcessConfig) -> (r: Result<LaunchPlan>)
        requires
            self.wf(),
        ensures
            match start_refusal(self@, config@) {
                Some(refusal) => r matches Err(e) && e@ == refusal,
                None => r matches Ok(made) && Some(made@) == launch_plan_of(config@),
            },
            config@.name.len() == 0 ==> (r matches Err(e) && e@ is InvalidConfig),
    {
        if config.name.as_str().is_empty() {
            return Err(empty_name());
        }
        match self.find(config.name.as_str()) {
            Some(i) => {
                if self.processes[i].info.is_running() {
                    return Err(self.already_running(i));
                }
            },
            None => {},
        }
        plan_launch(config)
    }

    /// The error that refuses to start the running process at position `i`.
    fn already_running(&self, i: usize) -> (e: SentinelError)
        requires
            i < self.processes@.len(),
        ensures
            e@ == (SentinelErrorView::ProcessAlreadyRunning {
                name: self@[i as int].info.name,
                pid: match self@[i as int].info.pid {
                    Some(pid) => pid,
                    None => 0,
                },
            }),
    {
        let pid: u32 = match self.processes[i].info.pid {
            Some(pid) => pid,
            None => 0,
        };
        SentinelError::ProcessAlreadyRunning { name: self.processes[i].info.name.clone(), pid }
    }

    /// Records that the process of `config` was spawned under `pid` just now.
    /// See `record_started_at`.
    pub fn record_started(&mut self, config: ProcessConfig, pid: u32) -> (r: Result<ProcessInfo>)
        requires
            old(self).wf(),
        ensures
            final(self).wf(),
            match record_refusal(old(self)@, config@) {
                Some(refusal) => {
                    &&& r matches Err(e) && e@ == refusal
                    &&& final(self)@ == old(self)@
                    &&& final(self).upcoming_generation() == old(self).upcoming_generation()
                },
                None => r is Ok && exists|now: Timestamp|
                    final(self)@ == placed(
                        old(self)@,
                        #[trigger] fresh_handle(
                            config@,
                            pid,
                            0,
                            None,
                            now,
                            old(self).upcoming_generation(),
                        ),
                    ),
            },
            config@.name.len() == 0 ==> (r matches Err(e) && e@ is InvalidConfig),
            r is Ok ==> runs(final(self)@, config@.name) && handle_of(
                final(self)@,
                config@.name,
            ).info.pid == Some(pid),
    {
        let now = Timestamp::now();
        self.record_started_at(config, pid, now)
    }

    /// Records that the process of `config` was spawned under `pid` at the
    /// time `now`.
    ///
    /// The process gets a fresh handle: running, with no restarts counted and
    /// an empty log. A handle of the same name that is not running is
    /// replaced. Nothing changes where the configuration has no name
    /// (`InvalidConfig`) and where a process of that name is running
    /// (`ProcessAlreadyRunning`).
    pub fn record_started_at(&mut self, config: ProcessConfig, pid: u32, now: Timestamp) -> (r: Result<
        ProcessInfo,
    >)
        requires
            old(self).wf(),
        ensures
            final(self).wf(),
            match record_refusal(old(self)@, config@) {
                Some(refusal) => {
                    &&& r matches Err(e) && e@ == refusal
                    &&& final(self)@ == old(self)@
                    &&& final(self).upcoming_generation() == old(self).upcoming_generation()
                },
                None => {
                    &&& r matches Ok(info) && info@ == running_info(config@, pid, 0, now)
                    &&& final(self)@ == placed(
                        old(self)@,
                        fresh_handle(config@, pid, 0, None, now, old(self).upcoming_generation()),
                    )
                    &&& final(self).upcoming_generation() == next_generation(
                        old(self).upcoming_generation(),
                    )
                },
            },
            config@.name.len() == 0 ==> (r matches Err(e) && e@ is InvalidConfig),
            r is Ok ==> runs(final(self)@, config@.name) && handle_of(
                final(self)@,
                config@.name,
            ).info.pid == Some(pid),
    {
        if config.name.as_str().is_empty() {
            return Err(empty_name());
        }
        match self.find(config.name.as_str()) {
            Some(i) => {
                if self.processes[i].info.is_running() {
                    return Err(self.already_running(i));
                }
            },
            None => {},
        }
        let info = self.spawned(config, pid, 0, None, now);
        Ok(info)
    }

    /// Installs the fresh handle of a process that was spawned under `pid`,
    /// and returns its record.
    fn spawned(
        &mut self,
        config: ProcessConfig,
        pid: u32,
        restart_count: u32,
        last_restart: Option<Timestamp>,
        now: Timestamp,
    ) -> (info: ProcessInfo)
        requires
            old(self).wf(),
            config@.name.len() > 0,
            config@.restart_limit > 0 ==> restart_count <= config@.restart_limit,
        ensures
            final(self).wf(),
            info@ == running_info(config@, pid, restart_count, now),
            final(self)@ == placed(
                old(self)@,
                fresh_handle(config@, pid, restart_count, last_restart, now, old(self).upcoming_generation()),
            ),
            final(self).upcoming_generation() == next_generation(old(self).upcoming_generation()),
            runs(final(self)@, config@.name),
            handle_of(final(self)@, config@.name) == fresh_handle(
                config@,
                pid,
                restart_count,
                last_restart,
                now,
                old(self).upcoming_generation(),
            ),
    {
        let info = ProcessInfo {
            name: config.name.clone(),
            state: ProcessState::Running,
            pid: Some(pid),
            command: config.command.clone(),
            cwd: config.cwd.clone(),
            memory_usage: 0,
            restart_count,
            started_at: Some(now),
            stopped_at: None,
        };
        let generation = self.next_generation;
        let handle = ProcessHandle {
            info: info.clone(),
            config,
            log_buffer: LogBuffer::new(),
            restart_count,
            last_restart,
            generation,
        };
        proof {
            lemma_placed(self@, handle@);
        }
        self.install(handle);
        self.next_generation = if generation == u64::MAX {
            0
        } else {
            generation + 1
        };
        info
    }

    /// The error that reports that no process named `name` is managed.
    fn not_found(name: &str) -> (e: SentinelError)
        ensures
            e@ == not_found_error(name@),
    {
        SentinelError::ProcessNotFound { name: name.to_owned() }
    }

    /// Begins to stop a process, with the grace window of `stop`.
    /// See `begin_stop_within`.
    pub fn begin_stop(&mut self, name: &str) -> (r: Result<StopPlan>)
        requires
            old(self).wf(),
        ensures
            final(self).wf(),
            final(self).upcoming_generation() == old(self).upcoming_generation(),
            !manages(old(self)@, name@) ==> (r matches Err(e) && e@ == not_found_error(name@)
                && final(self)@ == old(self)@),
            manages(old(self)@, name@) && !runs(old(self)@, name@) ==> r == Ok::<StopPlan, SentinelError>(
                StopPlan::AlreadyStopped,
            ) && final(self)@ == old(self)@,
            runs(old(self)@, name@) ==> {
                &&& handle_of(old(self)@, name@).info.pid matches Some(pid) && r == Ok::<
                    StopPlan,
                    SentinelError,
                >(StopPlan::Terminate { pid, grace_ms: STOP_GRACE_MS })
                &&& final(self)@ == placed(old(self)@, stopping(handle_of(old(self)@, name@)))
            },
            r is Ok ==> !runs(final(self)@, name@) && handle_of(final(self)@, name@).info.pid is None,
    {
        self.begin_stop_within(name, STOP_GRACE_MS)
    }

    /// Begins to stop a process, with the shorter grace window of
    /// `stop_gracefully`. See `begin_stop_within`.
    pub fn begin_graceful_stop(&mut self, name: &str) -> (r: Result<StopPlan>)
        requires
            old(self).wf(),
        ensures
            final(self).wf(),
            final(self).upcoming_generation() == old(self).upcoming_generation(),
            !manages(old(self)@, name@) ==> (r matches Err(e) && e@ == not_found_error(name@)
                && final(self)@ == old(self)@),
            manages(old(self)@, name@) && !runs(old(self)@, name@) ==> r == Ok::<StopPlan, SentinelError>(
                StopPlan::AlreadyStopped,
            ) && final(self)@ == old(self)@,
            runs(old(self)@, name@) ==> {
                &&& handle_of(old(self)@, name@).info.pid matches Some(pid) && r == Ok::<
                    StopPlan,
                    SentinelError,
                >(StopPlan::Terminate { pid, grace_ms: GRACEFUL_STOP_GRACE_MS })
                &&& final(self)@ == placed(old(self)@, stopping(handle_of(old(self)@, name@)))
            },
            r is Ok ==> !runs(final(self)@, name@) && handle_of(final(self)@, name@).info.pid is None,
    {
        self.begin_stop_within(name, GRACEFUL_STOP_GRACE_MS)
    }

    /// Begins to stop a process.
    ///
    /// Fails with `ProcessNotFound` where no process of that name is managed.
    /// A process that is not running is left as it is. A running process
    /// becomes `Stopping` and gives up its pid, which the plan hands to the
    /// caller together with the grace window.
    pub fn begin_stop_within(&mut self, name: &str, grace_ms: u64) -> (r: Result<StopPlan>)
        requires
            old(self).wf(),
        ensures
            final(self).wf(),
            final(self).upcoming_generation() == old(self).upcoming_generation(),
            !manages(old(self)@, name@) ==> (r matches Err(e) && e@ == not_found_error(name@)
                && final(self)@ == old(self)@),
            manages(old(self)@, name@) && !runs(old(self)@, name@) ==> r == Ok::<StopPlan, SentinelError>(
                StopPlan::AlreadyStopped,
            ) && final(self)@ == old(self)@,
            runs(old(self)@, name@) ==> {
                &&& handle_of(old(self)@, name@).info.pid matches Some(pid) && r == Ok::<
                    StopPlan,
                    SentinelError,
                >(StopPlan::Terminate { pid, grace_ms })
                &&& final(self)@ == placed(old(self)@, stopping(handle_of(old(self)@, name@)))
            },
            r is Ok ==> !runs(final(self)@, name@) && handle_of(final(self)@, name@).info.pid is None,
    {
        match self.find(name) {
            None => Err(Self::not_found(name)),
            Some(i) => {
                assert(self@[i as int].wf());
                match self.processes[i].info.pid {
                    Some(pid) => {
                        proof {
                            lemma_placed(self@, stopping(self@[i as int]));
                        }
                        self.processes[i].info.state = ProcessState::Stopping;
                        self.processes[i].info.pid = None;
                        assert(self@ =~= placed(old(self)@, stopping(old(self)@[i as int])));
                        Ok(StopPlan::Terminate { pid, grace_ms })
                    },
                    None => Ok(StopPlan::AlreadyStopped),
                }
            },
        }
    }

    /// Records that the stop of a process has ended just now.
    /// See `finish_stop_at`.
    pub fn finish_stop(&mut self, name: &str) -> (r: Result<()>)
        requires
            old(self).wf(),
        ensures
            final(self).wf(),
            final(self).upcoming_generation() == old(self).upcoming_generation(),
            r is Ok <==> manages(old(self)@, name@),
            r matches Err(e) ==> e@ == not_found_error(name@) && final(self)@ == old(self)@,
            r is Ok && !(handle_of(old(self)@, name@).info.state is Stopping) ==> final(self)@ == old(
                self,
            )@,
            r is Ok && handle_of(old(self)@, name@).info.state is Stopping ==> exists|now: Timestamp|
                final(self)@ == placed(old(self)@, #[trigger] stopped(handle_of(old(self)@, name@), now)),
            r is Ok && !runs(old(self)@, name@) ==> !runs(final(self)@, name@) && handle_of(
                final(self)@,
                name@,
            ).info.pid is None,
    {
        let now = Timestamp::now();
        self.finish_stop_at(name, now)
    }

    /// Records that the stop of a process ended at the time `now`.
    ///
    /// Fails with `ProcessNotFound` where no process of that name is managed.
    /// A process that is `Stopping` becomes `Stopped`, and `now` its stop
    /// time. A process in any other state is left as it is: one that was
    /// not asked to stop is not taken to have stopped.
    pub fn finish_stop_at(&mut self, name: &str, now: Timestamp) -> (r: Result<()>)
        requires
            old(self).wf(),
        ensures
            final(self).wf(),
            final(self).upcoming_generation() == old(self).upcoming_generation(),
            r is Ok <==> manages(old(self)@, name@),
            r matches Err(e) ==> e@ == not_found_error(name@) && final(self)@ == old(self)@,
            r is Ok && !(handle_of(old(self)@, name@).info.state is Stopping) ==> final(self)@ == old(
                self,
            )@,
            r is Ok && handle_of(old(self)@, name@).info.state is Stopping ==> final(self)@ == placed(
                old(self)@,
                stopped(handle_of(old(self)@, name@), now),
            ),
            r is Ok && !runs(old(self)@, name@) ==> !runs(final(self)@, name@) && handle_of(
                final(self)@,
                name@,
            ).info.pid is None,
    {
        match self.find(name) {
            None => Err(Self::not_found(name)),
            Some(i) => {
                if matches!(self.processes[i].info.state, ProcessState::Stopping) {
                    proof {
                        lemma_placed(self@, stopped(self@[i as int], now));
                    }
                    self.processes[i].info.state = ProcessState::Stopped;
                    self.processes[i].info.pid = None;
                    self.processes[i].info.stopped_at = Some(now);
                    assert(self@ =~= placed(old(self)@, stopped(old(self)@[i as int], now)));
                }
                Ok(())
            },
        }
    }

    /// Plans a restart at the caller's request: the configuration that the
    /// process was started from, and the pause between its stop and its
    /// start. Fails with `ProcessNotFound` where no process of that name is
    /// managed.
    pub fn begin_restart(&self, name: &str) -> (r: Result<RestartPlan>)
        ensures
            match r {
                Ok(plan) => {
                    &&& manages(self@, name@)
                    &&& plan.config@ == handle_of(self@, name@).config
                    &&& plan.delay_ms == handle_of(self@, name@).config.restart_delay
                },
                Err(e) => !manages(self@, name@) && e@ == not_found_error(name@),
            },
    {
        match self.find(name) {
            None => Err(Self::not_found(name)),
            Some(i) => {
                let config = self.processes[i].config.clone();
                let delay_ms = config.restart_delay;
                Ok(RestartPlan { config, delay_ms })
            },
        }
    }

    /// Removes a process from management.
    ///
    /// Fails where the process is running. Removing a name that is not
    /// managed changes nothing.
    pub fn remove(&mut self, name: &str) -> (r: Result<()>)
        requires
            old(self).wf(),
        ensures
            final(self).wf(),
            final(self).upcoming_generation() == old(self).upcoming_generation(),
            runs(old(self)@, name@) ==> (r matches Err(e) && e@ == remove_running_error() && final(self)@
                == old(self)@),
            !runs(old(self)@, name@) ==> r is Ok && final(self)@ == without(old(self)@, name@),
            r is Ok ==> !manages(final(self)@, name@),
    {
        proof {
            lemma_without(self@, name@);
        }
        match self.find(name) {
            Some(i) => {
                if self.processes[i].info.is_running() {
                    return Err(
                        SentinelError::Other("Cannot remove running process. Stop it first.".to_owned()),
                    );
                }
                let _ = self.processes.remove(i);
                assert(self@ =~= without(old(self)@, name@));
                Ok(())
            },
            None => Ok(()),
        }
    }

    /// Gets logs for a specific process, oldest first.
    pub fn get_logs(&self, name: &str) -> (found: Option<Vec<LogLine>>)
        ensures
            match found {
                Some(lines) => manages(self@, name@) && lines@ == handle_of(self@, name@).logs,
                None => !manages(self@, name@),
            },
    {
        match self.find(name) {
            Some(i) => Some(self.processes[i].log_buffer.get_all()),
            None => None,
        }
    }

    /// Gets last N logs for a specific process, oldest first.
    pub fn get_recent_logs(&self, name: &str, n: usize) -> (found: Option<Vec<LogLine>>)
        ensures
            match found {
                Some(lines) => manages(self@, name@) && lines@ == keep_last(
                    handle_of(self@, name@).logs,
                    n as nat,
                ),
                None => !manages(self@, name@),
            },
    {
        match self.find(name) {
            Some(i) => Some(self.processes[i].log_buffer.get_last_n(n)),
            None => None,
        }
    }

    /// Searches logs for a specific process: the lines whose text contains
    /// `query`, letter case aside.
    pub fn search_logs(&self, name: &str, query: &str) -> (found: Option<Vec<LogLine>>)
        ensures
            match found {
                Some(lines) => manages(self@, name@) && lines@ == handle_of(self@, name@).logs.filter(
                    |line: LogLine| line_matches(line, query@),
                ),
                None => !manages(self@, name@),
            },
    {
        match self.find(name) {
            Some(i) => Some(self.processes[i].log_buffer.search(query)),
            None => None,
        }
    }

    /// Empties the log of a process. Fails with `ProcessNotFound` where no
    /// process of that name is managed.
    pub fn clear_logs(&mut self, name: &str) -> (r: Result<()>)
        requires
            old(self).wf(),
        ensures
            final(self).wf(),
            final(self).upcoming_generation() == old(self).upcoming_generation(),
            r is Ok <==> manages(old(self)@, name@),
            r matches Err(e) ==> e@ == not_found_error(name@) && final(self)@ == old(self)@,
            r is Ok ==> final(self)@ == placed(
                old(self)@,
                with_logs(handle_of(old(self)@, name@), Seq::empty()),
            ),
    {
        match self.find(name) {
            None => Err(Self::not_found(name)),
            Some(i) => {
                proof {
                    lemma_placed(self@, with_logs(self@[i as int], Seq::empty()));
                }
                self.processes[i].log_buffer.clear();
                assert(self@ =~= placed(old(self)@, with_logs(old(self)@[i as int], Seq::empty())));
                Ok(())
            },
        }
    }

    /// The generation of the spawn that the handle named `name` stands for.
    pub fn generation_of(&self, name: &str) -> (found: Option<u64>)
        ensures
            match found {
                Some(generation) => manages(self@, name@) && generation == handle_of(
                    self@,
                    name@,
                ).generation,
                None => !manages(self@, name@),
            },
    {
        match self.find(name) {
            Some(i) => Some(self.processes[i].generation),
            None => None,
        }
    }

    /// Takes a line of output that the child of the spawn `generation` of
    /// the process `name` wrote.
    ///
    /// The line goes to the end of the log of the process, which drops its
    /// oldest line where it is full. A line of a spawn that the handle no
    /// longer stands for, or of a process that is not managed, is dropped.
    /// Returns whether the line was taken.
    pub fn record_output(&mut self, name: &str, generation: u64, line: LogLine) -> (taken: bool)
        requires
            old(self).wf(),
        ensures
            final(self).wf(),
            final(self).upcoming_generation() == old(self).upcoming_generation(),
            taken == (manages(old(self)@, name@) && handle_of(old(self)@, name@).generation
                == generation),
            !taken ==> final(self)@ == old(self)@,
            taken ==> final(self)@ == placed(
                old(self)@,
                with_logs(
                    handle_of(old(self)@, name@),
                    keep_last(
                        handle_of(old(self)@, name@).logs.push(line),
                        handle_of(old(self)@, name@).log_capacity,
                    ),
                ),
            ),
    {
        match self.find(name) {
            None => false,
            Some(i) => {
                if self.processes[i].generation != generation {
                    return false;
                }
                let ghost handle = self@[i as int];
                proof {
                    lemma_placed(
                        self@,
                        with_logs(handle, keep_last(handle.logs.push(line), handle.log_capacity)),
                    );
                }
                self.processes[i].log_buffer.push(line);
                assert(self@ =~= placed(
                    old(self)@,
                    with_logs(handle, keep_last(handle.logs.push(line), handle.log_capacity)),
                ));
                true
            },
        }
    }

    /// The names of the processes that a health sweep has to poll: those
    /// that are running, in order.
    pub fn health_targets(&self) -> (names: Vec<String>)
        ensures
            names.deep_view() == running_names(self@),
    {
        let ghost pred = |h: HandleView| h.is_running();
        let mut out: Vec<String> = Vec::new();
        let mut i: usize = 0;
        proof {
            reveal(Seq::filter);
        }
        while i < self.processes.len()
            invariant
                i <= self.processes@.len(),
                pred == |h: HandleView| h.is_running(),
                out@.len() == self@.take(i as int).filter(pred).len(),
                forall|j: int|
                    0 <= j < out@.len() ==> (#[trigger] out@[j])@ == self@.take(i as int).filter(
                        pred,
                    )[j].info.name,
            decreases self.processes@.len() - i,
        {
            proof {
                reveal(Seq::filter);
                assert(self@.take(i + 1).drop_last() =~= self@.take(i as int));
                assert(self@.take(i + 1).last() == self@[i as int]);
            }
            if self.processes[i].info.is_running() {
                out.push(self.processes[i].info.name.clone());
            }
            i = i + 1;
        }
        assert(self@.take(i as int) =~= self@);
        assert(out.deep_view() =~= running_names(self@));
        out
    }

    /// Takes what a poll of the child of a process showed just now.
    /// See `observe_poll_at`.
    pub fn observe_poll(&mut self, name: &str, outcome: PollOutcome) -> (decision: RestartDecision)
        requires
            old(self).wf(),
        ensures
            final(self).wf(),
            final(self).upcoming_generation() == old(self).upcoming_generation(),
            !(runs(old(self)@, name@) && outcome is Exited) ==> final(self)@ == old(self)@ && decision
                == RestartDecision::NoRestart,
            runs(old(self)@, name@) && outcome is Exited ==> {
                &&& decision == decision_for(
                    handle_of(old(self)@, name@).config.auto_restart,
                    handle_of(old(self)@, name@).config.restart_limit,
                    handle_of(old(self)@, name@).config.restart_delay,
                    handle_of(old(self)@, name@).restart_count,
                )
                &&& exists|now: Timestamp|
                    final(self)@ == placed(
                        old(self)@,
                        #[trigger] crashed(handle_of(old(self)@, name@), outcome->exit_code, now),
                    )
            },
    {
        let now = Timestamp::now();
        self.observe_poll_at(name, outcome, now)
    }

    /// Takes what a poll of the child of a process showed at the time `now`.
    ///
    /// Only the end of a running process changes anything: the process
    /// becomes `Crashed` with the exit code of its child, gives up its pid,
    /// and gets `now` as its stop time. The decision says whether the policy
    /// of the process restarts it, and after what pause. A child that still
    /// runs, a poll that failed, and a process that is not managed or not
    /// running leave everything as it is, and nothing is restarted.
    pub fn observe_poll_at(&mut self, name: &str, outcome: PollOutcome, now: Timestamp) -> (decision:
        RestartDecision)
        requires
            old(self).wf(),
        ensures
            final(self).wf(),
            final(self).upcoming_generation() == old(self).upcoming_generation(),
            !(runs(old(self)@, name@) && outcome is Exited) ==> final(self)@ == old(self)@ && decision
                == RestartDecision::NoRestart,
            runs(old(self)@, name@) && outcome is Exited ==> {
                &&& decision == decision_for(
                    handle_of(old(self)@, name@).config.auto_restart,
                    handle_of(old(self)@, name@).config.restart_limit,
                    handle_of(old(self)@, name@).config.restart_delay,
                    handle_of(old(self)@, name@).restart_count,
                )
                &&& final(self)@ == placed(
                    old(self)@,
                    crashed(handle_of(old(self)@, name@), outcome->exit_code, now),
                )
            },
    {
        let exit_code = match outcome {
            PollOutcome::Exited { exit_code } => exit_code,
            PollOutcome::StillRunning => {
                return RestartDecision::NoRestart;
            },
            PollOutcome::PollFailed => {
                return RestartDecision::NoRestart;
            },
        };
        match self.find(name) {
            None => RestartDecision::NoRestart,
            Some(i) => {
                if !self.processes[i].info.is_running() {
                    return RestartDecision::NoRestart;
                }
                proof {
                    lemma_placed(self@, crashed(self@[i as int], exit_code, now));
                }
                let code: i32 = match exit_code {
                    Some(code) => code,
                    None => -1,
                };
                self.processes[i].info.state = ProcessState::Crashed { exit_code: code };
                self.processes[i].info.pid = None;
                self.processes[i].info.stopped_at = Some(now);
                assert(self@ =~= placed(old(self)@, crashed(old(self)@[i as int], exit_code, now)));
                decide_restart(&self.processes[i].config, self.processes[i].restart_count)
            },
        }
    }

    /// Records that a process was spawned again under `pid` just now, by the
    /// restart policy. See `record_restart_at`.
    pub fn record_restart(&mut self, name: &str, pid: u32) -> (r: Result<ProcessInfo>)
        requires
            old(self).wf(),
        ensures
            final(self).wf(),
            r is Ok <==> manages(old(self)@, name@) && !runs(old(self)@, name@) && budget_left(
                handle_of(old(self)@, name@).config.restart_limit,
                handle_of(old(self)@, name@).restart_count,
            ),
            r matches Err(e) ==> final(self)@ == old(self)@ && e@ == restart_refusal(old(self)@, name@),
            r matches Ok(info) ==> exists|now: Timestamp|
                final(self)@ == placed(
                    old(self)@,
                    #[trigger] fresh_handle(
                        handle_of(old(self)@, name@).config,
                        pid,
                        next_count(handle_of(old(self)@, name@).restart_count),
                        Some(now),
                        now,
                        old(self).upcoming_generation(),
                    ),
                ),
            r is Ok ==> runs(final(self)@, name@) && handle_of(final(self)@, name@).info.pid == Some(pid)
                && handle_of(final(self)@, name@).restart_count == next_count(
                handle_of(old(self)@, name@).restart_count,
            ),
    {
        let now = Timestamp::now();
        self.record_restart_at(name, pid, now)
    }

    /// Records that a process was spawned again under `pid` at the time
    /// `now`, by the restart policy.
    ///
    /// The process gets a fresh handle from the configuration that it was
    /// started from: running, with an empty log, its restart counter one
    /// higher than before and `now` as the time of its last restart. Nothing
    /// changes where no process of that name is managed
    /// (`ProcessNotFound`), where the process is running
    /// (`ProcessAlreadyRunning`), or where its restart budget is used up
    /// (`RestartLimitExceeded`).
    pub fn record_restart_at(&mut self, name: &str, pid: u32, now: Timestamp) -> (r: Result<ProcessInfo>)
        requires
            old(self).wf(),
        ensures
            final(self).wf(),
            r is Ok <==> manages(old(self)@, name@) && !runs(old(self)@, name@) && budget_left(
                handle_of(old(self)@, name@).config.restart_limit,
                handle_of(old(self)@, name@).restart_count,
            ),
            r matches Err(e) ==> final(self)@ == old(self)@ && e@ == restart_refusal(old(self)@, name@)
                && final(self).upcoming_generation() == old(self).upcoming_generation(),
            r matches Ok(info) ==> {
                &&& info@ == running_info(
                    handle_of(old(self)@, name@).config,
                    pid,
                    next_count(handle_of(old(self)@, name@).restart_count),
                    now,
                )
                &&& final(self)@ == placed(
                    old(self)@,
                    fresh_handle(
                        handle_of(old(self)@, name@).config,
                        pid,
                        next_count(handle_of(old(self)@, name@).restart_count),
                        Some(now),
                        now,
                        old(self).upcoming_generation(),
                    ),
                )
                &&& final(self).upcoming_generation() == next_generation(
                    old(self).upcoming_generation(),
                )
            },
            r is Ok ==> runs(final(self)@, name@) && handle_of(final(self)@, name@).info.pid == Some(pid)
                && handle_of(final(self)@, name@).restart_count == next_count(
                handle_of(old(self)@, name@).restart_count,
            ),
    {
        match self.find(name) {
            None => Err(Self::not_found(name)),
            Some(i) => {
                if self.processes[i].info.is_running() {
                    return Err(self.already_running(i));
                }
                let limit = self.processes[i].config.restart_limit;
                let count = self.processes[i].restart_count;
                if !(limit == 0 || count < limit) {
                    return Err(restart_limit_exceeded(name, limit));
                }
                let config = self.processes[i].config.clone();
                assert(self@[i as int].wf());
                assert(config@.name == name@);
                let attempt: u32 = if count == u32::MAX {
                    u32::MAX
                } else {
                    count + 1
                };
                let info = self.spawned(config, pid, attempt, Some(now), now);
                Ok(info)
            },
        }
    }

    /// Gets information about a process.
    pub fn get(&self, name: &str) -> (found: Option<&ProcessInfo>)
        ensures
            match found {
                Some(info) => manages(self@, name@) && info@ == handle_of(self@, name@).info,
                None => !manages(self@, name@),
            },
    {
        match self.find(name) {
            Some(i) => Some(&self.processes[i].info),
            None => None,
        }
    }

    /// Lists all processes, in the order in which their names were first
    /// started.
    pub fn list(&self) -> (infos: Vec<ProcessInfo>)
        ensures
            info_views(infos@) == infos_of(self@),
    {
        let mut out: Vec<ProcessInfo> = Vec::new();
        let mut i: usize = 0;
        while i < self.processes.len()
            invariant
                i <= self.processes@.len(),
                out@.len() == i,
                forall|j: int| 0 <= j < i ==> (#[trigger] out@[j])@ == self@[j].info,
            decreases self.processes@.len() - i,
        {
            out.push(self.processes[i].info.clone());
            i = i + 1;
        }
        assert(info_views(out@) =~= infos_of(self@));
        out
    }

    /// The names of all managed processes, in order.
    pub fn managed_names(&self) -> (names: Vec<String>)
        ensures
            names.deep_view() == Seq::new(self@.len(), |i: int| self@[i].info.name),
    {
        let mut out: Vec<String> = Vec::new();
        let mut i: usize = 0;
        while i < self.processes.len()
            invariant
                i <= self.processes@.len(),
                out@.len() == i,
                forall|j: int| 0 <= j < i ==> (#[trigger] out@[j])@ == self@[j].info.name,
            decreases self.processes@.len() - i,
        {
            out.push(self.processes[i].info.name.clone());
            i = i + 1;
        }
        assert(out.deep_view() =~= Seq::new(self@.len(), |i: int| self@[i].info.name));
        out
    }

    /// Checks if a process is running.
    pub fn is_running(&self, name: &str) -> (r: bool)
        ensures
            r == runs(self@, name@),
    {
        match self.find(name) {
            Some(i) => self.processes[i].info.is_running(),
            None => false,
        }
    }
}

impl Default for ProcessManager {
    fn default() -> (manager: Self)
        ensures
            manager.wf(),
            manager@ == Seq::<HandleView>::empty(),
    {
        Self::new()
    }
}

} // verus!
