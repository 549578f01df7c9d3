//! Runtime state models for process tracking.
//!
//! The runtime state is kept apart from the configuration. A persistence
//! layer may store it and hand it back; the library neither reads nor writes
//! it to disk.

use crate::clock::Timestamp;
use crate::engine::registry::{has_key, put, taken, value_of, Registry};
use crate::engine::restart::next_count;
use vstd::prelude::*;

verus! {

/// Runtime information for a single process.
#[derive(Debug)]
pub struct ProcessRuntimeInfo {
    /// Current process ID (if running)
    pub pid: Option<u32>,
    /// When this process was started by Sentinel
    pub started_at: Option<Timestamp>,
    /// Hash of the process configuration (to detect changes)
    pub config_hash: String,
    /// Whether this process is actively managed by Sentinel
    pub managed_by_sentinel: bool,
    /// Number of times this process has been restarted
    pub restart_count: u32,
    /// Last known exit code (if process exited)
    pub last_exit_code: Option<i32>,
}

impl Clone for ProcessRuntimeInfo {
    fn clone(&self) -> (copy: Self)
        ensures
            copy == *self,
    {
        ProcessRuntimeInfo {
            pid: self.pid,
            started_at: self.started_at,
            config_hash: self.config_hash.clone(),
            managed_by_sentinel: self.managed_by_sentinel,
            restart_count: self.restart_count,
            last_exit_code: self.last_exit_code,
        }
    }
}

impl ProcessRuntimeInfo {
    /// Creates new runtime info for a process that was started just now.
    pub fn new(pid: u32, config_hash: String) -> (info: Self)
        ensures
            info.pid == Some(pid),
            info.started_at is Some,
            info.config_hash == config_hash,
            info.managed_by_sentinel,
            info.restart_count == 0,
            info.last_exit_code is None,
    {
        Self::new_at(pid, config_hash, Timestamp::now())
    }

    /// Creates new runtime info for a process that was started at `now`.
    pub fn new_at(pid: u32, config_hash: String, now: Timestamp) -> (info: Self)
        ensures
            info == (ProcessRuntimeInfo {
                pid: Some(pid),
                started_at: Some(now),
                config_hash,
                managed_by_sentinel: true,
                restart_count: 0,
                last_exit_code: None,
            }),
    {
        ProcessRuntimeInfo {
            pid: Some(pid),
            started_at: Some(now),
            config_hash,
            managed_by_sentinel: true,
            restart_count: 0,
            last_exit_code: None,
        }
    }

    /// Marks process as stopped.
    pub fn mark_stopped(&mut self, exit_code: Option<i32>)
        ensures
            *final(self) == (ProcessRuntimeInfo { pid: None, last_exit_code: exit_code, ..*old(self) }),
    {
        self.pid = None;
        self.last_exit_code = exit_code;
    }

    /// Increments restart counter, which stops at `u32::MAX`.
    pub fn increment_restart(&mut self)
        ensures
            *final(self) == (ProcessRuntimeInfo {
                restart_count: next_count(old(self).restart_count),
                ..*old(self)
            }),
    {
        if self.restart_count < u32::MAX {
            self.restart_count = self.restart_count + 1;
        }
    }
}

/// Runtime state for all managed processes: the pid, the start time and the
/// configuration hash of each, by process name.
pub struct RuntimeState {
    /// Process name to runtime info.
    processes: Registry<ProcessRuntimeInfo>,
    /// Last time state was synchronized with running processes
    last_sync: Option<Timestamp>,
}

impl RuntimeState {
    /// The invariant of the state: no process name stands twice.
    pub closed spec fn wf(self) -> bool {
        self.processes.wf()
    }

    /// The runtime info of each process, under its name.
    pub closed spec fn processes(self) -> Seq<(Seq<char>, ProcessRuntimeInfo)> {
        self.processes@
    }

    /// When the state was last changed or synchronized.
    pub closed spec fn last_sync(self) -> Option<Timestamp> {
        self.last_sync
    }

    /// Creates a new empty runtime state.
    pub fn new() -> (state: Self)
        ensures
            state.wf(),
            state.processes() == Seq::<(Seq<char>, ProcessRuntimeInfo)>::empty(),
            state.last_sync() is None,
    {
        RuntimeState { processes: Registry::new(), last_sync: None }
    }

    /// Adds or updates process runtime info, just now.
    pub fn upsert_process(&mut self, name: String, info: ProcessRuntimeInfo)
        requires
            old(self).wf(),
        ensures
            final(self).wf(),
            final(self).processes() == put(old(self).processes(), name@, info),
            final(self).last_sync() is Some,
    {
        self.upsert_process_at(name, info, Timestamp::now())
    }

    /// Adds or updates process runtime info, at the time `now`.
    pub fn upsert_process_at(&mut self, name: String, info: ProcessRuntimeInfo, now: Timestamp)
        requires
            old(self).wf(),
        ensures
            final(self).wf(),
            final(self).processes() == put(old(self).processes(), name@, info),
            final(self).last_sync() == Some(now),
    {
        let _ = self.processes.insert(name, info);
        self.last_sync = Some(now);
    }

    /// Removes process runtime info, just now.
    pub fn remove_process(&mut self, name: &str) -> (removed: Option<ProcessRuntimeInfo>)
        requires
            old(self).wf(),
        ensures
            final(self).wf(),
            final(self).processes() == taken(old(self).processes(), name@),
            final(self).last_sync() is Some,
            match removed {
                Some(info) => has_key(old(self).processes(), name@) && info == value_of(
                    old(self).processes(),
                    name@,
                ),
                None => !has_key(old(self).processes(), name@),
            },
    {
        self.remove_process_at(name, Timestamp::now())
    }

    /// Removes process runtime info, at the time `now`.
    pub fn remove_process_at(&mut self, name: &str, now: Timestamp) -> (removed: Option<
        ProcessRuntimeInfo,
    >)
        requires
            old(self).wf(),
        ensures
            final(self).wf(),
            final(self).processes() == taken(old(self).processes(), name@),
            final(self).last_sync() == Some(now),
            match removed {
                Some(info) => has_key(old(self).processes(), name@) && info == value_of(
                    old(self).processes(),
                    name@,
                ),
                None => !has_key(old(self).processes(), name@),
            },
    {
        let removed = self.processes.remove(name);
        self.last_sync = Some(now);
        removed
    }

    /// Gets process runtime info.
    pub fn get_process(&self, name: &str) -> (found: Option<&ProcessRuntimeInfo>)
        requires
            self.wf(),
        ensures
            match found {
                Some(info) => has_key(self.processes(), name@) && *info == value_of(
                    self.processes(),
                    name@,
                ),
                None => !has_key(self.processes(), name@),
            },
    {
        self.processes.get(name)
    }

    /// The time of the last change or synchronization.
    pub fn synced_at(&self) -> (at: Option<Timestamp>)
        ensures
            at == self.last_sync(),
    {
        self.last_sync
    }

    /// Updates the last sync timestamp to the time `now`.
    pub fn mark_synced_at(&mut self, now: Timestamp)
        requires
            old(self).wf(),
        ensures
            final(self).wf(),
            final(self).processes() == old(self).processes(),
            final(self).last_sync() == Some(now),
    {
        self.last_sync = Some(now);
    }

    /// Updates the last sync timestamp.
    pub fn mark_synced(&mut self)
        requires
            old(self).wf(),
        ensures
            final(self).wf(),
            final(self).processes() == old(self).processes(),
            final(self).last_sync() is Some,
    {
        self.mark_synced_at(Timestamp::now())
    }
}

impl Default for RuntimeState {
    fn default() -> (state: Self)
        ensures
            state.wf(),
            state.processes() == Seq::<(Seq<char>, ProcessRuntimeInfo)>::empty(),
            state.last_sync() is None,
    {
        Self::new()
    }
}

} // verus!
