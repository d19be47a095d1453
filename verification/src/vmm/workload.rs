//! Workloads: processes that the guest agent runs inside a VM on request.

use vstd::prelude::*;

use crate::clock;
use crate::text;
use crate::vmm::utils::random_id;
use crate::vmm::vm::{EnvVar, VmId};

verus! {

/// The name of a workload.
#[derive(Debug, PartialEq, Eq, Hash)]
pub struct WorkloadId(pub String);

impl WorkloadId {
    /// A random name, like `wl-x7k2pq`.
    pub fn new_random() -> (id: WorkloadId)
        ensures
            exists|suffix: Seq<char>|
                crate::vmm::utils::id_suffix(suffix) && id.0@ == "wl"@ + "-"@ + suffix,
    {
        WorkloadId(random_id("wl"))
    }

    /// Where the workload's output is logged.
    pub fn log_path(&self, workloads_dir: &str) -> (path: String)
        ensures
            path@ == text::path_joined(workloads_dir@, self.0@ + ".log"@),
    {
        text::path_join(workloads_dir, &text::cat2(&self.0, ".log"))
    }
}

impl Clone for WorkloadId {
    fn clone(&self) -> (id: Self)
        ensures
            id == *self,
    {
        WorkloadId(self.0.clone())
    }
}

/// What to run inside the guest.
#[derive(Debug)]
pub struct WorkloadSpec {
    pub cmd: Vec<String>,
    pub env: Vec<EnvVar>,
    pub cwd: Option<String>,
}

/// Where a workload stands.
#[derive(Debug, Clone, Copy, PartialEq, Eq, Structural)]
pub enum WorkloadState {
    /// Sent to the guest agent, which has not confirmed the process yet.
    Starting,
    Running,
    /// The process finished on its own, with whatever exit code.
    Exited,
    /// The process finished after a stop request.
    Stopped,
    /// The guest failed to spawn the process.
    Failed,
}

/// The variant's name, as diagnostics print it.
pub open spec fn workload_state_name(s: WorkloadState) -> Seq<char> {
    match s {
        WorkloadState::Starting => "Starting"@,
        WorkloadState::Running => "Running"@,
        WorkloadState::Exited => "Exited"@,
        WorkloadState::Stopped => "Stopped"@,
        WorkloadState::Failed => "Failed"@,
    }
}

impl WorkloadState {
    /// The variant's name, as diagnostics print it.
    pub fn name(self) -> (s: &'static str)
        ensures
            s@ == workload_state_name(self),
    {
        match self {
            WorkloadState::Starting => "Starting",
            WorkloadState::Running => "Running",
            WorkloadState::Exited => "Exited",
            WorkloadState::Stopped => "Stopped",
            WorkloadState::Failed => "Failed",
        }
    }
}

/// Who asked for a workload.
#[derive(Debug, Clone, Copy, PartialEq, Eq, Structural)]
pub enum WorkloadOrigin {
    Manual,
    Schedule,
}

/// A process in a guest. Times are in milliseconds since the Unix epoch.
#[derive(Debug)]
pub struct Workload {
    pub workload_id: WorkloadId,
    pub vm_id: VmId,
    pub spec: WorkloadSpec,
    pub origin: WorkloadOrigin,
    pub state: WorkloadState,
    pub pid: Option<u32>,
    pub exit_code: Option<i32>,
    pub signal: Option<i32>,
    pub created_at: u64,
    pub started_at: Option<u64>,
    pub finished_at: Option<u64>,
    /// Set when a stop was requested and the exit has not been reported yet;
    /// the exit then lands the workload in `Stopped`.
    pub stop_requested: bool,
}

/// Whether a workload in this state may still have a process.
pub open spec fn active(s: WorkloadState) -> bool {
    s is Starting || s is Running
}

/// A workload once its process was confirmed.
pub open spec fn running(w: Workload, pid: Option<u32>, now: u64) -> Workload {
    if w.state is Starting {
        Workload {
            state: WorkloadState::Running,
            pid: if pid is Some {
                pid
            } else {
                w.pid
            },
            started_at: Some(now),
            ..w
        }
    } else {
        w
    }
}

/// A workload once its process has exited.
pub open spec fn exited(w: Workload, exit_code: Option<i32>, signal: Option<i32>, now: u64) -> Workload {
    if active(w.state) {
        Workload {
            state: if w.stop_requested {
                WorkloadState::Stopped
            } else {
                WorkloadState::Exited
            },
            exit_code,
            signal,
            finished_at: Some(now),
            ..w
        }
    } else {
        w
    }
}

/// A workload once its process could not be spawned.
pub open spec fn failed(w: Workload, now: u64) -> Workload {
    if active(w.state) {
        Workload { state: WorkloadState::Failed, finished_at: Some(now), ..w }
    } else {
        w
    }
}

impl Workload {
    /// A workload that is about to be sent to the guest.
    pub fn new(vm_id: &VmId, spec: WorkloadSpec) -> (w: Workload)
        ensures
            w.vm_id == *vm_id,
            w.spec == spec,
            w.origin == WorkloadOrigin::Manual,
            w.state == WorkloadState::Starting,
            w.pid is None,
            w.exit_code is None,
            w.signal is None,
            w.started_at is None,
            w.finished_at is None,
            !w.stop_requested,
            exists|suffix: Seq<char>|
                crate::vmm::utils::id_suffix(suffix) && w.workload_id.0@ == "wl"@ + "-"@ + suffix,
    {
        Workload {
            workload_id: WorkloadId::new_random(),
            vm_id: vm_id.clone(),
            spec,
            origin: WorkloadOrigin::Manual,
            state: WorkloadState::Starting,
            pid: None,
            exit_code: None,
            signal: None,
            created_at: clock::now_millis(),
            started_at: None,
            finished_at: None,
            stop_requested: false,
        }
    }

    /// Whether the workload may still have a process.
    pub fn is_active(&self) -> (b: bool)
        ensures
            b == active(self.state),
    {
        matches!(self.state, WorkloadState::Starting | WorkloadState::Running)
    }

    /// The guest agent confirmed the process.
    pub fn mark_running(&mut self, pid: Option<u32>, now: u64)
        ensures
            *final(self) == running(*old(self), pid, now),
    {
        if self.state == WorkloadState::Starting {
            self.state = WorkloadState::Running;
            if pid.is_some() {
                self.pid = pid;
            }
            self.started_at = Some(now);
        }
    }

    /// The guest agent reported that the process has exited.
    pub fn mark_finished(&mut self, exit_code: Option<i32>, signal: Option<i32>, now: u64)
        ensures
            *final(self) == exited(*old(self), exit_code, signal, now),
    {
        if !self.is_active() {
            return;
        }
        self.state = if self.stop_requested {
            WorkloadState::Stopped
        } else {
            WorkloadState::Exited
        };
        self.exit_code = exit_code;
        self.signal = signal;
        self.finished_at = Some(now);
    }

    /// The guest agent failed to spawn the process.
    pub fn mark_failed(&mut self, now: u64)
        ensures
            *final(self) == failed(*old(self), now),
    {
        if self.is_active() {
            self.state = WorkloadState::Failed;
            self.finished_at = Some(now);
        }
    }
}

/// A workload that is no longer active stays as it is, whatever is reported.
pub proof fn law_finished_workloads_stay_finished(
    w: Workload,
    pid: Option<u32>,
    exit_code: Option<i32>,
    signal: Option<i32>,
    now: u64,
)
    requires
        !active(w.state),
    ensures
        running(w, pid, now) == w,
        exited(w, exit_code, signal, now) == w,
        failed(w, now) == w,
{
}

/// An exit ends an active workload: in `Stopped` if a stop was requested, in
/// `Exited` otherwise; and a confirmation never makes one inactive.
pub proof fn law_exit_ends_workload(
    w: Workload,
    pid: Option<u32>,
    exit_code: Option<i32>,
    signal: Option<i32>,
    now: u64,
)
    requires
        active(w.state),
    ensures
        active(running(w, pid, now).state),
        exited(running(w, pid, now), exit_code, signal, now).state == if w.stop_requested {
            WorkloadState::Stopped
        } else {
            WorkloadState::Exited
        },
{
}

} // verus!
