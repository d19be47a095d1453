//! The control protocol of the guest agent, which goes over the connection as
//! lines of JSON.

use vstd::prelude::*;

verus! {

/// What the host asks for.
#[derive(Debug)]
pub enum Request {
    Start {
        workload_id: String,
        cmd: Vec<String>,
        env: Vec<(String, String)>,
        cwd: Option<String>,
    },
    Stop { workload_id: String },
    List,
    /// Run the command every so often and report the guest as idle when it
    /// exits with 0. An empty command switches the detector off.
    ConfigureAutoSuspend { idle_check_cmd: Vec<String>, check_interval_secs: u64 },
}

/// Where a process writes its output.
#[derive(Debug, Clone, Copy, PartialEq, Eq, Structural)]
pub enum Stream {
    Stdout,
    Stderr,
}

/// Whether a process lives.
#[derive(Debug, Clone, Copy, PartialEq, Eq, Structural)]
pub enum WorkloadState {
    Running,
    Exited,
}

/// The name of a stream on the wire.
pub open spec fn stream_name(s: Stream) -> Seq<char> {
    match s {
        Stream::Stdout => "stdout"@,
        Stream::Stderr => "stderr"@,
    }
}

/// The name of a state on the wire.
pub open spec fn wire_state(s: WorkloadState) -> Seq<char> {
    match s {
        WorkloadState::Running => "running"@,
        WorkloadState::Exited => "exited"@,
    }
}

impl Stream {
    /// The name on the wire.
    pub fn name(self) -> (s: &'static str)
        ensures
            s@ == stream_name(self),
    {
        match self {
            Stream::Stdout => "stdout",
            Stream::Stderr => "stderr",
        }
    }
}

impl WorkloadState {
    /// The name on the wire.
    pub fn name(self) -> (s: &'static str)
        ensures
            s@ == wire_state(self),
    {
        match self {
            WorkloadState::Running => "running",
            WorkloadState::Exited => "exited",
        }
    }
}

/// What the agent reports.
#[allow(inconsistent_fields)]
#[derive(Debug)]
pub enum Event {
    Started { workload_id: String, pid: u32 },
    Output { workload_id: String, stream: Stream, data: String },
    Exited { workload_id: String, exit_code: Option<i32>, signal: Option<i32> },
    Error { workload_id: Option<String>, message: String },
    ListResult { workloads: Vec<WorkloadInfo> },
    /// The guest is idle. Whether the VM is suspended is up to the host.
    Idle,
}

/// A workload in the agent's table.
#[derive(Debug)]
pub struct WorkloadInfo {
    pub workload_id: String,
    pub state: WorkloadState,
    pub exit_code: Option<i32>,
    pub signal: Option<i32>,
}

} // verus!
