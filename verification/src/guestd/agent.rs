//! The workloads of a guest: what the agent does about requests, and what it
//! reports. The program runs the processes.

use vstd::prelude::*;

use crate::guestd::monitor::IdleMonitor;
use crate::guestd::proto::{Event, Request, Stream, WorkloadInfo, WorkloadState};
use crate::text;

verus! {

/// The port that the agent listens on.
pub const VSOCK_PORT: u32 = 5000;

/// How long a workload may take to end after it was asked to, in seconds.
pub const STOP_GRACE_SECS: u64 = 2;

/// How much output is reported at once.
pub const OUTPUT_BUF_SIZE: usize = 8192;

/// A workload that was started.
#[derive(Debug)]
pub struct WorkloadEntry {
    pub workload_id: String,
    pub pid: u32,
    /// Exit code and signal, once the process was reaped.
    pub result: Option<(Option<i32>, Option<i32>)>,
}

/// The agent.
#[derive(Debug)]
pub struct Agent {
    pub workloads: Vec<WorkloadEntry>,
    /// The number of the host's current connection, where events go.
    pub conn: Option<u64>,
    pub idle_monitor: IdleMonitor,
}

/// What to do about a request.
#[derive(Debug)]
pub enum AgentStep {
    Nothing,
    Send(Event),
    /// Start a process in a process group of its own.
    Spawn {
        workload_id: String,
        program: String,
        args: Vec<String>,
        env: Vec<(String, String)>,
        cwd: Option<String>,
    },
    /// Ask a process group to end, and after the grace period see whether it
    /// has to be killed.
    Terminate { workload_id: String, pgid: i32 },
    /// Start the loop of the idle detector.
    StartMonitor,
}

/// Where a workload stands; the number of workloads if there is none of that
/// name.
pub open spec fn entry_index(workloads: Seq<WorkloadEntry>, id: Seq<char>) -> nat
    decreases workloads.len(),
{
    if workloads.len() == 0 || workloads[0].workload_id@ == id {
        0
    } else {
        1 + entry_index(workloads.drop_first(), id)
    }
}

/// Where a workload stands.
fn find_entry(workloads: &Vec<WorkloadEntry>, id: &str) -> (at: Option<usize>)
    ensures
        match at {
            Some(i) => i < workloads@.len() && i == entry_index(workloads@, id@),
            None => entry_index(workloads@, id@) == workloads@.len(),
        },
{
    let mut i: usize = 0;
    proof {
        assert(workloads@.skip(0) =~= workloads@);
    }
    while i < workloads.len()
        invariant
            i <= workloads@.len(),
            entry_index(workloads@, id@) == i + entry_index(workloads@.skip(i as int), id@),
        decreases workloads@.len() - i,
    {
        proof {
            assert(workloads@.skip(i as int)[0] == workloads@[i as int]);
            assert(workloads@.skip(i as int).drop_first() =~= workloads@.skip(i as int + 1));
        }
        if text::str_eq(&workloads[i].workload_id, id) {
            return Some(i);
        }
        i += 1;
    }
    None
}

/// What the agent says of a workload.
pub open spec fn info_of(e: WorkloadEntry) -> (Seq<char>, WorkloadState, Option<i32>, Option<i32>) {
    match e.result {
        Some((code, signal)) => (e.workload_id@, WorkloadState::Exited, code, signal),
        None => (e.workload_id@, WorkloadState::Running, None, None),
    }
}

/// What a report says of a workload.
pub open spec fn info_view(i: WorkloadInfo) -> (
    Seq<char>,
    WorkloadState,
    Option<i32>,
    Option<i32>,
) {
    (i.workload_id@, i.state, i.exit_code, i.signal)
}

/// What the agent says of all workloads.
fn list(workloads: &Vec<WorkloadEntry>) -> (infos: Vec<WorkloadInfo>)
    ensures
        infos@.len() == workloads@.len(),
        forall|i: int|
            0 <= i < infos@.len() ==> info_view(#[trigger] infos@[i]) == info_of(workloads@[i]),
{
    let mut infos: Vec<WorkloadInfo> = Vec::new();
    let mut i: usize = 0;
    while i < workloads.len()
        invariant
            i <= workloads@.len(),
            infos@.len() == i,
            forall|j: int|
                0 <= j < i ==> info_view(#[trigger] infos@[j]) == info_of(workloads@[j]),
        decreases workloads@.len() - i,
    {
        let entry = &workloads[i];
        let info = match entry.result {
            Some((exit_code, signal)) => WorkloadInfo {
                workload_id: entry.workload_id.clone(),
                state: WorkloadState::Exited,
                exit_code,
                signal,
            },
            None => WorkloadInfo {
                workload_id: entry.workload_id.clone(),
                state: WorkloadState::Running,
                exit_code: None,
                signal: None,
            },
        };
        infos.push(info);
        i += 1;
    }
    infos
}

/// The complaint about a workload.
fn complaint(workload_id: String, message: String) -> (step: AgentStep)
    ensures
        complains(step, workload_id@, message@),
{
    AgentStep::Send(Event::Error { workload_id: Some(workload_id), message })
}

/// Whether a step is the given complaint about a workload.
pub open spec fn complains(step: AgentStep, workload_id: Seq<char>, message: Seq<char>) -> bool {
    step matches AgentStep::Send(Event::Error { workload_id: Some(id), message: m }) && id@
        == workload_id && m@ == message
}

/// What is done about a request.
pub open spec fn answered(before: Agent, after: Agent, request: Request, step: AgentStep) -> bool {
    let w = before.workloads@;
    match request {
        Request::Start { workload_id, cmd, env, cwd } => {
            &&& after == before
            &&& if cmd@.len() == 0 {
                complains(step, workload_id@, "cmd must not be empty"@)
            } else {
                &&& step is Spawn
                &&& step->Spawn_workload_id == workload_id
                &&& step->program@ == cmd@[0]@
                &&& text::views(step->args@) == text::views(cmd@).skip(1)
                &&& step->env == env
                &&& step->cwd == cwd
            }
        },
        Request::Stop { workload_id } => {
            let k = entry_index(w, workload_id@) as int;
            &&& after == before
            &&& if k == w.len() {
                complains(step, workload_id@, "unknown workload"@)
            } else if w[k].result is Some {
                step is Nothing
            } else {
                &&& step is Terminate
                &&& step->Terminate_workload_id == workload_id
                &&& step->pgid == -(w[k].pid as int)
            }
        },
        Request::List => {
            &&& after == before
            &&& step matches AgentStep::Send(Event::ListResult { workloads })
            &&& workloads@.len() == w.len()
            &&& forall|i: int|
                0 <= i < w.len() ==> info_view(#[trigger] workloads@[i]) == info_of(w[i])
        },
        Request::ConfigureAutoSuspend { idle_check_cmd, check_interval_secs } => {
            &&& after.workloads == before.workloads
            &&& after.conn == before.conn
            &&& if idle_check_cmd@.len() > 0 && !before.idle_monitor.started {
                step is StartMonitor
            } else {
                step is Nothing
            }
            &&& after.idle_monitor.started == (before.idle_monitor.started
                || idle_check_cmd@.len() > 0)
            &&& if idle_check_cmd@.len() == 0 {
                after.idle_monitor.config is None
            } else {
                &&& after.idle_monitor.config is Some
                &&& after.idle_monitor.config->0.cmd == idle_check_cmd
                &&& after.idle_monitor.config->0.interval_secs == if check_interval_secs < 1 {
                    1u64
                } else {
                    check_interval_secs
                }
            }
        },
    }
}

impl Agent {
    /// Whether every process has a number that a process can have, and the
    /// detector is sound.
    pub open spec fn wf(self) -> bool {
        &&& forall|i: int|
            0 <= i < self.workloads@.len() ==> (#[trigger] self.workloads@[i]).pid <= i32::MAX
        &&& self.idle_monitor.wf()
    }

    /// An agent without workloads.
    pub fn new() -> (a: Agent)
        ensures
            a.wf(),
            a.workloads@.len() == 0,
            a.conn is None,
            a.idle_monitor.config is None,
            !a.idle_monitor.started,
    {
        Agent { workloads: Vec::new(), conn: None, idle_monitor: IdleMonitor::new() }
    }

    /// Decides what to do about a request of the host.
    pub fn handle_request(&mut self, request: Request) -> (step: AgentStep)
        requires
            old(self).wf(),
        ensures
            final(self).wf(),
            answered(*old(self), *final(self), request, step),
    {
        match request {
            Request::Start { workload_id, cmd, env, cwd } => {
                if cmd.len() == 0 {
                    return complaint(workload_id, "cmd must not be empty".to_owned());
                }
                let n: usize = cmd.len();
                let program = cmd[0].clone();
                let args = text::copies(&cmd.as_slice()[1..n]);
                proof {
                    assert(text::views(args@) =~= text::views(cmd@).skip(1));
                }
                AgentStep::Spawn { workload_id, program, args, env, cwd }
            },
            Request::Stop { workload_id } => match find_entry(&self.workloads, &workload_id) {
                None => complaint(workload_id, "unknown workload".to_owned()),
                Some(k) => {
                    if self.workloads[k].result.is_some() {
                        return AgentStep::Nothing;
                    }
                    let pgid: i32 = -(self.workloads[k].pid as i32);
                    AgentStep::Terminate { workload_id, pgid }
                },
            },
            Request::List => AgentStep::Send(
                Event::ListResult { workloads: list(&self.workloads) },
            ),
            Request::ConfigureAutoSuspend { idle_check_cmd, check_interval_secs } => {
                if self.idle_monitor.configure(idle_check_cmd, check_interval_secs) {
                    AgentStep::StartMonitor
                } else {
                    AgentStep::Nothing
                }
            },
        }
    }

    /// Records a process that was started; an earlier one of the same name is
    /// replaced.
    pub fn started(&mut self, workload_id: &str, pid: u32) -> (event: Event)
        requires
            old(self).wf(),
            pid <= i32::MAX,
        ensures
            final(self).wf(),
            final(self).conn == old(self).conn,
            final(self).idle_monitor == old(self).idle_monitor,
            event matches Event::Started { workload_id: id, pid: p } && id@ == workload_id@ && p
                == pid,
            ({
                let w = old(self).workloads@;
                let k = entry_index(w, workload_id@) as int;
                let e = final(self).workloads@[k];
                &&& e.workload_id@ == workload_id@
                &&& e.pid == pid
                &&& e.result is None
                &&& final(self).workloads@ == if k < w.len() {
                    w.update(k, e)
                } else {
                    w.push(e)
                }
            }),
    {
        let entry = WorkloadEntry { workload_id: workload_id.to_owned(), pid, result: None };
        match find_entry(&self.workloads, workload_id) {
            Some(k) => {
                self.workloads.set(k, entry);
            },
            None => {
                self.workloads.push(entry);
            },
        }
        Event::Started { workload_id: workload_id.to_owned(), pid }
    }

    /// Records how a process ended.
    pub fn reap(
        &mut self,
        workload_id: &str,
        exit_code: Option<i32>,
        signal: Option<i32>,
    ) -> (event: Event)
        requires
            old(self).wf(),
        ensures
            final(self).wf(),
            final(self).conn == old(self).conn,
            final(self).idle_monitor == old(self).idle_monitor,
            event matches Event::Exited { workload_id: id, exit_code: c, signal: s } && id@
                == workload_id@ && c == exit_code && s == signal,
            ({
                let w = old(self).workloads@;
                let k = entry_index(w, workload_id@) as int;
                final(self).workloads@ == if k < w.len() {
                    w.update(
                        k,
                        (WorkloadEntry { result: Some((exit_code, signal)), ..w[k] }),
                    )
                } else {
                    w
                }
            }),
    {
        if let Some(k) = find_entry(&self.workloads, workload_id) {
            self.workloads[k].result = Some((exit_code, signal));
            proof {
                assert(self.workloads@ =~= old(self).workloads@.update(
                    k as int,
                    (WorkloadEntry {
                        result: Some((exit_code, signal)),
                        ..old(self).workloads@[k as int]
                    }),
                ));
            }
        }
        Event::Exited { workload_id: workload_id.to_owned(), exit_code, signal }
    }

    /// Whether a workload that was asked to end has to be killed.
    pub fn escalate_kill(&self, workload_id: &str) -> (kill: bool)
        ensures
            ({
                let k = entry_index(self.workloads@, workload_id@) as int;
                kill == (k < self.workloads@.len() && self.workloads@[k].result is None)
            }),
    {
        match find_entry(&self.workloads, workload_id) {
            Some(k) => self.workloads[k].result.is_none(),
            None => false,
        }
    }

    /// Makes a connection the one that events go to.
    pub fn set_conn(&mut self, conn: u64)
        ensures
            *final(self) == (Agent { conn: Some(conn), ..*old(self) }),
    {
        self.conn = Some(conn);
    }

    /// A connection has ended. It is given up only if it is still the current
    /// one.
    pub fn clear_conn(&mut self, conn: u64)
        ensures
            *final(self) == if old(self).conn == Some(conn) {
                (Agent { conn: None, ..*old(self) })
            } else {
                *old(self)
            },
    {
        let current = match self.conn {
            Some(c) => c == conn,
            None => false,
        };
        if current {
            self.conn = None;
        }
    }
}

/// The report that a process could not be started.
pub fn spawn_failed(workload_id: &str, program: &str, why: &str) -> (event: Event)
    ensures
        event matches Event::Error { workload_id: Some(id), message: m } && id@ == workload_id@
            && m@ == "spawn "@ + program@ + ": "@ + why@,
{
    Event::Error {
        workload_id: Some(workload_id.to_owned()),
        message: text::cat4("spawn ", program, ": ", why),
    }
}

/// The report of a piece of output; what is no UTF-8 is repaired.
pub fn forward_output(workload_id: &str, stream: Stream, bytes: &[u8]) -> (event: Event)
    ensures
        event matches Event::Output { workload_id: id, stream: s, data: d } && id@ == workload_id@
            && s == stream && d@ == text::utf8_lossy(bytes@),
{
    Event::Output {
        workload_id: workload_id.to_owned(),
        stream,
        data: text::from_utf8_lossy(bytes),
    }
}

/// An agent that is told no check command does not look for idleness: no loop
/// is started for it, and one that runs has nothing to check.
pub proof fn law_no_command_no_check(
    before: Agent,
    after: Agent,
    idle_check_cmd: Vec<String>,
    check_interval_secs: u64,
    step: AgentStep,
)
    requires
        idle_check_cmd@.len() == 0,
        answered(
            before,
            after,
            (Request::ConfigureAutoSuspend { idle_check_cmd, check_interval_secs }),
            step,
        ),
    ensures
        step is Nothing,
        after.idle_monitor.config is None,
        after.idle_monitor.started == before.idle_monitor.started,
{
}

/// Stopping a workload that has ended does nothing, and it is not killed
/// either: its process number may belong to someone else by now.
pub proof fn law_ended_workloads_are_left_alone(
    before: Agent,
    after: Agent,
    workload_id: String,
    step: AgentStep,
)
    requires
        answered(before, after, (Request::Stop { workload_id }), step),
        entry_index(before.workloads@, workload_id@) < before.workloads@.len(),
        before.workloads@[entry_index(before.workloads@, workload_id@) as int].result is Some,
    ensures
        step is Nothing,
        after == before,
{
}

} // verus!
