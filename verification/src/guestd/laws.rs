//! What a guest agent is for: it runs what it is told to run, stops what it is
//! told to stop, and says how things stand.

use vstd::prelude::*;

use crate::guestd::agent::{answered, entry_index, info_of, Agent, AgentStep, WorkloadEntry};
use crate::guestd::proto::{stream_name, wire_state, Event, Request, Stream, WorkloadState};
use crate::text;

verus! {

/// Where a workload of an agent stands: under its name, and first.
proof fn lemma_entry_index(workloads: Seq<WorkloadEntry>, id: Seq<char>)
    ensures
        entry_index(workloads, id) <= workloads.len(),
        entry_index(workloads, id) < workloads.len() ==> workloads[entry_index(
            workloads,
            id,
        ) as int].workload_id@ == id,
        forall|i: int|
            0 <= i < entry_index(workloads, id) ==> (#[trigger] workloads[i]).workload_id@ != id,
    decreases workloads.len(),
{
    if workloads.len() > 0 && workloads[0].workload_id@ != id {
        let rest = workloads.drop_first();
        lemma_entry_index(rest, id);
        assert forall|i: int| 0 <= i < entry_index(workloads, id) implies (
        #[trigger] workloads[i]).workload_id@ != id by {
            if i > 0 {
                assert(rest[i - 1] == workloads[i]);
            }
        }
    }
}

/// A command is run as it was sent: its first word is the program and the others
/// are the arguments, in order; with the variables and in the directory that
/// came with it. An empty command is not run.
pub proof fn law_command_is_run_as_sent(
    before: Agent,
    after: Agent,
    workload_id: String,
    cmd: Vec<String>,
    env: Vec<(String, String)>,
    cwd: Option<String>,
    step: AgentStep,
)
    requires
        answered(before, after, (Request::Start { workload_id, cmd, env, cwd }), step),
    ensures
        after == before,
        step is Spawn <==> cmd@.len() > 0,
        cmd@.len() == 0 ==> (step matches AgentStep::Send(
            Event::Error { workload_id: Some(id), message },
        ) && id@ == workload_id@ && message@ == "cmd must not be empty"@),
        cmd@.len() > 0 ==> {
            &&& step->Spawn_workload_id == workload_id
            &&& step->program@ == cmd@[0]@
            &&& step->args@.len() == cmd@.len() - 1
            &&& forall|k: int|
                0 <= k < step->args@.len() ==> (#[trigger] step->args@[k])@ == cmd@[k + 1]@
            &&& step->env == env
            &&& step->cwd == cwd
        },
{
    if cmd@.len() > 0 {
        let args = step->args@;
        assert(text::views(args).len() == text::views(cmd@).len() - 1);
        assert forall|k: int| 0 <= k < args.len() implies (#[trigger] args[k])@ == cmd@[k
            + 1]@ by {
            assert(text::views(args)[k] == text::views(cmd@).skip(1)[k]);
        }
    }
}

/// A running workload that is to stop is terminated with all of its process
/// group, which is that of its own process; one that is unknown is complained
/// about.
pub proof fn law_stop_reaches_whole_group(
    before: Agent,
    after: Agent,
    workload_id: String,
    step: AgentStep,
    i: int,
)
    requires
        answered(before, after, (Request::Stop { workload_id }), step),
        0 <= i <= before.workloads@.len(),
        i < before.workloads@.len() ==> before.workloads@[i].workload_id@ == workload_id@,
        forall|j: int|
            0 <= j < i ==> (#[trigger] before.workloads@[j]).workload_id@ != workload_id@,
    ensures
        after == before,
        i == before.workloads@.len() ==> (step matches AgentStep::Send(
            Event::Error { workload_id: Some(id), message },
        ) && id@ == workload_id@ && message@ == "unknown workload"@),
        i < before.workloads@.len() && before.workloads@[i].result is None ==> step is Terminate
            && step->Terminate_workload_id == workload_id && step->pgid + before.workloads@[i].pid
            == 0,
        i < before.workloads@.len() && before.workloads@[i].result is Some ==> step is Nothing,
{
    lemma_entry_index(before.workloads@, workload_id@);
    let k = entry_index(before.workloads@, workload_id@) as int;
    assert(k == i);
}

/// The table that an agent gives lists every workload: as exited, with the code
/// and the signal it ended with, exactly if it was reaped, and as running
/// otherwise.
pub proof fn law_table_says_how_things_stand(
    before: Agent,
    after: Agent,
    step: AgentStep,
    k: int,
)
    requires
        answered(before, after, Request::List, step),
        0 <= k < before.workloads@.len(),
    ensures
        after == before,
        step matches AgentStep::Send(Event::ListResult { workloads }) && workloads@.len()
            == before.workloads@.len() && ({
            let e = before.workloads@[k];
            let info = workloads@[k];
            &&& info.workload_id@ == e.workload_id@
            &&& info.state is Exited <==> e.result is Some
            &&& e.result is Some ==> (info.exit_code, info.signal) == e.result->0
            &&& e.result is None ==> info.exit_code is None && info.signal is None
        }),
{
    if let AgentStep::Send(Event::ListResult { workloads }) = step {
        assert(crate::guestd::agent::info_view(workloads@[k]) == info_of(before.workloads@[k]));
    }
}

/// An idle check is run as it was configured, no more often than every second,
/// and a loop for it is started once at most.
pub proof fn law_idle_check_is_as_configured(
    before: Agent,
    after: Agent,
    idle_check_cmd: Vec<String>,
    check_interval_secs: u64,
    step: AgentStep,
)
    requires
        answered(
            before,
            after,
            (Request::ConfigureAutoSuspend { idle_check_cmd, check_interval_secs }),
            step,
        ),
        idle_check_cmd@.len() > 0,
    ensures
        after.idle_monitor.config is Some,
        after.idle_monitor.config->0.cmd == idle_check_cmd,
        check_interval_secs >= 1 ==> after.idle_monitor.config->0.interval_secs
            == check_interval_secs,
        after.idle_monitor.config->0.interval_secs >= 1,
        step is StartMonitor <==> !before.idle_monitor.started,
        after.idle_monitor.started,
        after.workloads == before.workloads,
        after.conn == before.conn,
{
}

/// What an agent says of a process is what the host understands by it: the names
/// of states and streams are told apart on the wire, and the host reads the
/// states by the same names.
pub proof fn law_names_on_the_wire(a: WorkloadState, s: Stream, t: Stream)
    ensures
        a is Running <==> wire_state(a) == "running"@,
        a is Exited <==> wire_state(a) == "exited"@,
        s != t ==> stream_name(s) != stream_name(t),
        stream_name(Stream::Stdout) == "stdout"@,
        stream_name(Stream::Stderr) == "stderr"@,
{
    reveal_strlit("running");
    reveal_strlit("exited");
    reveal_strlit("stdout");
    reveal_strlit("stderr");
    assert("running"@.len() == 7);
    assert("exited"@.len() == 6);
    assert("stdout"@[3] == 'o');
    assert("stderr"@[3] == 'e');
}

} // verus!
