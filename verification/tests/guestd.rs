use tikovm::guestd::agent::{self, Agent, AgentStep};
use tikovm::guestd::monitor::{
    is_idle, wait_with_timeout, CheckOutcome, IdleMonitor, MonitorStep, WaitEvent, WaitStep,
};
use tikovm::guestd::proto::{Event, Request, Stream, WorkloadState};

#[test]
fn exit_zero_is_idle() {
    assert!(is_idle(CheckOutcome::Exited { success: true }));
}

#[test]
fn non_zero_exit_is_not_idle() {
    assert!(!is_idle(CheckOutcome::Exited { success: false }));
}

#[test]
fn unspawnable_command_is_not_idle() {
    assert!(!is_idle(CheckOutcome::SpawnFailed));
}

#[test]
fn checks_without_a_status_are_not_idle() {
    assert!(!is_idle(CheckOutcome::NoStatus));
}

#[test]
fn checks_are_killed_at_their_timeout() {
    assert_eq!(
        wait_with_timeout(WaitEvent::Exited { success: true }, true),
        WaitStep::Done(CheckOutcome::Exited { success: true })
    );
    assert_eq!(wait_with_timeout(WaitEvent::Running, false), WaitStep::Poll);
    assert_eq!(wait_with_timeout(WaitEvent::Running, true), WaitStep::Kill);
    assert_eq!(
        wait_with_timeout(WaitEvent::Failed, false),
        WaitStep::Done(CheckOutcome::NoStatus)
    );
}

#[test]
fn monitors_check_at_their_interval() {
    let mut m = IdleMonitor::new();
    assert!(matches!(m.next_step(), MonitorStep::Sleep { secs: 1 }));
    // The first configuration starts the loop, the next only changes it.
    assert!(m.configure(vec!["/bin/idle".to_string()], 15));
    assert!(!m.configure(vec!["/bin/idle".to_string()], 20));
    match m.next_step() {
        MonitorStep::Check { after_secs, cmd } => {
            assert_eq!(after_secs, 20);
            assert_eq!(cmd, &vec!["/bin/idle".to_string()]);
        }
        other => panic!("{other:?}"),
    }
    m.configure(vec![], 20);
    assert!(matches!(m.next_step(), MonitorStep::Sleep { .. }));
}

fn start(id: &str, cmd: &[&str]) -> Request {
    Request::Start {
        workload_id: id.to_string(),
        cmd: cmd.iter().map(|c| c.to_string()).collect(),
        env: vec![],
        cwd: None,
    }
}

#[test]
fn workloads_are_spawned_and_reaped() {
    let mut a = Agent::new();
    match a.handle_request(start("w1", &["/bin/sh", "-c", "true"])) {
        AgentStep::Spawn { workload_id, program, args, .. } => {
            assert_eq!((workload_id.as_str(), program.as_str()), ("w1", "/bin/sh"));
            assert_eq!(args, vec!["-c".to_string(), "true".to_string()]);
        }
        other => panic!("{other:?}"),
    }
    assert!(matches!(a.started("w1", 7), Event::Started { pid: 7, .. }));
    match a.handle_request(Request::List) {
        AgentStep::Send(Event::ListResult { workloads }) => {
            assert_eq!(workloads.len(), 1);
            assert_eq!(workloads[0].state, WorkloadState::Running);
        }
        other => panic!("{other:?}"),
    }
    match a.handle_request(Request::Stop { workload_id: "w1".to_string() }) {
        AgentStep::Terminate { workload_id, pgid } => {
            assert_eq!((workload_id.as_str(), pgid), ("w1", -7))
        }
        other => panic!("{other:?}"),
    }
    assert!(a.escalate_kill("w1"));
    assert!(matches!(
        a.reap("w1", None, Some(15)),
        Event::Exited { exit_code: None, signal: Some(15), .. }
    ));
    assert!(!a.escalate_kill("w1"));
    // What has ended is not signalled again.
    assert!(!matches!(
        a.handle_request(Request::Stop { workload_id: "w1".to_string() }),
        AgentStep::Terminate { .. }
    ));
}

#[test]
fn bad_requests_are_answered() {
    let mut a = Agent::new();
    assert!(matches!(
        a.handle_request(start("w1", &[])),
        AgentStep::Send(Event::Error { workload_id: Some(id), .. }) if id == "w1"
    ));
    match agent::spawn_failed("w1", "/bin/x", "gone") {
        Event::Error { message, .. } => assert!(message.contains("gone"), "{message}"),
        other => panic!("{other:?}"),
    }
    assert!(matches!(
        a.handle_request(Request::ConfigureAutoSuspend {
            idle_check_cmd: vec!["/bin/idle".to_string()],
            check_interval_secs: 5,
        }),
        AgentStep::StartMonitor
    ));
}

#[test]
fn output_is_repaired_text() {
    match agent::forward_output("w1", Stream::Stderr, b"a\xff\n") {
        Event::Output { stream, data, .. } => {
            assert_eq!(stream, Stream::Stderr);
            assert_eq!(data, "a\u{fffd}\n");
        }
        other => panic!("{other:?}"),
    }
    assert_eq!((Stream::Stdout.name(), Stream::Stderr.name()), ("stdout", "stderr"));
    assert_eq!(WorkloadState::Exited.name(), "exited");
}

#[test]
fn newer_connections_win() {
    let mut a = Agent::new();
    a.set_conn(1);
    a.set_conn(2);
    a.clear_conn(1);
    assert_eq!(a.conn, Some(2));
    a.clear_conn(2);
    assert_eq!(a.conn, None);
}
