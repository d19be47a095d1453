//! The control connection to a guest agent.
//!
//! Firecracker shows a VM's vsock as a Unix socket on the host. `CONNECT` with
//! a port number opens a byte stream to that port in the guest, where the
//! agent listens. From then on both sides exchange lines of JSON.

use vstd::prelude::*;

use crate::error::Error;
use crate::text;

verus! {

/// The port that the guest agent listens on.
pub const GUESTD_PORT: u32 = 5000;

/// The longest reply to the handshake that is read; one is a handful of bytes.
pub const MAX_REPLY_BYTES: usize = 1024;

/// How often connecting is tried while the guest boots, once a second.
pub const CONNECT_TRIES: u32 = 60;

/// What the host asks of a guest agent.
#[derive(Debug)]
pub enum GuestRequest {
    Start {
        workload_id: String,
        cmd: Vec<String>,
        env: Vec<(String, String)>,
        cwd: Option<String>,
    },
    Stop { workload_id: String },
    List,
    /// Sets the idle detector up; an empty command switches it off.
    ConfigureAutoSuspend { idle_check_cmd: Vec<String>, check_interval_secs: u64 },
}

/// What a guest agent reports.
#[allow(inconsistent_fields)]
#[derive(Debug)]
pub enum GuestEvent {
    Started { workload_id: String, pid: u32 },
    Output { workload_id: String, stream: String, data: String },
    Exited { workload_id: String, exit_code: Option<i32>, signal: Option<i32> },
    Error { workload_id: Option<String>, message: String },
    ListResult { workloads: Vec<GuestWorkloadInfo> },
    /// The idle detector reports the guest as idle.
    Idle,
}

/// A workload in a guest agent's table.
#[derive(Debug)]
pub struct GuestWorkloadInfo {
    pub workload_id: String,
    pub state: String,
    pub exit_code: Option<i32>,
    pub signal: Option<i32>,
}

/// The line that opens a stream to the agent.
pub fn connect_request() -> (s: String)
    ensures
        s@ == "CONNECT "@ + text::decimal(GUESTD_PORT as nat) + "\n"@,
{
    text::cat3("CONNECT ", &text::decimal_string(GUESTD_PORT as u64), "\n")
}

/// What to do with the handshake's reply as its bytes come in.
#[derive(Debug)]
pub enum HandshakeStep {
    /// Read another byte.
    More,
    /// The line is complete.
    Complete,
    /// Give up.
    Failed(Error),
}

/// What to do after reading from the handshake: `byte` is none when Firecracker
/// has closed the connection. The line without its end gathers in `line`.
pub fn on_handshake_byte(line: &mut Vec<u8>, byte: Option<u8>) -> (step: HandshakeStep)
    ensures
        match byte {
            None => final(line)@ == old(line)@ && (step matches HandshakeStep::Failed(
                Error::Vmm(m),
            ) && m@ == "vsock handshake: connection closed by Firecracker"@),
            Some(10) => final(line)@ == old(line)@ && step is Complete,
            Some(b) => final(line)@ == old(line)@.push(b) && if old(line)@.len()
                >= MAX_REPLY_BYTES {
                step matches HandshakeStep::Failed(Error::Vmm(m)) && m@
                    == "vsock handshake: reply too long"@
            } else {
                step is More
            },
        },
{
    match byte {
        None => HandshakeStep::Failed(
            Error::Vmm("vsock handshake: connection closed by Firecracker".to_owned()),
        ),
        Some(b) => {
            if b == 10 {
                return HandshakeStep::Complete;
            }
            line.push(b);
            if line.len() > MAX_REPLY_BYTES {
                HandshakeStep::Failed(Error::Vmm("vsock handshake: reply too long".to_owned()))
            } else {
                HandshakeStep::More
            }
        },
    }
}

/// Whether the handshake's reply opens the stream.
pub fn judge_handshake(uds_path: &str, line: &[u8]) -> (r: Result<(), Error>)
    ensures
        match r {
            Ok(()) => text::has_prefix(text::utf8_lossy(line@), "OK"@),
            Err(Error::Vmm(m)) => !text::has_prefix(text::utf8_lossy(line@), "OK"@) && m@
                == "vsock handshake with "@ + uds_path@ + " failed: "@ + text::utf8_lossy(line@),
            Err(_) => false,
        },
{
    let reply = text::from_utf8_lossy(line);
    if text::starts_with(&reply, "OK") {
        Ok(())
    } else {
        Err(Error::Vmm(text::cat4("vsock handshake with ", uds_path, " failed: ", &reply)))
    }
}

/// What to do after an attempt to connect to a guest agent.
#[derive(Debug)]
pub enum ConnectStep {
    /// Use the stream.
    Connected,
    /// Wait a second and try again.
    Retry,
    /// Give up with the last error.
    Failed(Error),
}

/// What to do after the attempt number `attempt`, counted from 1: the last
/// error is what a connection that never comes up fails with.
pub fn on_connect(attempt: u32, outcome: Result<(), Error>) -> (step: ConnectStep)
    ensures
        match outcome {
            Ok(()) => step is Connected,
            Err(e) => if attempt < CONNECT_TRIES {
                step is Retry
            } else {
                step == ConnectStep::Failed(e)
            },
        },
{
    match outcome {
        Ok(()) => ConnectStep::Connected,
        Err(e) => if attempt < CONNECT_TRIES {
            ConnectStep::Retry
        } else {
            ConnectStep::Failed(e)
        },
    }
}

} // verus!
