//! The errors of the host daemon.

use vstd::prelude::*;

use crate::text;
use crate::vmm::state::VmState;

verus! {

/// What can go wrong on the host. The texts carried by the variants are the
/// details that [`Error::message`] completes to a full sentence.
#[derive(Debug)]
pub enum Error {
    Io(String),
    Json(String),
    Lock(String),
    TracingSubscriberFilterParse(String),
    Vmm(String),
    Net(String),
    Storage(String),
    VmNotFound(String),
    WorkloadNotFound(String),
    InvalidImage(String),
    InvalidStateTransition { from: VmState, to: VmState },
    InvalidPort(u16),
    PortAlreadyExposed { vm_id: String, port: u16 },
    PortNotExposed { vm_id: String, port: u16 },
    ProxyToken(String),
    MissingApiToken,
}

/// The full sentence an error is reported with.
pub open spec fn error_text(e: Error) -> Seq<char> {
    match e {
        Error::Io(m) => "IO error: "@ + m@,
        Error::Json(m) => "JSON parse error: "@ + m@,
        Error::Lock(m) => "Lock error: "@ + m@,
        Error::TracingSubscriberFilterParse(m) => "tracing_subscriber filter parse: "@ + m@,
        Error::Vmm(m) => "vmm error: "@ + m@,
        Error::Net(m) => "net error: "@ + m@,
        Error::Storage(m) => "storage error: "@ + m@,
        Error::VmNotFound(id) => "vm "@ + id@ + " not found"@,
        Error::WorkloadNotFound(id) => "workload "@ + id@ + " not found"@,
        Error::InvalidImage(m) => "invalid VM image: "@ + m@,
        Error::InvalidStateTransition { from, to } => "invalid VM state transition: "@
            + crate::vmm::state::state_name(from) + " -> "@ + crate::vmm::state::state_name(to),
        Error::InvalidPort(p) => "invalid port "@ + text::decimal(p as nat)
            + ": must be 1-65535"@,
        Error::PortAlreadyExposed { vm_id, port } => "port "@ + text::decimal(port as nat)
            + " is already exposed on vm "@ + vm_id@,
        Error::PortNotExposed { vm_id, port } => "port "@ + text::decimal(port as nat)
            + " is not exposed on vm "@ + vm_id@,
        Error::ProxyToken(m) => "proxy token error: "@ + m@,
        Error::MissingApiToken =>
            "HOSTD_API_TOKEN environment variable must be set to a non-empty value"@,
    }
}

impl Error {
    /// The full sentence the error is reported with.
    pub fn message(&self) -> (s: String)
        ensures
            s@ == error_text(*self),
    {
        match self {
            Error::Io(m) => text::cat2("IO error: ", m),
            Error::Json(m) => text::cat2("JSON parse error: ", m),
            Error::Lock(m) => text::cat2("Lock error: ", m),
            Error::TracingSubscriberFilterParse(m) => text::cat2(
                "tracing_subscriber filter parse: ",
                m,
            ),
            Error::Vmm(m) => text::cat2("vmm error: ", m),
            Error::Net(m) => text::cat2("net error: ", m),
            Error::Storage(m) => text::cat2("storage error: ", m),
            Error::VmNotFound(id) => text::cat3("vm ", id, " not found"),
            Error::WorkloadNotFound(id) => text::cat3("workload ", id, " not found"),
            Error::InvalidImage(m) => text::cat2("invalid VM image: ", m),
            Error::InvalidStateTransition { from, to } => text::cat4(
                "invalid VM state transition: ",
                from.name(),
                " -> ",
                to.name(),
            ),
            Error::InvalidPort(p) => text::cat3(
                "invalid port ",
                &text::decimal_string(*p as u64),
                ": must be 1-65535",
            ),
            Error::PortAlreadyExposed { vm_id, port } => text::cat4(
                "port ",
                &text::decimal_string(*port as u64),
                " is already exposed on vm ",
                vm_id,
            ),
            Error::PortNotExposed { vm_id, port } => text::cat4(
                "port ",
                &text::decimal_string(*port as u64),
                " is not exposed on vm ",
                vm_id,
            ),
            Error::ProxyToken(m) => text::cat2("proxy token error: ", m),
            Error::MissingApiToken =>
                "HOSTD_API_TOKEN environment variable must be set to a non-empty value".to_owned(),
        }
    }
}

} // verus!
