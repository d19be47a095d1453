//! Requests that do more than pass on to the VMs.

use vstd::prelude::*;

use crate::error::Error;
use crate::net::types::{find_port, NetworkConfig};
use crate::proxy::token::{Proto, ProxyTokens, DEFAULT_TTL_SECS};
use crate::text;
use crate::vmm::firecracker::FirecrackerVmm;
use crate::vmm::vm::{VmConfig, VmId, VmInstance, VmMode};
use crate::vmm::workload::WorkloadId;

verus! {

/// How long a command may run before the request that waits for it fails, in
/// seconds.
pub const EXEC_TIMEOUT_SECS: u64 = 300;

/// How often a command that is waited for is looked at, in milliseconds.
pub const EXEC_POLL_MS: u64 = 500;

/// Whether a new VM is started at once. A schedule VM is not: the scheduler
/// brings it up when it is due.
pub fn starts_on_create(config: &VmConfig) -> (b: bool)
    ensures
        b == !(config.mode is Schedule),
{
    config.mode != VmMode::Schedule
}

/// The record of a VM, which a request about it is answered with.
pub fn get_vm<'a>(vmm: &'a FirecrackerVmm, vm_id: &VmId) -> (r: Result<&'a VmInstance, Error>)
    ensures
        ({
            let i = crate::vmm::firecracker::vm_index(vmm.vms@, vm_id.0@) as int;
            match r {
                Ok(vm) => i < vmm.vms@.len() && *vm == vmm.vms@[i].instance,
                Err(Error::VmNotFound(id)) => i == vmm.vms@.len() && id@ == vm_id.0@,
                Err(_) => false,
            }
        }),
{
    match vmm.get_vm(vm_id) {
        Some(vm) => Ok(vm),
        None => Err(Error::VmNotFound(vm_id.0.clone())),
    }
}

/// The network configuration of a VM.
pub fn get_network<'a>(vmm: &'a FirecrackerVmm, vm_id: &VmId) -> (r: Result<
    &'a NetworkConfig,
    Error,
>)
    ensures
        ({
            let i = crate::vmm::firecracker::vm_index(vmm.vms@, vm_id.0@) as int;
            match r {
                Ok(net) => i < vmm.vms@.len() && *net
                    == vmm.vms@[i].instance.vm_config.network_config,
                Err(Error::VmNotFound(id)) => i == vmm.vms@.len() && id@ == vm_id.0@,
                Err(_) => false,
            }
        }),
{
    match get_vm(vmm, vm_id) {
        Ok(vm) => Ok(&vm.vm_config.network_config),
        Err(e) => Err(e),
    }
}

/// Why no token is minted for a port, if none is.
pub enum MintRefusal {
    NoVm,
    NotExposed,
}

/// Why no token is minted for a port, if none is.
pub open spec fn mint_refusal(vmm: FirecrackerVmm, vm_id: Seq<char>, port: u16) -> Option<
    MintRefusal,
> {
    let i = crate::vmm::firecracker::vm_index(vmm.vms@, vm_id) as int;
    if i == vmm.vms@.len() {
        Some(MintRefusal::NoVm)
    } else if !crate::net::types::exposes(crate::vmm::guest::ports_of(vmm.vms@[i]), port) {
        Some(MintRefusal::NotExposed)
    } else {
        None
    }
}

/// Checks whether a token can be minted for a port: it must be exposed right
/// now.
pub fn check_mint(vmm: &FirecrackerVmm, vm_id: &VmId, port: u16) -> (r: Result<(), Error>)
    ensures
        match (r, mint_refusal(*vmm, vm_id.0@, port)) {
            (Ok(()), None) => true,
            (Err(Error::VmNotFound(id)), Some(MintRefusal::NoVm)) => id@ == vm_id.0@,
            (
                Err(Error::PortNotExposed { vm_id: id, port: p }),
                Some(MintRefusal::NotExposed),
            ) => id@ == vm_id.0@ && p == port,
            _ => false,
        },
{
    match vmm.list_exposed_ports(vm_id) {
        Err(e) => Err(e),
        Ok(ports) => if find_port(ports, port).is_some() {
            Ok(())
        } else {
            Err(Error::PortNotExposed { vm_id: vm_id.0.clone(), port })
        },
    }
}

/// The forwarding mode that a request asks for.
pub open spec fn asked_proto(proto: Option<Proto>) -> Proto {
    match proto {
        Some(p) => p,
        None => Proto::Http,
    }
}

/// The lifetime that a request asks for.
pub open spec fn asked_ttl(ttl_secs: Option<u64>) -> u64 {
    match ttl_secs {
        Some(t) => t,
        None => DEFAULT_TTL_SECS,
    }
}

/// Mints a token for a port that is exposed right now: for HTTP and the
/// default lifetime if the request does not say otherwise. Gives the token and
/// its expiry in milliseconds since the Unix epoch.
pub fn mint_port_token(
    vmm: &FirecrackerVmm,
    tokens: &ProxyTokens,
    vm_id: &VmId,
    port: u16,
    proto: Option<Proto>,
    ttl_secs: Option<u64>,
) -> (r: Result<(String, u64), Error>)
    ensures
        match mint_refusal(*vmm, vm_id.0@, port) {
            Some(MintRefusal::NoVm) => r matches Err(Error::VmNotFound(id)) && id@ == vm_id.0@,
            Some(MintRefusal::NotExposed) => r matches Err(
                Error::PortNotExposed { vm_id: id, port: p },
            ) && id@ == vm_id.0@ && p == port,
            None => match r {
                Ok((token, expires_at)) => {
                    let p = asked_proto(proto);
                    let ttl = asked_ttl(ttl_secs);
                    exists|now: u64| #[trigger]
                        crate::proxy::token::minted(
                            tokens.secret@,
                            vm_id.0@,
                            port,
                            p,
                            ttl,
                            now,
                            token@,
                            expires_at,
                        )
                },
                Err(Error::ProxyToken(m)) => exists|now: u64| #[trigger]
                    crate::proxy::token::unminted(
                        tokens.secret@,
                        vm_id.0@,
                        port,
                        asked_proto(proto),
                        asked_ttl(ttl_secs),
                        now,
                        m@,
                    ),
                Err(_) => false,
            },
        },
{
    match check_mint(vmm, vm_id, port) {
        Err(e) => {
            return Err(e);
        },
        Ok(()) => {},
    }
    let mode = match proto {
        Some(p) => p,
        None => Proto::Http,
    };
    let ttl: u64 = match ttl_secs {
        Some(t) => t,
        None => DEFAULT_TTL_SECS,
    };
    let r = tokens.mint(vm_id, port, mode, ttl);
    proof {
        assert(mode == asked_proto(proto));
        assert(ttl == asked_ttl(ttl_secs));
    }
    r
}

/// What to do about a command that a request waits for.
#[derive(Debug)]
pub enum ExecStep {
    /// It has ended; answer with it and its logs.
    Done,
    /// Look again after [`EXEC_POLL_MS`].
    Poll,
    /// Stop it if that can be done, and fail the request.
    Stop(Error),
}

/// What to do about a command that a request waits for. One that has ended
/// counts, even past the deadline.
pub fn exec_step(workload_id: &WorkloadId, active: bool, past_deadline: bool) -> (step: ExecStep)
    ensures
        if !active {
            step is Done
        } else if past_deadline {
            step matches ExecStep::Stop(Error::Vmm(m)) && m@ == "exec of workload "@
                + workload_id.0@ + " timed out after "@ + text::decimal(EXEC_TIMEOUT_SECS as nat)
                + "s"@
        } else {
            step is Poll
        },
{
    if !active {
        ExecStep::Done
    } else if past_deadline {
        ExecStep::Stop(
            Error::Vmm(
                text::cat5(
                    "exec of workload ",
                    &workload_id.0,
                    " timed out after ",
                    &text::decimal_string(EXEC_TIMEOUT_SECS),
                    "s",
                ),
            ),
        )
    } else {
        ExecStep::Poll
    }
}

} // verus!
