//! Where a proxied connection goes: the token's claims are held against the
//! live state of the VM on every connection.
//!
//! A token only proves that the port was exposed when it was minted. Taking a
//! port back, or pausing or destroying the VM, revokes access at once.

use vstd::prelude::*;

use crate::error::Error;
use crate::json;
use crate::json::{number_field, text_field, ValueView};
use crate::net::cidr::Ipv4Addr;
use crate::net::types::find_port;
use crate::proxy::token::Claims;
use crate::text;
use crate::vmm::firecracker::{FcVmEntry, FirecrackerVmm};
use crate::vmm::state::VmState;

verus! {

/// How long a port may take to come up after a wake.
pub const PORT_WAIT_SECS: u64 = 10;

/// How often a port is probed after a wake.
pub const PORT_POLL_MS: u64 = 200;

/// A refused connection: an HTTP status, and a message for humans.
#[derive(Debug)]
pub struct ProxyError {
    pub status: u16,
    pub message: String,
}

/// The body that a failure is answered with.
pub open spec fn error_body_of(status: u16, message: Seq<char>) -> Seq<char> {
    "{\"error\":"@ + json::object_text(
        seq![("code"@, ValueView::Number(status as nat)), ("message"@, ValueView::Text(message))],
    ) + "}"@
}

/// The body that a failure is answered with: a JSON object that holds the
/// status and the message.
pub fn error_body(status: u16, message: &str) -> (body: String)
    ensures
        body@ == error_body_of(status, message@),
{
    let fields = vec![number_field("code", status as u64), text_field("message", message)];
    proof {
        assert(json::fields_view(fields@) =~= seq![
            ("code"@, ValueView::Number(status as nat)),
            ("message"@, ValueView::Text(message@)),
        ]);
    }
    text::cat3("{\"error\":", &json::object_string(&fields), "}")
}

impl ProxyError {
    /// A refusal.
    pub fn new(status: u16, message: &str) -> (e: ProxyError)
        ensures
            e.status == status,
            e.message@ == message@,
    {
        ProxyError { status, message: message.to_owned() }
    }

    /// The body that the refusal is answered with over HTTP.
    pub fn body(&self) -> (body: String)
        ensures
            body@ == error_body_of(self.status, self.message@),
    {
        error_body(self.status, &self.message)
    }
}

/// What to do about a connection to a VM's port.
#[derive(Debug)]
pub enum TargetStep {
    /// Wake the VM, then ask again.
    Wake,
    /// Forward to this address; `probe` says to wait for the port first.
    Forward { guest_ip: Ipv4Addr, probe: bool },
    Refuse(ProxyError),
}

/// Whether a VM can be woken for a connection.
pub open spec fn wakeable(s: VmState) -> bool {
    s is Suspended || s is Suspending || s is Restoring
}

/// Whether a refusal is the given one.
pub open spec fn refused(step: TargetStep, status: u16, message: Seq<char>) -> bool {
    step matches TargetStep::Refuse(e) && e.status == status && e.message@ == message
}

/// What a connection to a port of a registered VM comes to.
pub open spec fn target_for(step: TargetStep, e: FcVmEntry, port: u16, woken: bool) -> bool {
    let s = e.instance.state;
    if !woken && wakeable(s) {
        step is Wake
    } else if !(s is Started) {
        refused(
            step,
            409,
            "vm is not running (state: "@ + crate::vmm::state::state_name(s) + ")"@,
        )
    } else if !crate::net::types::exposes(crate::vmm::guest::ports_of(e), port) {
        refused(
            step,
            403,
            "port "@ + text::decimal(port as nat) + " is no longer exposed on this vm"@,
        )
    } else {
        match e.instance.net {
            None => refused(step, 503, "vm has no guest ip"@),
            Some(net) => step == (TargetStep::Forward { guest_ip: net.guest_ip, probe: woken }),
        }
    }
}

/// Resolves the claimed target. A VM that is asleep is woken first, and the
/// requester just sees a slow first answer; `woken` says that this has
/// happened.
pub fn resolve_target(vmm: &FirecrackerVmm, claims: &Claims, woken: bool) -> (step: TargetStep)
    ensures
        ({
            let i = crate::vmm::firecracker::vm_index(vmm.vms@, claims.vm_id@) as int;
            if i == vmm.vms@.len() {
                refused(step, 404, "vm not found"@)
            } else {
                target_for(step, vmm.vms@[i], claims.port, woken)
            }
        }),
{
    let i = match vmm.find(&claims.vm_id) {
        None => {
            return TargetStep::Refuse(ProxyError::new(404, "vm not found"));
        },
        Some(i) => i,
    };
    let state = vmm.vms[i].instance.state;
    if !woken && matches!(state, VmState::Suspended | VmState::Suspending | VmState::Restoring) {
        return TargetStep::Wake;
    }
    if state != VmState::Started {
        return TargetStep::Refuse(
            ProxyError {
                status: 409,
                message: text::cat3("vm is not running (state: ", state.name(), ")"),
            },
        );
    }
    let exposed = find_port(
        &vmm.vms[i].instance.vm_config.network_config.exposed_ports,
        claims.port,
    );
    if exposed.is_none() {
        return TargetStep::Refuse(
            ProxyError {
                status: 403,
                message: text::cat3(
                    "port ",
                    &text::decimal_string(claims.port as u64),
                    " is no longer exposed on this vm",
                ),
            },
        );
    }
    match &vmm.vms[i].instance.net {
        None => TargetStep::Refuse(ProxyError::new(503, "vm has no guest ip")),
        Some(net) => TargetStep::Forward { guest_ip: net.guest_ip, probe: woken },
    }
}

/// The refusal when a VM could not be woken.
pub fn wake_failed(e: Error) -> (refusal: ProxyError)
    ensures
        refusal.status == 409,
        refusal.message@ == crate::error::error_text(e),
{
    ProxyError { status: 409, message: e.message() }
}

/// What to do after probing a port.
#[derive(Debug)]
pub enum ProbeStep {
    /// The port is up.
    Up,
    /// Probe again after [`PORT_POLL_MS`].
    Retry,
    Refuse(ProxyError),
}

/// What to do after probing a port that a wake brings up: `failure` says why
/// it did not accept the connection, if it did not.
pub fn wait_for_port(port: u16, failure: Option<String>, before_deadline: bool) -> (step: ProbeStep)
    ensures
        match failure {
            None => step is Up,
            Some(why) => if before_deadline {
                step is Retry
            } else {
                step matches ProbeStep::Refuse(e) && e.status == 502 && e.message@ == "guest port "@
                    + text::decimal(port as nat) + " did not come up after wake: "@ + why@
            },
        },
{
    match failure {
        None => ProbeStep::Up,
        Some(why) => if before_deadline {
            ProbeStep::Retry
        } else {
            ProbeStep::Refuse(
                ProxyError {
                    status: 502,
                    message: text::cat4(
                        "guest port ",
                        &text::decimal_string(port as u64),
                        " did not come up after wake: ",
                        &why,
                    ),
                },
            )
        },
    }
}

/// Only a started VM that has the port exposed right now is forwarded to.
pub proof fn law_only_live_exposed_ports_are_forwarded(
    step: TargetStep,
    e: FcVmEntry,
    port: u16,
    woken: bool,
)
    requires
        target_for(step, e, port, woken),
        step is Forward,
    ensures
        e.instance.state is Started,
        crate::net::types::exposes(crate::vmm::guest::ports_of(e), port),
{
}

/// Taking a port back revokes access to it at once, whatever tokens are out.
pub proof fn law_removed_port_is_refused(
    step: TargetStep,
    before: FcVmEntry,
    after: FcVmEntry,
    port: u16,
    woken: bool,
)
    requires
        crate::net::types::ports_sound(crate::vmm::guest::ports_of(before)),
        crate::net::types::exposes(crate::vmm::guest::ports_of(before), port),
        crate::vmm::guest::ports_of(after) == crate::vmm::guest::ports_of(before).remove(
            crate::net::types::port_index(crate::vmm::guest::ports_of(before), port) as int,
        ),
        target_for(step, after, port, woken),
    ensures
        !(step is Forward),
{
    let b = crate::vmm::guest::ports_of(before);
    let a = crate::vmm::guest::ports_of(after);
    let at = crate::net::types::port_index(b, port) as int;
    crate::net::types::lemma_port_index(b, port);
    assert forall|i: int| 0 <= i < a.len() implies (#[trigger] a[i]).port != port by {
        assert(a[i] == b[if i < at { i } else { i + 1 }]);
        if i < at {
            assert(b[i].port != b[at].port);
        } else {
            assert(b[at].port != b[i + 1].port);
        }
    }
    crate::net::types::lemma_port_index(a, port);
}

} // verus!
