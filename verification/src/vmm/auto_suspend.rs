//! Auto-suspend: idle permanent VMs are suspended, and later traffic wakes
//! them.
//!
//! Two detectors report a VM as idle: the proxy's activity, and a command that
//! the guest agent runs. Both pass through the same gate.

use vstd::prelude::*;

use crate::vmm::firecracker::{FcVmEntry, FirecrackerVmm};
use crate::vmm::state::VmState;
use crate::vmm::vm::{VmId, VmMode};
use crate::vmm::workload::Workload;

verus! {

/// How often the activity of VMs is looked at, in seconds.
pub const HTTP_IDLE_POLL_SECS: u64 = 10;

/// Whether `secs` have passed between two times in milliseconds. A clock that
/// went back counts as standing still.
pub open spec fn passed(since: u64, now: u64, secs: u64) -> bool {
    (if now >= since {
        now - since
    } else {
        0
    }) >= secs * 1000
}

/// Whether `secs` have passed between two times in milliseconds.
pub fn has_passed(since: u64, now: u64, secs: u64) -> (b: bool)
    ensures
        b == passed(since, now, secs),
{
    let elapsed: u64 = if now >= since {
        now - since
    } else {
        0
    };
    elapsed as u128 >= (secs as u128) * 1000
}

/// The later of two times, if there is one.
pub open spec fn later(a: Option<u64>, b: Option<u64>) -> Option<u64> {
    match (a, b) {
        (Some(x), Some(y)) => Some(
            if x >= y {
                x
            } else {
                y
            },
        ),
        (Some(x), None) => Some(x),
        (None, y) => y,
    }
}

/// Whether the activity of a VM says that it is idle: it has exposed ports,
/// and neither a proxied request nor a wake happened within its idle timeout.
pub open spec fn http_idle(e: FcVmEntry, last_request: Option<u64>, now: u64) -> bool {
    &&& e.instance.vm_config.auto_suspend is Some
    &&& e.instance.vm_config.network_config.exposed_ports@.len() > 0
    &&& later(last_request, e.woken_at) is Some
    &&& passed(
        later(last_request, e.woken_at)->0,
        now,
        e.instance.vm_config.auto_suspend->0.idle_timeout_secs,
    )
}

/// Whether some workload is active.
pub open spec fn any_active(workloads: Seq<Workload>) -> bool {
    exists|k: int|
        0 <= k < workloads.len() && crate::vmm::workload::active((#[trigger] workloads[k]).state)
}

/// Whether a VM may be suspended: it is a started permanent VM with a policy,
/// nothing is in flight to it or active in it, and its cooldown after a wake
/// is over, so that it cannot flap.
pub open spec fn may_suspend(e: FcVmEntry, in_flight: nat, now: u64) -> bool {
    &&& e.instance.state is Started
    &&& e.instance.vm_config.mode is Permanent
    &&& e.instance.vm_config.auto_suspend is Some
    &&& !any_active(e.workloads@)
    &&& in_flight == 0
    &&& e.woken_at is Some ==> passed(
        e.woken_at->0,
        now,
        e.instance.vm_config.auto_suspend->0.idle_timeout_secs,
    )
}

/// Whether some workload is active.
fn has_active(workloads: &Vec<Workload>) -> (b: bool)
    ensures
        b == any_active(workloads@),
{
    let mut k: usize = 0;
    while k < workloads.len()
        invariant
            k <= workloads@.len(),
            forall|j: int|
                0 <= j < k ==> !crate::vmm::workload::active((#[trigger] workloads@[j]).state),
        decreases workloads@.len() - k,
    {
        if workloads[k].is_active() {
            return true;
        }
        k += 1;
    }
    false
}

impl FirecrackerVmm {
    /// Whether the activity of a VM says that it is idle.
    pub fn http_idle_expired(&self, vm_id: &VmId, now: u64) -> (idle: bool)
        requires
            self.wf(),
        ensures
            ({
                let i = crate::vmm::firecracker::vm_index(self.vms@, vm_id.0@) as int;
                idle == (i < self.vms@.len() && http_idle(
                    self.vms@[i],
                    crate::vmm::activity::latest_in(self.activity@, vm_id.0@),
                    now,
                ))
            }),
    {
        let i = match self.find(&vm_id.0) {
            None => {
                return false;
            },
            Some(i) => i,
        };
        let timeout = match &self.vms[i].instance.vm_config.auto_suspend {
            None => {
                return false;
            },
            Some(c) => c.idle_timeout_secs,
        };
        if self.vms[i].instance.vm_config.network_config.exposed_ports.len() == 0 {
            return false;
        }
        let last = match (self.activity.last_activity(vm_id), self.vms[i].woken_at) {
            (Some(x), Some(y)) => if x >= y {
                x
            } else {
                y
            },
            (Some(x), None) => x,
            (None, Some(y)) => y,
            (None, None) => {
                return false;
            },
        };
        has_passed(last, now, timeout)
    }

    /// Whether a VM that was reported idle may be suspended.
    pub fn auto_suspend_gate(&self, vm_id: &VmId, now: u64) -> (open: bool)
        requires
            self.wf(),
        ensures
            ({
                let i = crate::vmm::firecracker::vm_index(self.vms@, vm_id.0@) as int;
                open == (i < self.vms@.len() && may_suspend(
                    self.vms@[i],
                    crate::vmm::activity::flying_in(self.activity@, vm_id.0@),
                    now,
                ))
            }),
    {
        let i = match self.find(&vm_id.0) {
            None => {
                return false;
            },
            Some(i) => i,
        };
        if has_active(&self.vms[i].workloads) {
            return false;
        }
        if self.vms[i].instance.state != VmState::Started || self.vms[i].instance.vm_config.mode
            != VmMode::Permanent {
            return false;
        }
        let timeout = match &self.vms[i].instance.vm_config.auto_suspend {
            None => {
                return false;
            },
            Some(c) => c.idle_timeout_secs,
        };
        if self.activity.in_flight(vm_id) > 0 {
            return false;
        }
        match self.vms[i].woken_at {
            Some(woken) => has_passed(woken, now, timeout),
            None => true,
        }
    }

    /// The VMs that their activity reports as idle.
    pub fn check_http_idle_vms(&self, now: u64) -> (idle: Vec<VmId>)
        requires
            self.wf(),
        ensures
            ids_view(idle@) == idle_of(self.vms@, self.activity@, now),
    {
        let mut idle: Vec<VmId> = Vec::new();
        let mut i: usize = 0;
        proof {
            assert(self.vms@.take(0) =~= seq![]);
            assert(ids_view(idle@) =~= seq![]);
        }
        while i < self.vms.len()
            invariant
                self.wf(),
                i <= self.vms@.len(),
                ids_view(idle@) == idle_of(self.vms@.take(i as int), self.activity@, now),
            decreases self.vms@.len() - i,
        {
            let vm_id = self.vms[i].instance.vm_id.clone();
            let ghost before = idle@;
            proof {
                lemma_own_index(self.vms@, i as int);
                assert(self.vms@.take(i as int + 1).drop_last() =~= self.vms@.take(i as int));
                assert(self.vms@.take(i as int + 1).last() == self.vms@[i as int]);
            }
            if self.http_idle_expired(&vm_id, now) {
                let ghost id = vm_id.0@;
                idle.push(vm_id);
                proof {
                    assert(ids_view(idle@) =~= ids_view(before).push(id));
                }
            }
            i += 1;
        }
        proof {
            assert(self.vms@.take(self.vms@.len() as int) =~= self.vms@);
        }
        idle
    }
}

/// The names of VMs.
pub open spec fn ids_view(ids: Seq<VmId>) -> Seq<Seq<char>> {
    ids.map_values(|id: VmId| id.0@)
}

/// The VMs that their activity reports as idle, in order.
pub open spec fn idle_of(
    vms: Seq<FcVmEntry>,
    activity: Map<Seq<char>, (nat, Option<u64>)>,
    now: u64,
) -> Seq<Seq<char>>
    decreases vms.len(),
{
    if vms.len() == 0 {
        seq![]
    } else {
        let rest = idle_of(vms.drop_last(), activity, now);
        let e = vms.last();
        if http_idle(e, crate::vmm::activity::latest_in(activity, e.instance.vm_id.0@), now) {
            rest.push(e.instance.vm_id.0@)
        } else {
            rest
        }
    }
}

/// Where VMs are distinct, each stands where it is found.
pub proof fn lemma_own_index(vms: Seq<FcVmEntry>, i: int)
    requires
        crate::vmm::firecracker::distinct(vms),
        0 <= i < vms.len(),
    ensures
        crate::vmm::firecracker::vm_index(vms, vms[i].instance.vm_id.0@) == i,
{
    let id = vms[i].instance.vm_id.0@;
    crate::vmm::firecracker::lemma_vm_index(vms, id);
    let k = crate::vmm::firecracker::vm_index(vms, id) as int;
    if k < i {
        assert(vms[k].instance.vm_id.0@ != vms[i].instance.vm_id.0@);
    }
    if i < k {
        assert(!crate::vmm::firecracker::is_vm(vms[i], id));
    }
}

// ---------------------------------------------------------------------------
// Laws
// ---------------------------------------------------------------------------

/// A VM is never suspended in the middle of a request or of a workload, nor
/// before its idle timeout has passed since it came up.
pub proof fn law_busy_vms_are_not_suspended(e: FcVmEntry, in_flight: nat, now: u64, k: int)
    requires
        in_flight > 0 || (0 <= k < e.workloads@.len() && crate::vmm::workload::active(
            e.workloads@[k].state,
        )) || (e.woken_at is Some && e.instance.vm_config.auto_suspend is Some && !passed(
            e.woken_at->0,
            now,
            e.instance.vm_config.auto_suspend->0.idle_timeout_secs,
        )),
    ensures
        !may_suspend(e, in_flight, now),
{
}

/// A VM that may be suspended can be: its snapshot is not refused.
pub proof fn law_gate_admits_only_suspendable(e: FcVmEntry, in_flight: nat, now: u64)
    requires
        may_suspend(e, in_flight, now),
    ensures
        crate::vmm::lifecycle::op_refusal(
            e,
            crate::vmm::lifecycle::Operation::Snapshot,
        ) is None,
{
}

/// A VM without exposed ports is never found idle by its activity, and one
/// without an idle check asks for no detector: with neither, no detector ever
/// looks at it.
pub proof fn law_no_detector_no_suspend(e: FcVmEntry, last_request: Option<u64>, now: u64)
    requires
        e.instance.vm_config.network_config.exposed_ports@.len() == 0,
        e.instance.vm_config.auto_suspend is Some ==>
            e.instance.vm_config.auto_suspend->0.idle_check_cmd@.len() == 0,
    ensures
        !http_idle(e, last_request, now),
        !crate::vmm::lifecycle::wants_detector(e),
{
}

} // verus!
