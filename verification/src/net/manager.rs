//! The network manager: ties allocation to the steps on the host. The program
//! runs the steps and persists the state after every change.

use vstd::prelude::*;

use crate::error::Error;
use crate::net::cidr::Ipv4Net;
use crate::net::host;
use crate::net::host::HostStep;
use crate::net::state::{AllocPlan, NetState, ProjectSetup, ReleasePlan};
use crate::net::types::TapName;
use crate::text;
use crate::vmm::vm::VmId;

verus! {

/// The allocations and the address space they are made from.
#[derive(Debug)]
pub struct NetworkManager {
    pub state: NetState,
    pub supernet: Ipv4Net,
    pub subnet_prefix: u8,
}

/// The settings a manager is made with, or why there is none.
pub open spec fn settings(supernet: Seq<char>, subnet_prefix: u8) -> Result<Ipv4Net, Seq<char>> {
    match crate::net::cidr::cidr_of(supernet) {
        Err(why) => Err(why),
        Ok(net) => if subnet_prefix <= net.prefix || subnet_prefix > 30 {
            Err(
                "subnet prefix /"@ + text::decimal(subnet_prefix as nat) + " must be between /"@
                    + text::decimal((net.prefix + 1) as nat) + " and /30 for supernet "@
                    + crate::net::cidr::net_text(net),
            )
        } else {
            Ok(net)
        },
    }
}

/// What to do on the host for an allocation.
pub open spec fn setup_steps(plan: AllocPlan) -> Seq<host::StepView> {
    let tap = host::ensure_tap_steps(plan.vm_net.tap_name.0@, plan.bridge@);
    match plan.setup {
        Some(setup) => host::ensure_bridge_steps(setup) + tap,
        None => tap,
    }
}

/// What to do on the host when setting an allocation up has failed.
pub open spec fn undo_steps(plan: AllocPlan) -> Seq<host::StepView> {
    let tap = host::delete_tap_steps(plan.vm_net.tap_name.0@);
    match plan.setup {
        Some(setup) => tap + host::delete_bridge_steps(setup),
        None => tap,
    }
}

/// What to do on the host for a release.
pub open spec fn teardown_steps(plan: ReleasePlan) -> Seq<host::StepView> {
    let tap = host::delete_tap_steps(plan.tap.0@);
    match plan.teardown {
        Some(setup) => tap + host::delete_bridge_steps(setup),
        None => tap,
    }
}

/// Appends steps.
fn push_all(steps: &mut Vec<HostStep>, more: Vec<HostStep>)
    ensures
        host::steps_view(final(steps)@) == host::steps_view(old(steps)@) + host::steps_view(more@),
{
    let mut rest = more;
    let ghost added = rest@;
    steps.append(&mut rest);
    proof {
        assert(host::steps_view(steps@) =~= host::steps_view(old(steps)@) + host::steps_view(
            added,
        ));
    }
}

/// What to do on the host for an allocation: the bridge first if the project
/// is new, then the TAP.
pub fn apply_allocation(plan: &AllocPlan) -> (steps: Vec<HostStep>)
    ensures
        host::steps_view(steps@) == setup_steps(*plan),
{
    let tap = host::ensure_tap(&plan.vm_net.tap_name, &plan.bridge);
    match &plan.setup {
        Some(setup) => {
            let mut steps = host::ensure_bridge(setup);
            push_all(&mut steps, tap);
            steps
        },
        None => tap,
    }
}

/// What to do on the host when setting an allocation up has failed.
pub fn undo_allocation(plan: &AllocPlan) -> (steps: Vec<HostStep>)
    ensures
        host::steps_view(steps@) == undo_steps(*plan),
{
    let mut steps = host::delete_tap(&plan.vm_net.tap_name);
    if let Some(setup) = &plan.setup {
        push_all(&mut steps, host::delete_bridge(setup));
    }
    steps
}

/// What to do on the host for a release.
pub fn apply_release(plan: &ReleasePlan) -> (steps: Vec<HostStep>)
    ensures
        host::steps_view(steps@) == teardown_steps(*plan),
{
    let mut steps = host::delete_tap(&plan.tap);
    if let Some(setup) = &plan.teardown {
        push_all(&mut steps, host::delete_bridge(setup));
    }
    steps
}

impl NetworkManager {
    /// Whether the settings are usable.
    pub open spec fn wf(self) -> bool {
        crate::net::state::carvable(self.supernet, self.subnet_prefix)
    }

    /// A manager without allocations, carving subnets of /`subnet_prefix`
    /// out of the supernet.
    pub fn new(supernet: &str, subnet_prefix: u8) -> (r: Result<NetworkManager, Error>)
        ensures
            match (r, settings(supernet@, subnet_prefix)) {
                (Ok(m), Ok(net)) => m.wf() && m.supernet == net && m.subnet_prefix == subnet_prefix
                    && m.state@.len() == 0,
                (Err(Error::Net(m)), Err(why)) => m@ == why,
                _ => false,
            },
    {
        let net = match Ipv4Net::parse(supernet) {
            Ok(net) => net,
            Err(e) => {
                return Err(e);
            },
        };
        if subnet_prefix <= net.prefix || subnet_prefix > 30 {
            return Err(
                Error::Net(
                    text::cat6(
                        "subnet prefix /",
                        &text::decimal_string(subnet_prefix as u64),
                        " must be between /",
                        &text::decimal_string(net.prefix as u64 + 1),
                        " and /30 for supernet ",
                        &net.to_text(),
                    ),
                ),
            );
        }
        Ok(NetworkManager { state: NetState::new(), supernet: net, subnet_prefix })
    }

    /// Takes over persisted allocations, so that reconciling deletes what they
    /// own. They may come from a run with other settings.
    pub fn restore(&mut self, state: NetState)
        requires
            old(self).wf(),
        ensures
            final(self).wf(),
            final(self).supernet == old(self).supernet,
            final(self).subnet_prefix == old(self).subnet_prefix,
            final(self).state == state,
    {
        self.state = state;
    }

    /// Allocates an address for `vm_id`; the plan says what to create on the
    /// host.
    pub fn allocate(&mut self, project_id: u64, vm_id: &VmId, tap_name: &TapName) -> (r: Result<
        AllocPlan,
        Error,
    >)
        requires
            old(self).wf(),
        ensures
            final(self).wf(),
            final(self).supernet == old(self).supernet,
            final(self).subnet_prefix == old(self).subnet_prefix,
            match (
                r,
                crate::net::state::allocation(
                    old(self).state@,
                    project_id,
                    vm_id.0@,
                    old(self).supernet,
                    old(self).subnet_prefix,
                ),
            ) {
                (Ok(plan), Ok((after, p, ip))) => final(self).state@ == after
                    && crate::net::state::plan_matches(
                    plan,
                    crate::net::state::project_index(old(self).state@, project_id) == old(
                        self,
                    ).state@.len(),
                    p,
                    ip,
                    tap_name.0@,
                    old(self).supernet,
                    old(self).subnet_prefix,
                ),
                (Err(Error::Net(m)), Err(why)) => final(self).state@ == old(self).state@ && m@
                    == why,
                _ => false,
            },
    {
        self.state.allocate(project_id, vm_id, tap_name, self.supernet, self.subnet_prefix)
    }

    /// Undoes an allocation after setting it up on the host has failed.
    pub fn rollback(&mut self, project_id: u64, vm_id: &VmId)
        requires
            old(self).wf(),
        ensures
            final(self).wf(),
            final(self).supernet == old(self).supernet,
            final(self).subnet_prefix == old(self).subnet_prefix,
            ({
                let before = old(self).state@;
                let k = crate::net::state::project_index(before, project_id) as int;
                final(self).state@ == if k < before.len() {
                    crate::net::state::give_up(before, k, vm_id.0@)
                } else {
                    before
                }
            }),
    {
        self.state.rollback_alloc(project_id, vm_id);
    }

    /// Releases the allocation of `vm_id`; the plan says what to tear down on
    /// the host. An unknown VM has nothing to release.
    pub fn release(&mut self, vm_id: &VmId) -> (r: Option<ReleasePlan>)
        requires
            old(self).wf(),
        ensures
            final(self).wf(),
            final(self).supernet == old(self).supernet,
            final(self).subnet_prefix == old(self).subnet_prefix,
            ({
                let before = old(self).state@;
                let k = crate::net::state::holder_index(before, vm_id.0@) as int;
                match r {
                    None => k == before.len() && final(self).state@ == before,
                    Some(plan) => k < before.len() && final(self).state@
                        == crate::net::state::give_up(before, k, vm_id.0@) && plan.tap.0@
                        == crate::net::types::tap_for(vm_id.0@) && match plan.teardown {
                        Some(setup) => final(self).state@.len() < before.len()
                            && crate::net::state::setup_matches(
                            setup,
                            before[k],
                            old(self).supernet,
                            old(self).subnet_prefix,
                        ),
                        None => final(self).state@.len() == before.len(),
                    },
                }
            }),
    {
        self.state.release(vm_id, self.supernet, self.subnet_prefix)
    }

    /// Forgets every allocation and says what to delete on the host: for each
    /// project its TAPs, then its bridge. No VM survives a restart of the
    /// host daemon, so at startup nothing uses them.
    pub fn reconcile_on_startup(&mut self) -> (steps: Vec<HostStep>)
        requires
            old(self).wf(),
        ensures
            final(self).wf(),
            final(self).supernet == old(self).supernet,
            final(self).subnet_prefix == old(self).subnet_prefix,
            final(self).state@.len() == 0,
            host::steps_view(steps@) == reconcile_steps(
                old(self).state@,
                old(self).supernet,
                old(self).subnet_prefix,
            ),
    {
        let mut steps: Vec<HostStep> = Vec::new();
        let ghost all = self.state@;
        let mut k: usize = 0;
        proof {
            assert(all.take(0) =~= seq![]);
            assert(host::steps_view(steps@) =~= seq![]);
        }
        while k < self.state.projects.len()
            invariant
                *self == *old(self),
                old(self).wf(),
                all == old(self).state@,
                k <= all.len(),
                host::steps_view(steps@) == reconcile_steps(
                    all.take(k as int),
                    old(self).supernet,
                    old(self).subnet_prefix,
                ),
            decreases all.len() - k,
        {
            let project = &self.state.projects[k];
            let ghost leases = crate::net::state::leases_view(project.vms@);
            let ghost before = host::steps_view(steps@);
            proof {
                assert(all[k as int] == project@);
                assert(all.take(k as int + 1).drop_last() =~= all.take(k as int));
                assert(leases.take(0) =~= seq![]);
                assert(before + tap_deletions(leases.take(0)) =~= before);
            }
            let mut i: usize = 0;
            while i < project.vms.len()
                invariant
                    leases == crate::net::state::leases_view(project.vms@),
                    i <= project.vms@.len(),
                    host::steps_view(steps@) == before + tap_deletions(leases.take(i as int)),
                decreases project.vms@.len() - i,
            {
                let tap = TapName::for_vm(&project.vms[i].vm_id);
                let ghost mid = host::steps_view(steps@);
                push_all(&mut steps, host::delete_tap(&tap));
                proof {
                    assert(leases.take(i as int + 1).drop_last() =~= leases.take(i as int));
                    assert(leases.take(i as int + 1).last().1 == project.vms@[i as int].vm_id@);
                    assert(host::steps_view(steps@) =~= before + tap_deletions(
                        leases.take(i as int + 1),
                    ));
                }
                i += 1;
            }
            let setup = ProjectSetup {
                bridge: project.bridge.clone(),
                gateway: project.gateway,
                subnet: self.supernet.subnet(project.subnet_index, self.subnet_prefix),
                supernet: self.supernet,
            };
            push_all(&mut steps, host::delete_bridge(&setup));
            proof {
                assert(leases.take(i as int) =~= leases);
                lemma_bridge_steps_by_view(
                    setup,
                    all[k as int],
                    self.supernet,
                    self.subnet_prefix,
                );
                assert(host::steps_view(steps@) =~= before + tap_deletions(leases)
                    + bridge_deletion(all[k as int], self.supernet, self.subnet_prefix));
            }
            k += 1;
        }
        proof {
            assert(all.take(k as int) =~= all);
        }
        self.state = NetState::new();
        steps
    }
}

/// Deletes the TAPs of the given leases.
pub open spec fn tap_deletions(
    leases: Seq<(crate::net::cidr::Ipv4Addr, Seq<char>)>,
) -> Seq<host::StepView>
    decreases leases.len(),
{
    if leases.len() == 0 {
        seq![]
    } else {
        tap_deletions(leases.drop_last()) + host::delete_tap_steps(
            crate::net::types::tap_for(leases.last().1),
        )
    }
}

/// Deletes a project's bridge and rules.
pub open spec fn bridge_deletion(
    p: crate::net::state::ProjectView,
    supernet: Ipv4Net,
    prefix: u8,
) -> Seq<host::StepView> {
    let subnet = crate::net::cidr::net_text(supernet.part(p.subnet_index as int, prefix));
    host::remove_rules(host::wiring(subnet, "-D"@)) + host::remove_rules(
        host::legacy_wiring(subnet, crate::net::cidr::net_text(supernet)),
    ) + seq![
        host::StepView::RunIfLink {
            link: p.bridge,
            argvs: seq![
                seq!["ip"@, "link"@, "set"@, p.bridge, "down"@],
                seq!["ip"@, "link"@, "del"@, p.bridge],
            ],
        },
    ]
}

/// Deletes everything that the given projects own.
pub open spec fn reconcile_steps(
    projects: Seq<crate::net::state::ProjectView>,
    supernet: Ipv4Net,
    prefix: u8,
) -> Seq<host::StepView>
    decreases projects.len(),
{
    if projects.len() == 0 {
        seq![]
    } else {
        reconcile_steps(projects.drop_last(), supernet, prefix) + tap_deletions(
            projects.last().leases,
        ) + bridge_deletion(projects.last(), supernet, prefix)
    }
}

/// A project's bridge is deleted by name, subnet and supernet.
proof fn lemma_bridge_steps_by_view(
    setup: ProjectSetup,
    p: crate::net::state::ProjectView,
    supernet: Ipv4Net,
    prefix: u8,
)
    requires
        crate::net::state::setup_matches(setup, p, supernet, prefix),
    ensures
        host::delete_bridge_steps(setup) == bridge_deletion(p, supernet, prefix),
{
}

/// The command that deletes a bridge left over from an earlier run.
pub fn delete_stray_bridge(name: &str) -> (argv: Vec<String>)
    ensures
        text::views(argv@) == seq!["ip"@, "link"@, "del"@, name@],
{
    let argv = text::owned(&["ip", "link", "del", name]);
    proof {
        assert(text::views(argv@) =~= seq!["ip"@, "link"@, "del"@, name@]);
    }
    argv
}

/// Setting an allocation up touches only the VM's TAP if its project exists;
/// undoing deletes that TAP, and the bridge only if it was being set up.
pub proof fn law_existing_bridge_survives_failed_setup(plan: AllocPlan)
    requires
        plan.setup is None,
    ensures
        setup_steps(plan) == host::ensure_tap_steps(plan.vm_net.tap_name.0@, plan.bridge@),
        undo_steps(plan) == host::delete_tap_steps(plan.vm_net.tap_name.0@),
{
}

} // verus!
