//! Address allocation: which project owns which subnet and which VM owns
//! which guest address, and what an allocation or a release must change on
//! the host. Nothing here touches the host.

use vstd::prelude::*;
use vstd::utf8::*;

use crate::error::Error;
use crate::net::cidr::{Ipv4Addr, Ipv4Net};
use crate::net::types::{TapName, VmNet};
use crate::net::{BRIDGE_PREFIX, IFNAMSIZ_MAX};
use crate::text;
use crate::vmm::vm::VmId;

verus! {

/// A guest address and the VM that holds it.
#[derive(Debug)]
pub struct Lease {
    pub ip: Ipv4Addr,
    pub vm_id: String,
}

/// One project's share of the supernet.
#[derive(Debug)]
pub struct ProjectState {
    pub project_id: u64,
    /// Index of the project's subnet within the supernet.
    pub subnet_index: u32,
    pub bridge: String,
    pub gateway: Ipv4Addr,
    pub vms: Vec<Lease>,
}

/// All allocations, as they are persisted.
#[derive(Debug)]
pub struct NetState {
    pub projects: Vec<ProjectState>,
}

/// What an allocation must create on the host.
#[derive(Debug)]
pub struct AllocPlan {
    /// Bridge for the VM's TAP (existing or to be created).
    pub bridge: String,
    /// Set when this VM is the project's first: what to set up.
    pub setup: Option<ProjectSetup>,
    pub vm_net: VmNet,
}

/// A project's host-side network.
#[derive(Debug)]
pub struct ProjectSetup {
    pub bridge: String,
    pub gateway: Ipv4Addr,
    pub subnet: Ipv4Net,
    /// The supernet the subnet was carved from.
    pub supernet: Ipv4Net,
}

/// What a release must tear down on the host.
#[derive(Debug)]
pub struct ReleasePlan {
    pub tap: TapName,
    /// Set when the released VM was the project's last.
    pub teardown: Option<ProjectSetup>,
}

// ---------------------------------------------------------------------------
// The model
// ---------------------------------------------------------------------------

/// A project's share: what it owns and who holds which address.
#[verifier::ext_equal]
pub struct ProjectView {
    pub project_id: u64,
    pub subnet_index: u32,
    pub bridge: Seq<char>,
    pub gateway: Ipv4Addr,
    pub leases: Seq<(Ipv4Addr, Seq<char>)>,
}

/// The addresses of a project and their holders.
pub open spec fn leases_view(vms: Seq<Lease>) -> Seq<(Ipv4Addr, Seq<char>)> {
    vms.map_values(|l: Lease| (l.ip, l.vm_id@))
}

impl View for ProjectState {
    type V = ProjectView;

    open spec fn view(&self) -> ProjectView {
        ProjectView {
            project_id: self.project_id,
            subnet_index: self.subnet_index,
            bridge: self.bridge@,
            gateway: self.gateway,
            leases: leases_view(self.vms@),
        }
    }
}

impl View for NetState {
    type V = Seq<ProjectView>;

    open spec fn view(&self) -> Seq<ProjectView> {
        self.projects@.map_values(|p: ProjectState| p@)
    }
}

/// Whether a VM holds one of the addresses.
pub open spec fn holds(leases: Seq<(Ipv4Addr, Seq<char>)>, vm_id: Seq<char>) -> bool {
    exists|i: int| 0 <= i < leases.len() && (#[trigger] leases[i]).1 == vm_id
}

/// Whether an address is held.
pub open spec fn leased(leases: Seq<(Ipv4Addr, Seq<char>)>, ip: Ipv4Addr) -> bool {
    exists|i: int| 0 <= i < leases.len() && (#[trigger] leases[i]).0 == ip
}

/// The lowest address from host offset `idx` on that is not held, leaving out
/// the last, which is the broadcast address.
pub open spec fn free_host(
    net: Ipv4Net,
    leases: Seq<(Ipv4Addr, Seq<char>)>,
    idx: int,
) -> Option<Ipv4Addr>
    decreases crate::net::cidr::net_size(net.prefix) - idx,
{
    if idx >= crate::net::cidr::net_size(net.prefix) - 1 {
        None
    } else if !leased(leases, net.nth(idx)) {
        Some(net.nth(idx))
    } else {
        free_host(net, leases, idx + 1)
    }
}

/// Whether a project owns the subnet with this index.
pub open spec fn index_used(projects: Seq<ProjectView>, index: int) -> bool {
    exists|k: int| 0 <= k < projects.len() && (#[trigger] projects[k]).subnet_index == index
}

/// The lowest subnet index from `index` on that no project owns.
pub open spec fn free_index(projects: Seq<ProjectView>, index: int, count: int) -> Option<int>
    decreases count - index,
{
    if index >= count {
        None
    } else if !index_used(projects, index) {
        Some(index)
    } else {
        free_index(projects, index + 1, count)
    }
}

/// Where a project stands; the number of projects if nowhere.
pub open spec fn project_index(projects: Seq<ProjectView>, project_id: u64) -> nat
    decreases projects.len(),
{
    if projects.len() == 0 || projects[0].project_id == project_id {
        0
    } else {
        1 + project_index(projects.drop_first(), project_id)
    }
}

/// The name of a project's bridge.
pub open spec fn bridge_name(project_id: u64) -> Seq<char> {
    BRIDGE_PREFIX@ + text::decimal(project_id as nat)
}

/// What an allocation comes to: the state behind it, the project it went to
/// and the address; or the reason why there is none.
pub open spec fn allocation(
    projects: Seq<ProjectView>,
    project_id: u64,
    vm_id: Seq<char>,
    supernet: Ipv4Net,
    prefix: u8,
) -> Result<(Seq<ProjectView>, ProjectView, Ipv4Addr), Seq<char>> {
    let k = project_index(projects, project_id) as int;
    if k < projects.len() {
        let p = projects[k];
        let subnet = supernet.part(p.subnet_index as int, prefix);
        if holds(p.leases, vm_id) {
            Err("vm "@ + vm_id + " already has an IP allocated"@)
        } else {
            match free_host(subnet, p.leases, 2) {
                None => Err(
                    "subnet "@ + crate::net::cidr::net_text(subnet) + " for project "@
                        + text::decimal(project_id as nat) + " is exhausted"@,
                ),
                Some(ip) => {
                    let q = ProjectView { leases: p.leases.push((ip, vm_id)), ..p };
                    Ok((projects.update(k, q), q, ip))
                },
            }
        }
    } else {
        match free_index(projects, 0, supernet.fitting(prefix) as int) {
            None => Err(
                "supernet "@ + crate::net::cidr::net_text(supernet) + " has no free subnets"@,
            ),
            Some(index) => if encode_utf8(bridge_name(project_id)).len() > IFNAMSIZ_MAX {
                Err(
                    "bridge name "@ + text::debug_quoted(bridge_name(project_id)) + " exceeds "@
                        + text::decimal(IFNAMSIZ_MAX as nat) + " bytes"@,
                )
            } else {
                let subnet = supernet.part(index, prefix);
                let q = ProjectView {
                    project_id,
                    subnet_index: index as u32,
                    bridge: bridge_name(project_id),
                    gateway: subnet.nth(1),
                    leases: seq![(subnet.nth(2), vm_id)],
                };
                Ok((projects.push(q), q, subnet.nth(2)))
            },
        }
    }
}

/// The addresses that `vm_id` does not hold, in their order.
pub open spec fn leases_without(
    leases: Seq<(Ipv4Addr, Seq<char>)>,
    vm_id: Seq<char>,
) -> Seq<(Ipv4Addr, Seq<char>)>
    decreases leases.len(),
{
    if leases.len() == 0 {
        seq![]
    } else if leases.last().1 == vm_id {
        leases_without(leases.drop_last(), vm_id)
    } else {
        leases_without(leases.drop_last(), vm_id).push(leases.last())
    }
}

/// The state once the `k`-th project has given up the addresses of `vm_id`; a
/// project without addresses goes.
pub open spec fn give_up(projects: Seq<ProjectView>, k: int, vm_id: Seq<char>) -> Seq<ProjectView> {
    let left = leases_without(projects[k].leases, vm_id);
    if left.len() == 0 {
        projects.remove(k)
    } else {
        projects.update(k, ProjectView { leases: left, ..projects[k] })
    }
}

/// The first project that `vm_id` holds an address of; their number if none.
pub open spec fn holder_index(projects: Seq<ProjectView>, vm_id: Seq<char>) -> nat
    decreases projects.len(),
{
    if projects.len() == 0 || holds(projects[0].leases, vm_id) {
        0
    } else {
        1 + holder_index(projects.drop_first(), vm_id)
    }
}

/// Whether subnets of this size can be carved from the supernet, with room
/// for a gateway, a guest and a broadcast address.
pub open spec fn carvable(supernet: Ipv4Net, prefix: u8) -> bool {
    supernet.wf() && supernet.prefix < prefix <= 30
}

// ---------------------------------------------------------------------------
// Operations
// ---------------------------------------------------------------------------

/// Whether a VM holds one of the addresses.
fn owns_vm(vms: &Vec<Lease>, vm_id: &str) -> (b: bool)
    ensures
        b == holds(leases_view(vms@), vm_id@),
{
    let mut i: usize = 0;
    while i < vms.len()
        invariant
            i <= vms@.len(),
            forall|j: int| 0 <= j < i ==> (#[trigger] leases_view(vms@)[j]).1 != vm_id@,
        decreases vms@.len() - i,
    {
        proof {
            assert(leases_view(vms@)[i as int].1 == vms@[i as int].vm_id@);
        }
        if text::str_eq(&vms[i].vm_id, vm_id) {
            return true;
        }
        i += 1;
    }
    false
}

/// Whether an address is held.
fn is_leased(vms: &Vec<Lease>, ip: Ipv4Addr) -> (b: bool)
    ensures
        b == leased(leases_view(vms@), ip),
{
    let mut i: usize = 0;
    while i < vms.len()
        invariant
            i <= vms@.len(),
            forall|j: int| 0 <= j < i ==> (#[trigger] leases_view(vms@)[j]).0 != ip,
        decreases vms@.len() - i,
    {
        proof {
            assert(leases_view(vms@)[i as int].0 == vms@[i as int].ip);
        }
        if vms[i].ip == ip {
            return true;
        }
        i += 1;
    }
    false
}

/// Gives up the addresses that `vm_id` holds.
fn remove_vm(vms: &mut Vec<Lease>, vm_id: &str)
    ensures
        leases_view(final(vms)@) == leases_without(leases_view(old(vms)@), vm_id@),
{
    let ghost all = leases_view(old(vms)@);
    let mut i: usize = 0;
    let ghost mut seen: int = 0;
    proof {
        assert(all.take(0) =~= seq![]);
        assert(leases_view(vms@).take(0) =~= seq![]);
        assert(leases_view(vms@).skip(0) =~= all.skip(0));
    }
    while i < vms.len()
        invariant
            i <= vms@.len(),
            0 <= seen <= all.len(),
            all.len() - seen == vms@.len() - i,
            leases_view(vms@).take(i as int) == leases_without(all.take(seen), vm_id@),
            leases_view(vms@).skip(i as int) == all.skip(seen),
        decreases vms@.len() - i,
    {
        let ghost lv = leases_view(vms@);
        proof {
            assert(lv[i as int] == lv.skip(i as int)[0]);
            assert(all[seen] == all.skip(seen)[0]);
            assert(all.take(seen + 1).drop_last() =~= all.take(seen));
            assert(all.take(seen + 1).last() == all[seen]);
            assert(lv[i as int].1 == vms@[i as int].vm_id@);
        }
        if text::str_eq(&vms[i].vm_id, vm_id) {
            let _gone = vms.remove(i);
            proof {
                assert(leases_view(vms@) =~= lv.remove(i as int));
                assert(leases_view(vms@).take(i as int) =~= lv.take(i as int));
                assert(leases_view(vms@).skip(i as int) =~= lv.skip(i as int).skip(1));
                assert(all.skip(seen).skip(1) =~= all.skip(seen + 1));
                seen = seen + 1;
            }
        } else {
            proof {
                assert(lv.take(i as int + 1) =~= lv.take(i as int).push(lv[i as int]));
                assert(lv.skip(i as int + 1) =~= lv.skip(i as int).skip(1));
                assert(all.skip(seen).skip(1) =~= all.skip(seen + 1));
                seen = seen + 1;
            }
            i += 1;
        }
    }
    proof {
        assert(leases_view(vms@).take(i as int) =~= leases_view(vms@));
        assert(all.take(seen) =~= all);
    }
}

/// Lowest usable host address in `subnet` that is not held: skips the network
/// address, the gateway and the broadcast address.
fn lowest_free_ip(subnet: Ipv4Net, used: &Vec<Lease>) -> (ip: Option<Ipv4Addr>)
    requires
        subnet.wf(),
        subnet.prefix <= 30,
    ensures
        ip == free_host(subnet, leases_view(used@), 2),
{
    let size: u32 = subnet.size();
    proof {
        crate::net::cidr::lemma_net_ends_in_space(subnet);
    }
    let mut idx: u32 = 2;
    while idx < size - 1
        invariant
            subnet.wf(),
            size == crate::net::cidr::net_size(subnet.prefix),
            size >= 1,
            subnet.addr.bits + size <= 0x1_0000_0000,
            2 <= idx,
            free_host(subnet, leases_view(used@), 2) == free_host(
                subnet,
                leases_view(used@),
                idx as int,
            ),
        decreases size - idx,
    {
        let ip = subnet.host(idx);
        if !is_leased(used, ip) {
            return Some(ip);
        }
        idx += 1;
    }
    None
}

impl NetState {
    /// No allocations.
    pub fn new() -> (s: NetState)
        ensures
            s@ == Seq::<ProjectView>::empty(),
    {
        let s = NetState { projects: Vec::new() };
        proof {
            assert(s@ =~= seq![]);
        }
        s
    }

    /// Where a project stands.
    fn find_project(&self, project_id: u64) -> (at: Option<usize>)
        ensures
            match at {
                Some(i) => i < self@.len() && i == project_index(self@, project_id),
                None => project_index(self@, project_id) == self@.len(),
            },
    {
        let mut i: usize = 0;
        proof {
            assert(self@.skip(0) =~= self@);
        }
        while i < self.projects.len()
            invariant
                i <= self.projects@.len(),
                project_index(self@, project_id) == i + project_index(
                    self@.skip(i as int),
                    project_id,
                ),
            decreases self.projects@.len() - i,
        {
            proof {
                assert(self@.skip(i as int)[0] == self.projects@[i as int]@);
                assert(self@.skip(i as int).drop_first() =~= self@.skip(i as int + 1));
            }
            if self.projects[i].project_id == project_id {
                return Some(i);
            }
            i += 1;
        }
        None
    }

    /// The project with this id, if it has any VM.
    pub fn project(&self, project_id: u64) -> (p: Option<&ProjectState>)
        ensures
            match p {
                Some(state) => project_index(self@, project_id) < self@.len() && state@
                    == self@[project_index(self@, project_id) as int],
                None => project_index(self@, project_id) == self@.len(),
            },
    {
        match self.find_project(project_id) {
            Some(i) => Some(&self.projects[i]),
            None => None,
        }
    }

    /// Whether a project owns the subnet with this index.
    fn owns_index(&self, index: u32) -> (b: bool)
        ensures
            b == index_used(self@, index as int),
    {
        let mut i: usize = 0;
        while i < self.projects.len()
            invariant
                i <= self.projects@.len(),
                forall|k: int| 0 <= k < i ==> (#[trigger] self@[k]).subnet_index != index,
            decreases self.projects@.len() - i,
        {
            proof {
                assert(self@[i as int].subnet_index == self.projects@[i as int].subnet_index);
            }
            if self.projects[i].subnet_index == index {
                return true;
            }
            i += 1;
        }
        false
    }

    /// The lowest subnet index below `count` that no project owns.
    fn lowest_free_index(&self, count: u32) -> (index: Option<u32>)
        ensures
            match index {
                Some(i) => free_index(self@, 0, count as int) == Some(i as int) && i < count,
                None => free_index(self@, 0, count as int) is None,
            },
    {
        let mut i: u32 = 0;
        while i < count
            invariant
                i <= count,
                free_index(self@, 0, count as int) == free_index(self@, i as int, count as int),
            decreases count - i,
        {
            if !self.owns_index(i) {
                return Some(i);
            }
            i += 1;
        }
        None
    }
}

/// Whether a plan is what a successful allocation must create.
pub open spec fn plan_matches(
    plan: AllocPlan,
    first: bool,
    p: ProjectView,
    ip: Ipv4Addr,
    tap: Seq<char>,
    supernet: Ipv4Net,
    prefix: u8,
) -> bool {
    let subnet = supernet.part(p.subnet_index as int, prefix);
    &&& plan.bridge@ == p.bridge
    &&& plan.vm_net.tap_name.0@ == tap
    &&& plan.vm_net.guest_ip == ip
    &&& plan.vm_net.gateway_ip == p.gateway
    &&& plan.vm_net.subnet == subnet
    &&& plan.vm_net.guest_mac@ == crate::net::types::mac_for(ip)
    &&& match plan.setup {
        Some(setup) => first && setup_matches(setup, p, supernet, prefix),
        None => !first,
    }
}

/// Whether a setup describes a project's host-side network.
pub open spec fn setup_matches(
    setup: ProjectSetup,
    p: ProjectView,
    supernet: Ipv4Net,
    prefix: u8,
) -> bool {
    &&& setup.bridge@ == p.bridge
    &&& setup.gateway == p.gateway
    &&& setup.subnet == supernet.part(p.subnet_index as int, prefix)
    &&& setup.supernet == supernet
}

impl NetState {
    /// Reserves a guest address for `vm_id`, creating the project's subnet
    /// entry if this is its first VM. On failure nothing changes.
    pub fn allocate(
        &mut self,
        project_id: u64,
        vm_id: &VmId,
        tap_name: &TapName,
        supernet: Ipv4Net,
        subnet_prefix: u8,
    ) -> (r: Result<AllocPlan, Error>)
        requires
            carvable(supernet, subnet_prefix),
        ensures
            match (r, allocation(old(self)@, project_id, vm_id.0@, supernet, subnet_prefix)) {
                (Ok(plan), Ok((after, p, ip))) => final(self)@ == after && plan_matches(
                    plan,
                    project_index(old(self)@, project_id) == old(self)@.len(),
                    p,
                    ip,
                    tap_name.0@,
                    supernet,
                    subnet_prefix,
                ),
                (Err(Error::Net(m)), Err(why)) => final(self)@ == old(self)@ && m@ == why,
                _ => false,
            },
    {
        let ghost before = self@;
        if let Some(k) = self.find_project(project_id) {
            proof {
                assert(before[k as int] == self.projects@[k as int]@);
                crate::net::cidr::lemma_part_wf(
                    supernet,
                    before[k as int].subnet_index as int,
                    subnet_prefix,
                );
            }
            if owns_vm(&self.projects[k].vms, &vm_id.0) {
                return Err(
                    Error::Net(text::cat3("vm ", &vm_id.0, " already has an IP allocated")),
                );
            }
            let subnet = supernet.subnet(self.projects[k].subnet_index, subnet_prefix);
            let guest_ip = match lowest_free_ip(subnet, &self.projects[k].vms) {
                Some(ip) => ip,
                None => {
                    return Err(
                        Error::Net(
                            text::cat5(
                                "subnet ",
                                &subnet.to_text(),
                                " for project ",
                                &text::decimal_string(project_id),
                                " is exhausted",
                            ),
                        ),
                    );
                },
            };
            let lease = Lease { ip: guest_ip, vm_id: vm_id.0.clone() };
            let ghost old_vms = self.projects@[k as int].vms@;
            self.projects[k].vms.push(lease);
            proof {
                let q = self.projects@[k as int];
                assert(leases_view(q.vms@) =~= leases_view(old_vms).push((guest_ip, vm_id.0@)));
                assert(self@ =~= before.update(k as int, q@));
            }
            let bridge = self.projects[k].bridge.clone();
            let gateway = self.projects[k].gateway;
            return Ok(
                AllocPlan {
                    bridge,
                    setup: None,
                    vm_net: VmNet::new(tap_name.clone(), guest_ip, gateway, subnet),
                },
            );
        }
        let count: u32 = supernet.subnet_count(subnet_prefix);
        let subnet_index: u32 = match self.lowest_free_index(count) {
            Some(i) => i,
            None => {
                return Err(
                    Error::Net(
                        text::cat3("supernet ", &supernet.to_text(), " has no free subnets"),
                    ),
                );
            },
        };
        let bridge = text::cat2(BRIDGE_PREFIX, &text::decimal_string(project_id));
        if bridge.as_str().as_bytes().len() > IFNAMSIZ_MAX {
            return Err(
                Error::Net(
                    text::cat5(
                        "bridge name ",
                        &text::quote(&bridge),
                        " exceeds ",
                        &text::decimal_string(IFNAMSIZ_MAX as u64),
                        " bytes",
                    ),
                ),
            );
        }
        let subnet = supernet.subnet(subnet_index, subnet_prefix);
        proof {
            crate::net::cidr::lemma_part_fits(supernet, subnet_index as int, subnet_prefix);
            lemma_room_for_hosts(subnet_prefix);
        }
        let gateway = subnet.host(1);
        let guest_ip = subnet.host(2);
        let mut vms: Vec<Lease> = Vec::new();
        vms.push(Lease { ip: guest_ip, vm_id: vm_id.0.clone() });
        let setup = ProjectSetup { bridge: bridge.clone(), gateway, subnet, supernet };
        let plan_bridge = bridge.clone();
        self.projects.push(ProjectState { project_id, subnet_index, bridge, gateway, vms });
        proof {
            let q = self.projects@.last();
            assert(leases_view(q.vms@) =~= seq![(guest_ip, vm_id.0@)]);
            assert(self@ =~= before.push(q@));
        }
        Ok(
            AllocPlan {
                bridge: plan_bridge,
                setup: Some(setup),
                vm_net: VmNet::new(tap_name.clone(), guest_ip, gateway, subnet),
            },
        )
    }

    /// Makes the `k`-th project give up the addresses of `vm_id`. Returns the
    /// project if it went with them.
    fn give_up_at(&mut self, k: usize, vm_id: &str) -> (gone: Option<ProjectState>)
        requires
            k < old(self)@.len(),
        ensures
            final(self)@ == give_up(old(self)@, k as int, vm_id@),
            gone is Some <==> leases_without(old(self)@[k as int].leases, vm_id@).len() == 0,
            gone is Some ==> gone->0@ == (ProjectView { leases: seq![], ..old(self)@[k as int] }),
    {
        let ghost before = self@;
        proof {
            assert(before[k as int] == self.projects@[k as int]@);
        }
        remove_vm(&mut self.projects[k].vms, vm_id);
        proof {
            assert(self@ =~= before.update(k as int, self.projects@[k as int]@));
        }
        if self.projects[k].vms.len() == 0 {
            let ghost mid = self@;
            let p = self.projects.remove(k);
            proof {
                assert(leases_view(p.vms@) =~= seq![]);
                assert(self@ =~= mid.remove(k as int));
                assert(mid.remove(k as int) =~= before.remove(k as int));
            }
            Some(p)
        } else {
            None
        }
    }

    /// Undoes an allocation after setting it up on the host has failed.
    pub fn rollback_alloc(&mut self, project_id: u64, vm_id: &VmId)
        ensures
            ({
                let k = project_index(old(self)@, project_id) as int;
                final(self)@ == if k < old(self)@.len() {
                    give_up(old(self)@, k, vm_id.0@)
                } else {
                    old(self)@
                }
            }),
    {
        if let Some(k) = self.find_project(project_id) {
            let _gone = self.give_up_at(k, &vm_id.0);
        }
    }

    /// Where the first project stands that `vm_id` holds an address of.
    fn find_holder(&self, vm_id: &str) -> (at: Option<usize>)
        ensures
            match at {
                Some(i) => i < self@.len() && i == holder_index(self@, vm_id@),
                None => holder_index(self@, vm_id@) == self@.len(),
            },
    {
        let mut i: usize = 0;
        proof {
            assert(self@.skip(0) =~= self@);
        }
        while i < self.projects.len()
            invariant
                i <= self.projects@.len(),
                holder_index(self@, vm_id@) == i + holder_index(self@.skip(i as int), vm_id@),
            decreases self.projects@.len() - i,
        {
            proof {
                assert(self@.skip(i as int)[0] == self.projects@[i as int]@);
                assert(self@.skip(i as int).drop_first() =~= self@.skip(i as int + 1));
            }
            if owns_vm(&self.projects[i].vms, vm_id) {
                return Some(i);
            }
            i += 1;
        }
        None
    }

    /// Releases the allocation of `vm_id`. An unknown VM has nothing to
    /// release, so releasing twice is harmless.
    pub fn release(&mut self, vm_id: &VmId, supernet: Ipv4Net, subnet_prefix: u8) -> (r: Option<
        ReleasePlan,
    >)
        requires
            carvable(supernet, subnet_prefix),
        ensures
            ({
                let k = holder_index(old(self)@, vm_id.0@) as int;
                match r {
                    None => k == old(self)@.len() && final(self)@ == old(self)@,
                    Some(plan) => k < old(self)@.len() && final(self)@ == give_up(
                        old(self)@,
                        k,
                        vm_id.0@,
                    ) && plan.tap.0@ == crate::net::types::tap_for(vm_id.0@)
                        && match plan.teardown {
                        Some(setup) => final(self)@.len() < old(self)@.len() && setup_matches(
                            setup,
                            old(self)@[k],
                            supernet,
                            subnet_prefix,
                        ),
                        None => final(self)@.len() == old(self)@.len(),
                    },
                }
            }),
    {
        let k = match self.find_holder(&vm_id.0) {
            Some(k) => k,
            None => {
                return None;
            },
        };
        let gone = self.give_up_at(k, &vm_id.0);
        let teardown = match gone {
            Some(p) => {
                let subnet = supernet.subnet(p.subnet_index, subnet_prefix);
                Some(ProjectSetup { bridge: p.bridge, gateway: p.gateway, subnet, supernet })
            },
            None => None,
        };
        Some(ReleasePlan { tap: TapName::for_vm(&vm_id.0), teardown })
    }
}

/// Subnets up to /30 have room for a gateway, a guest and a broadcast address.
proof fn lemma_room_for_hosts(prefix: u8)
    requires
        1 <= prefix <= 30,
    ensures
        crate::net::cidr::net_size(prefix) >= 4,
{
    vstd::arithmetic::power2::lemma2_to64();
    if prefix < 30 {
        vstd::arithmetic::power2::lemma_pow2_strictly_increases(2, (32 - prefix) as nat);
    }
}

} // verus!
