//! What holds of address allocation as a whole.

use vstd::prelude::*;
use vstd::utf8::*;

use crate::net::cidr;
use crate::net::cidr::{Ipv4Addr, Ipv4Net};
use crate::net::state;
use crate::net::types;
use crate::net::IFNAMSIZ_MAX;

verus! {

/// Whether `ip` is one that a VM of the subnet may have: not the network
/// address, not the gateway, not the broadcast address.
pub open spec fn guest_address(net: Ipv4Net, ip: Ipv4Addr) -> bool {
    net.addr.bits + 2 <= ip.bits < net.addr.bits + cidr::net_size(net.prefix) - 1
}

/// Whether a project's share is sound: it holds at least one address, all of
/// them guest addresses of its subnet, none twice and no two for one VM; and
/// bridge and gateway are the project's.
pub open spec fn project_sound(p: state::ProjectView, supernet: Ipv4Net, prefix: u8) -> bool {
    let subnet = supernet.part(p.subnet_index as int, prefix);
    &&& p.subnet_index < supernet.fitting(prefix)
    &&& p.bridge == state::bridge_name(p.project_id)
    &&& encode_utf8(p.bridge).len() <= IFNAMSIZ_MAX
    &&& p.gateway == subnet.nth(1)
    &&& p.leases.len() > 0
    &&& forall|i: int| 0 <= i < p.leases.len() ==> guest_address(subnet, (#[trigger] p.leases[i]).0)
    &&& forall|i: int, j: int|
        0 <= i < j < p.leases.len() ==> (#[trigger] p.leases[i]).0 != (#[trigger] p.leases[j]).0
    &&& forall|i: int, j: int|
        0 <= i < j < p.leases.len() ==> (#[trigger] p.leases[i]).1 != (#[trigger] p.leases[j]).1
}

/// Whether the allocations are sound: every project's share is, no project
/// stands twice, and no subnet is owned twice.
pub open spec fn sound(projects: Seq<state::ProjectView>, supernet: Ipv4Net, prefix: u8) -> bool {
    &&& forall|k: int|
        0 <= k < projects.len() ==> project_sound(#[trigger] projects[k], supernet, prefix)
    &&& forall|k: int, l: int|
        0 <= k < l < projects.len() ==> (#[trigger] projects[k]).project_id != (
        #[trigger] projects[l]).project_id
    &&& forall|k: int, l: int|
        0 <= k < l < projects.len() ==> (#[trigger] projects[k]).subnet_index != (
        #[trigger] projects[l]).subnet_index
}

/// `project_index` is where the project stands first.
proof fn lemma_project_index(projects: Seq<state::ProjectView>, id: u64)
    ensures
        state::project_index(projects, id) <= projects.len(),
        state::project_index(projects, id) < projects.len() ==> projects[state::project_index(
            projects,
            id,
        ) as int].project_id == id,
        forall|k: int|
            0 <= k < state::project_index(projects, id) ==> (#[trigger] projects[k]).project_id
                != id,
    decreases projects.len(),
{
    if projects.len() > 0 && projects[0].project_id != id {
        lemma_project_index(projects.drop_first(), id);
        assert forall|k: int| 0 <= k < state::project_index(projects, id) implies (
        #[trigger] projects[k]).project_id != id by {
            if k > 0 {
                assert(projects.drop_first()[k - 1].project_id != id);
            }
        }
    }
}

/// `holder_index` is the first project that the VM holds an address of.
proof fn lemma_holder_index(projects: Seq<state::ProjectView>, vm_id: Seq<char>)
    ensures
        state::holder_index(projects, vm_id) <= projects.len(),
        state::holder_index(projects, vm_id) < projects.len() ==> state::holds(
            projects[state::holder_index(projects, vm_id) as int].leases,
            vm_id,
        ),
        forall|k: int|
            0 <= k < state::holder_index(projects, vm_id) ==> !state::holds(
                (#[trigger] projects[k]).leases,
                vm_id,
            ),
    decreases projects.len(),
{
    if projects.len() > 0 && !state::holds(projects[0].leases, vm_id) {
        lemma_holder_index(projects.drop_first(), vm_id);
        assert forall|k: int| 0 <= k < state::holder_index(projects, vm_id) implies !state::holds(
            (#[trigger] projects[k]).leases,
            vm_id,
        ) by {
            if k > 0 {
                assert(!state::holds(projects.drop_first()[k - 1].leases, vm_id));
            }
        }
    }
}

/// The address `free_host` finds is free, and no lower one is.
proof fn lemma_free_host(net: Ipv4Net, leases: Seq<(Ipv4Addr, Seq<char>)>, idx: int)
    requires
        net.wf(),
        idx >= 0,
    ensures
        match state::free_host(net, leases, idx) {
            Some(ip) => net.addr.bits + idx <= ip.bits < net.addr.bits + cidr::net_size(net.prefix)
                - 1 && !state::leased(leases, ip) && forall|other: Ipv4Addr|
                net.addr.bits + idx <= other.bits < ip.bits ==> #[trigger] state::leased(
                    leases,
                    other,
                ),
            None => forall|other: Ipv4Addr|
                net.addr.bits + idx <= other.bits < net.addr.bits + cidr::net_size(net.prefix) - 1
                    ==> #[trigger] state::leased(leases, other),
        },
    decreases cidr::net_size(net.prefix) - idx,
{
    cidr::lemma_net_ends_in_space(net);
    if idx < cidr::net_size(net.prefix) - 1 {
        let here = net.nth(idx);
        assert(here.bits == net.addr.bits + idx);
        if state::leased(leases, here) {
            lemma_free_host(net, leases, idx + 1);
            assert forall|other: Ipv4Addr|
                other.bits == net.addr.bits + idx implies #[trigger] state::leased(
                leases,
                other,
            ) by {
                assert(other == here);
            }
        }
    }
}

/// The index `free_index` finds is free, and no lower one is.
proof fn lemma_free_index(projects: Seq<state::ProjectView>, index: int, count: int)
    requires
        index >= 0,
    ensures
        match state::free_index(projects, index, count) {
            Some(i) => index <= i < count && !state::index_used(projects, i) && forall|j: int|
                index <= j < i ==> #[trigger] state::index_used(projects, j),
            None => forall|j: int|
                index <= j < count ==> #[trigger] state::index_used(projects, j),
        },
    decreases count - index,
{
    if index < count && state::index_used(projects, index) {
        lemma_free_index(projects, index + 1, count);
    }
}

/// An allocation hands out the lowest guest address of the project's subnet
/// that is free, and a new project the lowest subnet that is free.
pub proof fn law_lowest_is_handed_out(
    projects: Seq<state::ProjectView>,
    project_id: u64,
    vm_id: Seq<char>,
    supernet: Ipv4Net,
    prefix: u8,
)
    requires
        state::carvable(supernet, prefix),
        state::allocation(projects, project_id, vm_id, supernet, prefix) is Ok,
    ensures
        ({
            let (after, p, ip) = state::allocation(
                projects,
                project_id,
                vm_id,
                supernet,
                prefix,
            )->Ok_0;
            let k = state::project_index(projects, project_id) as int;
            let subnet = supernet.part(p.subnet_index as int, prefix);
            &&& guest_address(subnet, ip)
            &&& k < projects.len() ==> p.subnet_index == projects[k].subnet_index
                && !state::leased(projects[k].leases, ip) && forall|other: Ipv4Addr|
                guest_address(subnet, other) && other.bits < ip.bits ==> #[trigger] state::leased(
                    projects[k].leases,
                    other,
                )
            &&& k == projects.len() ==> ip.bits == subnet.addr.bits + 2 && !state::index_used(
                projects,
                p.subnet_index as int,
            ) && forall|j: int|
                0 <= j < p.subnet_index ==> #[trigger] state::index_used(projects, j)
        }),
{
    lemma_project_index(projects, project_id);
    let k = state::project_index(projects, project_id) as int;
    if k < projects.len() {
        let p = projects[k];
        cidr::lemma_part_wf(supernet, p.subnet_index as int, prefix);
        lemma_free_host(supernet.part(p.subnet_index as int, prefix), p.leases, 2);
    } else {
        let count = supernet.fitting(prefix) as int;
        lemma_free_index(projects, 0, count);
        let index = state::free_index(projects, 0, count)->0;
        lemma_fitting_bounded(supernet, prefix);
        cidr::lemma_part_fits(supernet, index, prefix);
        lemma_room(prefix);
    }
}

/// A supernet holds fewer subnets than there are addresses.
proof fn lemma_fitting_bounded(supernet: Ipv4Net, prefix: u8)
    requires
        supernet.wf(),
        supernet.prefix <= prefix <= 32,
    ensures
        supernet.fitting(prefix) <= u32::MAX,
{
    vstd::arithmetic::power2::lemma2_to64();
    vstd::arithmetic::power2::lemma_pow2_strictly_increases((prefix - supernet.prefix) as nat, 32);
}

/// Subnets up to /30 have at least four addresses.
proof fn lemma_room(prefix: u8)
    requires
        1 <= prefix <= 30,
    ensures
        cidr::net_size(prefix) >= 4,
{
    vstd::arithmetic::power2::lemma2_to64();
    if prefix < 30 {
        vstd::arithmetic::power2::lemma_pow2_strictly_increases(2, (32 - prefix) as nat);
    }
}

/// An allocation keeps the allocations sound.
pub proof fn law_allocation_keeps_sound(
    projects: Seq<state::ProjectView>,
    project_id: u64,
    vm_id: Seq<char>,
    supernet: Ipv4Net,
    prefix: u8,
)
    requires
        state::carvable(supernet, prefix),
        sound(projects, supernet, prefix),
        state::allocation(projects, project_id, vm_id, supernet, prefix) is Ok,
    ensures
        sound(
            state::allocation(projects, project_id, vm_id, supernet, prefix)->Ok_0.0,
            supernet,
            prefix,
        ),
{
    law_lowest_is_handed_out(projects, project_id, vm_id, supernet, prefix);
    lemma_project_index(projects, project_id);
    let (after, q, ip) = state::allocation(projects, project_id, vm_id, supernet, prefix)->Ok_0;
    let k = state::project_index(projects, project_id) as int;
    lemma_fitting_bounded(supernet, prefix);
    if k < projects.len() {
        let p = projects[k];
        assert(project_sound(p, supernet, prefix));
        assert forall|i: int, j: int| 0 <= i < j < q.leases.len() implies (
        #[trigger] q.leases[i]).0 != (#[trigger] q.leases[j]).0 && q.leases[i].1
            != q.leases[j].1 by {
            assert(q.leases[i] == p.leases[i]);
            if j < p.leases.len() {
                assert(q.leases[j] == p.leases[j]);
            }
        }
        assert(project_sound(q, supernet, prefix));
        assert forall|l: int| 0 <= l < after.len() implies project_sound(
            #[trigger] after[l],
            supernet,
            prefix,
        ) by {
            if l != k {
                assert(after[l] == projects[l]);
            }
        }
    } else {
        lemma_free_index(projects, 0, supernet.fitting(prefix) as int);
        assert(project_sound(q, supernet, prefix));
        assert forall|l: int| 0 <= l < after.len() implies project_sound(
            #[trigger] after[l],
            supernet,
            prefix,
        ) by {
            if l < projects.len() {
                assert(after[l] == projects[l]);
            }
        }
    }
}

/// What is left of the addresses are those of the others, each once.
proof fn lemma_leases_without(leases: Seq<(Ipv4Addr, Seq<char>)>, vm_id: Seq<char>)
    ensures
        ({
            let left = state::leases_without(leases, vm_id);
            &&& left.len() <= leases.len()
            &&& !state::holds(left, vm_id)
            &&& forall|i: int|
                0 <= i < left.len() ==> leases.contains(#[trigger] left[i])
            &&& forall|i: int|
                0 <= i < leases.len() && (#[trigger] leases[i]).1 != vm_id ==> left.contains(
                    leases[i],
                )
        }),
    decreases leases.len(),
{
    if leases.len() > 0 {
        let init = leases.drop_last();
        lemma_leases_without(init, vm_id);
        let part = state::leases_without(init, vm_id);
        let left = state::leases_without(leases, vm_id);
        assert forall|i: int| 0 <= i < left.len() implies leases.contains(#[trigger] left[i]) by {
            if i < part.len() {
                assert(init.contains(part[i]));
                let j = choose|j: int| 0 <= j < init.len() && init[j] == part[i];
                assert(leases[j] == left[i]);
            } else {
                assert(leases[leases.len() - 1] == left[i]);
            }
        }
        assert forall|i: int|
            0 <= i < leases.len() && (#[trigger] leases[i]).1 != vm_id implies left.contains(
            leases[i],
        ) by {
            if i < init.len() {
                assert(init[i] == leases[i]);
                assert(part.contains(init[i]));
                let j = choose|j: int| 0 <= j < part.len() && part[j] == init[i];
                assert(left[j] == leases[i]);
            } else {
                assert(left.last() == leases[i]);
            }
        }
    }
}

/// What is left of the addresses repeats none, if they did not.
proof fn lemma_leases_without_distinct(leases: Seq<(Ipv4Addr, Seq<char>)>, vm_id: Seq<char>)
    requires
        forall|i: int, j: int|
            0 <= i < j < leases.len() ==> (#[trigger] leases[i]).0 != (#[trigger] leases[j]).0,
        forall|i: int, j: int|
            0 <= i < j < leases.len() ==> (#[trigger] leases[i]).1 != (#[trigger] leases[j]).1,
    ensures
        ({
            let left = state::leases_without(leases, vm_id);
            &&& forall|i: int, j: int|
                0 <= i < j < left.len() ==> (#[trigger] left[i]).0 != (#[trigger] left[j]).0
            &&& forall|i: int, j: int|
                0 <= i < j < left.len() ==> (#[trigger] left[i]).1 != (#[trigger] left[j]).1
        }),
    decreases leases.len(),
{
    if leases.len() > 0 {
        let init = leases.drop_last();
        lemma_leases_without_distinct(init, vm_id);
        lemma_leases_without(init, vm_id);
        let part = state::leases_without(init, vm_id);
        let left = state::leases_without(leases, vm_id);
        assert forall|i: int, j: int| 0 <= i < j < left.len() implies (#[trigger] left[i]).0 != (
        #[trigger] left[j]).0 && left[i].1 != left[j].1 by {
            assert(left[i] == part[i]);
            assert(init.contains(part[i]));
            if j < part.len() {
                assert(left[j] == part[j]);
            } else {
                let m = choose|m: int| 0 <= m < init.len() && init[m] == part[i];
                assert(leases[m] == left[i]);
                assert(leases[leases.len() - 1] == left[j]);
            }
        }
    }
}

/// Giving up a VM's addresses keeps the allocations sound, and leaves that
/// project without the VM.
pub proof fn law_release_keeps_sound(
    projects: Seq<state::ProjectView>,
    k: int,
    vm_id: Seq<char>,
    supernet: Ipv4Net,
    prefix: u8,
)
    requires
        sound(projects, supernet, prefix),
        0 <= k < projects.len(),
    ensures
        sound(state::give_up(projects, k, vm_id), supernet, prefix),
        forall|l: int|
            0 <= l < state::give_up(projects, k, vm_id).len() && (#[trigger] state::give_up(
                projects,
                k,
                vm_id,
            )[l]).project_id == projects[k].project_id ==> !state::holds(
                state::give_up(projects, k, vm_id)[l].leases,
                vm_id,
            ),
{
    let p = projects[k];
    let left = state::leases_without(p.leases, vm_id);
    let after = state::give_up(projects, k, vm_id);
    assert(project_sound(p, supernet, prefix));
    lemma_leases_without(p.leases, vm_id);
    lemma_leases_without_distinct(p.leases, vm_id);
    if left.len() > 0 {
        let q = state::ProjectView { leases: left, ..p };
        let subnet = supernet.part(p.subnet_index as int, prefix);
        assert forall|i: int| 0 <= i < left.len() implies guest_address(
            subnet,
            (#[trigger] left[i]).0,
        ) by {
            assert(p.leases.contains(left[i]));
            let j = choose|j: int| 0 <= j < p.leases.len() && p.leases[j] == left[i];
            assert(guest_address(subnet, p.leases[j].0));
        }
        assert(project_sound(q, supernet, prefix));
        assert forall|l: int| 0 <= l < after.len() implies project_sound(
            #[trigger] after[l],
            supernet,
            prefix,
        ) by {
            if l != k {
                assert(after[l] == projects[l]);
            }
        }
    } else {
        assert forall|l: int| 0 <= l < after.len() implies after[l] == projects[if l < k {
            l
        } else {
            l + 1
        }] by {}
        assert forall|l: int| 0 <= l < after.len() implies project_sound(
            #[trigger] after[l],
            supernet,
            prefix,
        ) by {
            assert(after[l] == projects[if l < k { l } else { l + 1 }]);
        }
    }
}

/// No two VMs share an address: in sound allocations, different leases are of
/// different addresses, whichever projects they belong to.
pub proof fn law_addresses_unique(
    projects: Seq<state::ProjectView>,
    supernet: Ipv4Net,
    prefix: u8,
    k: int,
    i: int,
    l: int,
    j: int,
)
    requires
        state::carvable(supernet, prefix),
        sound(projects, supernet, prefix),
        0 <= k < projects.len(),
        0 <= i < projects[k].leases.len(),
        0 <= l < projects.len(),
        0 <= j < projects[l].leases.len(),
        projects[k].leases[i].0 == projects[l].leases[j].0,
    ensures
        k == l && i == j,
{
    let p = projects[k];
    let q = projects[l];
    assert(project_sound(p, supernet, prefix));
    assert(project_sound(q, supernet, prefix));
    let ip = p.leases[i].0;
    assert(guest_address(supernet.part(p.subnet_index as int, prefix), ip));
    assert(guest_address(supernet.part(q.subnet_index as int, prefix), q.leases[j].0));
    cidr::law_subnets_partition(
        supernet,
        p.subnet_index as int,
        q.subnet_index as int,
        prefix,
        ip,
    );
    if k < l {
        assert(projects[k].subnet_index != projects[l].subnet_index);
    } else if l < k {
        assert(projects[l].subnet_index != projects[k].subnet_index);
    } else if i < j {
        assert(p.leases[i].0 != p.leases[j].0);
    } else if j < i {
        assert(p.leases[j].0 != p.leases[i].0);
    }
}

/// Giving up a VM that holds nothing changes nothing.
proof fn lemma_leases_without_absent(leases: Seq<(Ipv4Addr, Seq<char>)>, vm_id: Seq<char>)
    requires
        !state::holds(leases, vm_id),
    ensures
        state::leases_without(leases, vm_id) == leases,
    decreases leases.len(),
{
    if leases.len() > 0 {
        let init = leases.drop_last();
        assert(!state::holds(init, vm_id)) by {
            if state::holds(init, vm_id) {
                let i = choose|i: int| 0 <= i < init.len() && (#[trigger] init[i]).1 == vm_id;
                assert(leases[i].1 == vm_id);
            }
        }
        assert(leases[leases.len() - 1].1 != vm_id);
        lemma_leases_without_absent(init, vm_id);
        assert(state::leases_without(leases, vm_id) =~= leases);
    } else {
        assert(leases =~= seq![]);
    }
}

/// Rolling an allocation back restores the allocations exactly.
pub proof fn law_rollback_undoes_allocation(
    projects: Seq<state::ProjectView>,
    project_id: u64,
    vm_id: Seq<char>,
    supernet: Ipv4Net,
    prefix: u8,
)
    requires
        state::carvable(supernet, prefix),
        sound(projects, supernet, prefix),
        state::allocation(projects, project_id, vm_id, supernet, prefix) is Ok,
    ensures
        ({
            let after = state::allocation(projects, project_id, vm_id, supernet, prefix)->Ok_0.0;
            let k = state::project_index(after, project_id) as int;
            k < after.len() && state::give_up(after, k, vm_id) == projects
        }),
{
    lemma_project_index(projects, project_id);
    let (after, q, ip) = state::allocation(projects, project_id, vm_id, supernet, prefix)->Ok_0;
    let k = state::project_index(projects, project_id) as int;
    lemma_project_index(after, project_id);
    let at = state::project_index(after, project_id) as int;
    if k < projects.len() {
        let p = projects[k];
        assert(project_sound(p, supernet, prefix));
        assert(after[k].project_id == project_id);
        if at < k {
            assert(after[at] == projects[at]);
        }
        assert(at == k);
        assert(q.leases.drop_last() =~= p.leases);
        lemma_leases_without_absent(p.leases, vm_id);
        assert(state::give_up(after, k, vm_id) =~= projects);
    } else {
        assert(after[k].project_id == project_id);
        if at < k {
            assert(after[at] == projects[at]);
        }
        assert(at == k);
        assert(q.leases.drop_last() =~= seq![]);
        assert(q.leases.last().1 == vm_id);
        assert(state::leases_without(q.leases.drop_last(), vm_id).len() == 0);
        assert(state::give_up(after, k, vm_id) =~= projects);
    }
}

/// Releasing a VM finds the project it was allocated in, if it held no
/// address before: a release undoes an allocation as a rollback does.
pub proof fn law_release_undoes_allocation(
    projects: Seq<state::ProjectView>,
    project_id: u64,
    vm_id: Seq<char>,
    supernet: Ipv4Net,
    prefix: u8,
)
    requires
        state::carvable(supernet, prefix),
        sound(projects, supernet, prefix),
        state::allocation(projects, project_id, vm_id, supernet, prefix) is Ok,
        state::holder_index(projects, vm_id) == projects.len(),
    ensures
        ({
            let after = state::allocation(projects, project_id, vm_id, supernet, prefix)->Ok_0.0;
            let k = state::holder_index(after, vm_id) as int;
            k < after.len() && state::give_up(after, k, vm_id) == projects
        }),
{
    law_rollback_undoes_allocation(projects, project_id, vm_id, supernet, prefix);
    lemma_project_index(projects, project_id);
    lemma_holder_index(projects, vm_id);
    let (after, q, ip) = state::allocation(projects, project_id, vm_id, supernet, prefix)->Ok_0;
    let k = state::project_index(projects, project_id) as int;
    lemma_project_index(after, project_id);
    lemma_holder_index(after, vm_id);
    let at = state::project_index(after, project_id) as int;
    let h = state::holder_index(after, vm_id) as int;
    assert(after[k] == q);
    assert(q.leases.last().1 == vm_id);
    assert(state::holds(q.leases, vm_id));
    if at < k {
        assert(after[at] == projects[at]);
    }
    if h < k {
        assert(after[h] == projects[h]);
    }
    assert(h == k);
}

// ---------------------------------------------------------------------------
// Success
// ---------------------------------------------------------------------------

/// A VM gets an address wherever there is room: in a project that has a subnet,
/// if the VM holds none there and some guest address is free; in a new project,
/// if some subnet is free and the name of the bridge fits.
pub proof fn law_allocation_succeeds_where_there_is_room(
    projects: Seq<state::ProjectView>,
    project_id: u64,
    vm_id: Seq<char>,
    supernet: Ipv4Net,
    prefix: u8,
    ip: Ipv4Addr,
    index: int,
)
    requires
        state::carvable(supernet, prefix),
        ({
            let k = state::project_index(projects, project_id) as int;
            if k < projects.len() {
                let p = projects[k];
                &&& forall|i: int|
                    0 <= i < p.leases.len() ==> (#[trigger] p.leases[i]).1 != vm_id && p.leases[i].0
                        != ip
                &&& guest_address(supernet.part(p.subnet_index as int, prefix), ip)
            } else {
                &&& 0 <= index < supernet.fitting(prefix)
                &&& forall|j: int|
                    0 <= j < projects.len() ==> (#[trigger] projects[j]).subnet_index != index
                &&& encode_utf8(state::bridge_name(project_id)).len() <= 15
            }
        }),
    ensures
        state::allocation(projects, project_id, vm_id, supernet, prefix) is Ok,
{
    let k = state::project_index(projects, project_id) as int;
    lemma_project_index(projects, project_id);
    if k < projects.len() {
        let p = projects[k];
        let subnet = supernet.part(p.subnet_index as int, prefix);
        cidr::lemma_part_wf(supernet, p.subnet_index as int, prefix);
        lemma_free_host(subnet, p.leases, 2);
        assert(!state::leased(p.leases, ip));
    } else {
        lemma_free_index(projects, 0, supernet.fitting(prefix) as int);
        assert(!state::index_used(projects, index));
    }
}

/// A VM that already holds an address of the project gets no second one.
pub proof fn law_no_second_address(
    projects: Seq<state::ProjectView>,
    project_id: u64,
    vm_id: Seq<char>,
    supernet: Ipv4Net,
    prefix: u8,
    i: int,
)
    requires
        state::project_index(projects, project_id) < projects.len(),
        0 <= i < projects[state::project_index(projects, project_id) as int].leases.len(),
        projects[state::project_index(projects, project_id) as int].leases[i].1 == vm_id,
    ensures
        state::allocation(projects, project_id, vm_id, supernet, prefix) is Err,
{
}

/// What an allocation must create fits together: the address is recorded as the
/// VM's, lies in the subnet that the VM is told, and is not the gateway's, which
/// is the subnet's first; the MAC goes with the address and the TAP with the VM.
/// A project is set up exactly for its first VM, with the bridge, the gateway
/// and the subnet of that VM.
pub proof fn law_plan_fits_together(
    projects: Seq<state::ProjectView>,
    project_id: u64,
    vm_id: Seq<char>,
    supernet: Ipv4Net,
    prefix: u8,
    plan: state::AllocPlan,
)
    requires
        state::carvable(supernet, prefix),
        sound(projects, supernet, prefix),
        state::allocation(projects, project_id, vm_id, supernet, prefix) is Ok,
        ({
            let (after, p, ip) = state::allocation(
                projects,
                project_id,
                vm_id,
                supernet,
                prefix,
            )->Ok_0;
            state::plan_matches(
                plan,
                state::project_index(projects, project_id) == projects.len(),
                p,
                ip,
                types::tap_for(vm_id),
                supernet,
                prefix,
            )
        }),
    ensures
        ({
            let after = state::allocation(projects, project_id, vm_id, supernet, prefix)->Ok_0.0;
            let k = state::project_index(after, project_id) as int;
            let net = plan.vm_net;
            &&& k < after.len()
            &&& after[k].project_id == project_id
            &&& after[k].leases.contains((net.guest_ip, vm_id))
            &&& net.subnet.contains(net.guest_ip)
            &&& net.subnet.prefix == prefix
            &&& net.gateway_ip.bits == net.subnet.addr.bits + 1
            &&& net.guest_ip != net.gateway_ip
            &&& net.guest_mac@ == types::mac_for(net.guest_ip)
            &&& net.tap_name.0@ == types::tap_for(vm_id)
            &&& plan.bridge@ == "tbr-"@ + crate::text::decimal(project_id as nat)
            &&& plan.setup is Some <==> forall|j: int|
                0 <= j < projects.len() ==> (#[trigger] projects[j]).project_id != project_id
            &&& plan.setup is Some ==> {
                let setup = plan.setup->0;
                &&& setup.bridge@ == plan.bridge@
                &&& setup.gateway == net.gateway_ip
                &&& setup.subnet == net.subnet
                &&& setup.supernet == supernet
            }
        }),
{
    let (after, p, ip) = state::allocation(projects, project_id, vm_id, supernet, prefix)->Ok_0;
    law_lowest_is_handed_out(projects, project_id, vm_id, supernet, prefix);
    law_allocation_keeps_sound(projects, project_id, vm_id, supernet, prefix);
    lemma_project_index(projects, project_id);
    lemma_project_index(after, project_id);
    let old_k = state::project_index(projects, project_id) as int;
    let k = state::project_index(after, project_id) as int;
    assert(after[old_k] == p);
    assert(p.project_id == project_id);
    assert(k == old_k) by {
        if k < old_k {
            assert(after[k] == projects[k]);
        }
    }
    assert(p.leases.last() == (ip, vm_id));
    assert(p.leases.contains((ip, vm_id)));
    assert(project_sound(after[k], supernet, prefix));
    let subnet = supernet.part(p.subnet_index as int, prefix);
    cidr::lemma_part_fits(supernet, p.subnet_index as int, prefix);
    cidr::lemma_net_ends_in_space(subnet);
    lemma_room(prefix);
}

/// Tearing a project down undoes its setup and no other's: both speak of the
/// same bridge, gateway and subnets, whoever holds addresses in between.
pub proof fn law_teardown_is_of_what_was_set_up(
    p: state::ProjectView,
    leases: Seq<(Ipv4Addr, Seq<char>)>,
    supernet: Ipv4Net,
    prefix: u8,
    setup: state::ProjectSetup,
    teardown: state::ProjectSetup,
)
    requires
        state::setup_matches(setup, p, supernet, prefix),
        state::setup_matches(
            teardown,
            (state::ProjectView { leases, ..p }),
            supernet,
            prefix,
        ),
    ensures
        teardown.bridge@ == setup.bridge@,
        teardown.gateway == setup.gateway,
        teardown.subnet == setup.subnet,
        teardown.supernet == setup.supernet,
        setup.bridge@ == p.bridge,
        setup.gateway == p.gateway,
{
}

/// A project goes exactly with its last VM: while another VM holds an address of
/// it, it stays, and that VM keeps its address.
pub proof fn law_project_goes_with_its_last_vm(
    projects: Seq<state::ProjectView>,
    k: int,
    vm_id: Seq<char>,
    i: int,
)
    requires
        0 <= k < projects.len(),
        0 <= i < projects[k].leases.len(),
    ensures
        ({
            let after = state::give_up(projects, k, vm_id);
            &&& projects[k].leases[i].1 != vm_id ==> after.len() == projects.len()
                && after[k].leases.contains(projects[k].leases[i]) && after[k].project_id
                == projects[k].project_id && after[k].bridge == projects[k].bridge
                && after[k].gateway == projects[k].gateway && after[k].subnet_index
                == projects[k].subnet_index
            &&& (forall|j: int|
                0 <= j < projects[k].leases.len() ==> (#[trigger] projects[k].leases[j]).1 == vm_id)
                ==> after == projects.remove(k)
            &&& forall|l: int|
                0 <= l < projects.len() && l != k ==> after.contains(#[trigger] projects[l])
        }),
{
    let leases = projects[k].leases;
    let left = state::leases_without(leases, vm_id);
    let after = state::give_up(projects, k, vm_id);
    lemma_leases_without(leases, vm_id);
    if leases[i].1 != vm_id {
        assert(left.contains(leases[i]));
    }
    if forall|j: int| 0 <= j < leases.len() ==> (#[trigger] leases[j]).1 == vm_id {
        if left.len() > 0 {
            assert(leases.contains(left[0]));
            assert(left[0].1 == vm_id);
            assert(state::holds(left, vm_id));
        }
    }
    assert forall|l: int| 0 <= l < projects.len() && l != k implies after.contains(
        #[trigger] projects[l],
    ) by {
        if left.len() == 0 {
            if l < k {
                assert(after[l] == projects[l]);
            } else {
                assert(after[l - 1] == projects[l]);
            }
        } else {
            assert(after[l] == projects[l]);
        }
    }
}

/// An allocation concerns one project: all others, and who holds what of them,
/// stay as they are, and so do the other addresses of that project.
pub proof fn law_allocation_concerns_one_project(
    projects: Seq<state::ProjectView>,
    project_id: u64,
    vm_id: Seq<char>,
    supernet: Ipv4Net,
    prefix: u8,
    l: int,
)
    requires
        state::allocation(projects, project_id, vm_id, supernet, prefix) is Ok,
        0 <= l < projects.len(),
    ensures
        ({
            let after = state::allocation(projects, project_id, vm_id, supernet, prefix)->Ok_0.0;
            &&& projects.len() <= after.len() <= projects.len() + 1
            &&& l != state::project_index(projects, project_id) ==> after[l] == projects[l]
            &&& forall|i: int|
                0 <= i < projects[l].leases.len() ==> after[l].leases.contains(
                    #[trigger] projects[l].leases[i],
                )
        }),
{
    let after = state::allocation(projects, project_id, vm_id, supernet, prefix)->Ok_0.0;
    let k = state::project_index(projects, project_id) as int;
    lemma_project_index(projects, project_id);
    assert forall|i: int| 0 <= i < projects[l].leases.len() implies after[l].leases.contains(
        #[trigger] projects[l].leases[i],
    ) by {
        assert(after[l].leases[i] == projects[l].leases[i]);
    }
}

// ---------------------------------------------------------------------------
// Names
// ---------------------------------------------------------------------------

/// VMs have TAPs of their own: VMs that are named as they are created never
/// share one.
pub proof fn law_taps_differ(a: Seq<char>, b: Seq<char>)
    requires
        a != b,
        crate::text::has_prefix(a, "vm-"@),
        crate::text::has_prefix(b, "vm-"@),
    ensures
        types::tap_for(a) != types::tap_for(b),
        types::tap_for(a) == "tap-"@ + a.skip(3),
{
    reveal_strlit("vm-");
    reveal_strlit("tap-");
    let x = types::tap_for(a);
    let y = types::tap_for(b);
    assert(x.skip(4) =~= a.skip(3));
    assert(y.skip(4) =~= b.skip(3));
    if x == y {
        assert(a =~= "vm-"@ + a.skip(3));
        assert(b =~= "vm-"@ + b.skip(3));
    }
}

/// Projects have bridges of their own, and no TAP is called like a bridge.
pub proof fn law_bridges_differ(p: u64, q: u64, vm_id: Seq<char>)
    ensures
        p != q ==> state::bridge_name(p) != state::bridge_name(q),
        types::tap_for(vm_id) != state::bridge_name(p),
        crate::text::has_prefix(state::bridge_name(p), "tbr-"@),
{
    reveal_strlit("tbr-");
    reveal_strlit("tap-");
    reveal_strlit("vm-");
    let x = state::bridge_name(p);
    let y = state::bridge_name(q);
    assert(x.skip(4) =~= crate::text::decimal(p as nat));
    assert(y.skip(4) =~= crate::text::decimal(q as nat));
    crate::text::lemma_read_decimal(p as nat, u64::MAX as nat);
    crate::text::lemma_read_decimal(q as nat, u64::MAX as nat);
    assert(x.take(4) =~= "tbr-"@);
    assert(x[1] == 'b');
    assert(types::tap_for(vm_id)[1] == 'a');
}

// ---------------------------------------------------------------------------
// Settings
// ---------------------------------------------------------------------------

/// A manager takes any supernet in CIDR notation with room for more than one
/// subnet of the given size, each with at least a gateway and a guest; the
/// supernet it works with is the one that was given.
pub proof fn law_settings_that_are_taken(net: Ipv4Net, subnet_prefix: u8)
    requires
        net.wf(),
    ensures
        match crate::net::manager::settings(cidr::net_text(net), subnet_prefix) {
            Ok(taken) => taken == net && net.prefix < subnet_prefix && subnet_prefix <= 30,
            Err(_) => subnet_prefix <= net.prefix || subnet_prefix > 30,
        },
{
    cidr::law_cidr_round_trip(net);
}

/// A guest's MAC address is one: six pairs of upper-case hexadecimal digits with
/// colons in between. It is no group address and is administered locally, so it
/// collides with no manufacturer's; its last four pairs are the guest's address.
pub proof fn law_mac_is_well_formed(ip: Ipv4Addr)
    ensures
        ({
            let mac = types::mac_for(ip);
            &&& mac.len() == 17
            &&& mac[0] == 'A' && mac[1] == 'A' && mac[3] == 'F' && mac[4] == 'C'
            &&& mac[2] == ':' && mac[5] == ':' && mac[8] == ':' && mac[11] == ':' && mac[14] == ':'
            &&& mac.subrange(6, 8) == types::hex2(cidr::octet(ip, 0))
            &&& mac.subrange(9, 11) == types::hex2(cidr::octet(ip, 1))
            &&& mac.subrange(12, 14) == types::hex2(cidr::octet(ip, 2))
            &&& mac.subrange(15, 17) == types::hex2(cidr::octet(ip, 3))
        }),
{
    reveal_strlit("AA:FC:");
    reveal_strlit(":");
    let mac = types::mac_for(ip);
    assert(mac.subrange(6, 8) =~= types::hex2(cidr::octet(ip, 0)));
    assert(mac.subrange(9, 11) =~= types::hex2(cidr::octet(ip, 1)));
    assert(mac.subrange(12, 14) =~= types::hex2(cidr::octet(ip, 2)));
    assert(mac.subrange(15, 17) =~= types::hex2(cidr::octet(ip, 3)));
}

/// A byte is written with its upper four bits first, in the digits 0 to 9 and A
/// to F.
pub proof fn law_bytes_in_hexadecimal(n: nat)
    requires
        n < 256,
    ensures
        types::hex2(n).len() == 2,
        digit_of(types::hex2(n)[0]) * 16 + digit_of(types::hex2(n)[1]) == n,
{
}

/// The value of an upper-case hexadecimal digit.
pub open spec fn digit_of(c: char) -> int {
    if '0' <= c && c <= '9' {
        c as int - '0' as int
    } else if 'A' <= c && c <= 'F' {
        c as int - 'A' as int + 10
    } else {
        -1
    }
}

/// A VM that gets no address is told why: it holds one already, its project's
/// subnet is used up, or there is no subnet left for a new project.
pub proof fn law_refused_allocations_say_why(
    projects: Seq<state::ProjectView>,
    project_id: u64,
    vm_id: Seq<char>,
    supernet: Ipv4Net,
    prefix: u8,
)
    requires
        state::carvable(supernet, prefix),
        state::allocation(projects, project_id, vm_id, supernet, prefix) is Err,
    ensures
        ({
            let why = state::allocation(projects, project_id, vm_id, supernet, prefix)->Err_0;
            let k = state::project_index(projects, project_id) as int;
            if k < projects.len() {
                let p = projects[k];
                let subnet = supernet.part(p.subnet_index as int, prefix);
                ||| state::holds(p.leases, vm_id) && why == "vm "@ + vm_id
                    + " already has an IP allocated"@
                ||| !state::holds(p.leases, vm_id) && (forall|ip: Ipv4Addr|
                    guest_address(subnet, ip) ==> #[trigger] state::leased(p.leases, ip)) && why
                    == "subnet "@ + cidr::net_text(subnet) + " for project "@
                    + crate::text::decimal(project_id as nat) + " is exhausted"@
            } else {
                ||| (forall|j: int|
                    0 <= j < supernet.fitting(prefix) ==> #[trigger] state::index_used(projects, j))
                    && why == "supernet "@ + cidr::net_text(supernet) + " has no free subnets"@
                ||| encode_utf8(state::bridge_name(project_id)).len() > 15 && why
                    == "bridge name "@ + crate::text::debug_quoted(state::bridge_name(project_id))
                    + " exceeds "@ + crate::text::decimal(15) + " bytes"@
            }
        }),
{
    let k = state::project_index(projects, project_id) as int;
    lemma_project_index(projects, project_id);
    if k < projects.len() {
        let p = projects[k];
        let subnet = supernet.part(p.subnet_index as int, prefix);
        cidr::lemma_part_wf(supernet, p.subnet_index as int, prefix);
        lemma_free_host(subnet, p.leases, 2);
    } else {
        lemma_free_index(projects, 0, supernet.fitting(prefix) as int);
    }
}

} // verus!
