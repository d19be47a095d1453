//! In which order VMs are shown, and how they are grouped by project.

use vstd::prelude::*;

use crate::text;
use crate::vmm::state::VmState;
use crate::vmtop::model::Vm;

verus! {

/// How VMs are ordered.
#[derive(Debug, Clone, Copy, PartialEq, Eq, Structural)]
pub enum SortOrder {
    /// Started VMs above paused above suspended above the rest; then by name.
    State,
    /// By name.
    Name,
}

/// One line of the list.
#[derive(Debug, Clone, Copy, PartialEq, Eq, Structural)]
pub enum RowId {
    /// The header of a project; counts the groups.
    Group(usize),
    /// A VM; counts the shown VMs.
    Vm(usize),
}

/// How many VMs are in which state.
#[derive(Debug, Clone, Copy, PartialEq, Eq, Structural)]
pub struct StateCounts {
    pub total: usize,
    pub started: usize,
    pub paused: usize,
    pub suspended: usize,
    pub destroyed: usize,
    /// Transitional states, and `created`.
    pub other: usize,
}

impl Default for StateCounts {
    fn default() -> (c: Self)
        ensures
            c@ == tally_of(seq![]),
    {
        StateCounts { total: 0, started: 0, paused: 0, suspended: 0, destroyed: 0, other: 0 }
    }
}

/// The header of a project.
#[derive(Debug)]
pub struct Group {
    pub project_id: u64,
    pub counts: StateCounts,
    /// The project's subnet, as the first of its VMs that has one says; all of
    /// them share it.
    pub subnet: Option<String>,
}

// ---------------------------------------------------------------------------
// Order
// ---------------------------------------------------------------------------

/// Where a state ranks, so that running VMs come first.
pub open spec fn rank_of(s: VmState) -> u8 {
    match s {
        VmState::Started => 0,
        VmState::Paused => 1,
        VmState::Suspended => 2,
        VmState::Created => 3,
        VmState::Destroyed => 5,
        _ => 4,
    }
}

/// Where a state ranks.
pub fn state_rank(state: VmState) -> (rank: u8)
    ensures
        rank == rank_of(state),
{
    match state {
        VmState::Started => 0,
        VmState::Paused => 1,
        VmState::Suspended => 2,
        VmState::Created => 3,
        VmState::Destroyed => 5,
        _ => 4,
    }
}

/// Whether a VM comes above another, by what they are ordered by.
pub open spec fn above(a: Vm, b: Vm, sort: SortOrder) -> bool {
    match sort {
        SortOrder::State => rank_of(a.state) < rank_of(b.state) || (rank_of(a.state) == rank_of(
            b.state,
        ) && text::before(a.vm_config.name@, b.vm_config.name@)),
        SortOrder::Name => text::before(a.vm_config.name@, b.vm_config.name@),
    }
}

/// Whether a VM is shown above another: VMs that are ordered alike stay in the
/// order in which they came.
pub open spec fn shown_above(all: Seq<Vm>, i: int, j: int, sort: SortOrder) -> bool {
    above(all[i], all[j], sort) || (!above(all[j], all[i], sort) && i < j)
}

/// Whether a VM is shown: it matches the filter, and an empty one matches all.
pub open spec fn visible(vm: Vm, filter: Seq<char>) -> bool {
    filter.len() == 0 || crate::vmtop::model::any_holds(
        crate::vmtop::model::searched(vm),
        text::lowered(filter),
    )
}

/// Whether `order` lists the first `n` of all VMs that are shown, in the order
/// in which they are shown.
pub open spec fn listed(
    all: Seq<Vm>,
    n: int,
    filter: Seq<char>,
    sort: SortOrder,
    order: Seq<usize>,
) -> bool {
    &&& forall|k: int|
        0 <= k < order.len() ==> (#[trigger] order[k]) < n && visible(
            all[order[k] as int],
            filter,
        )
    &&& forall|i: int|
        0 <= i < n && visible(#[trigger] all[i], filter) ==> order.contains(i as usize)
    &&& forall|k: int, l: int|
        0 <= k < l < order.len() ==> shown_above(
            all,
            (#[trigger] order[k]) as int,
            (#[trigger] order[l]) as int,
            sort,
        )
}

/// `above` orders strictly, and VMs neither of which is above the other are
/// interchangeable.
pub proof fn lemma_above_order(a: Vm, b: Vm, c: Vm, sort: SortOrder)
    ensures
        !above(a, a, sort),
        above(a, b, sort) ==> !above(b, a, sort),
        above(a, b, sort) && above(b, c, sort) ==> above(a, c, sort),
        above(a, b, sort) && !above(c, b, sort) ==> above(a, c, sort),
        !above(b, a, sort) && above(b, c, sort) ==> above(a, c, sort),
{
    text::lemma_before_order(a.vm_config.name@, b.vm_config.name@, c.vm_config.name@);
    text::lemma_before_order(b.vm_config.name@, a.vm_config.name@, c.vm_config.name@);
    text::lemma_before_order(c.vm_config.name@, b.vm_config.name@, a.vm_config.name@);
    text::lemma_before_order(a.vm_config.name@, c.vm_config.name@, b.vm_config.name@);
    text::lemma_before_order(b.vm_config.name@, c.vm_config.name@, a.vm_config.name@);
    text::lemma_before_order(c.vm_config.name@, a.vm_config.name@, b.vm_config.name@);
}

/// Whether a VM comes above another.
fn comes_above(a: &Vm, b: &Vm, sort: SortOrder) -> (r: bool)
    ensures
        r == above(*a, *b, sort),
{
    match sort {
        SortOrder::State => {
            let x = state_rank(a.state);
            let y = state_rank(b.state);
            x < y || (x == y && text::comes_before(&a.vm_config.name, &b.vm_config.name))
        },
        SortOrder::Name => text::comes_before(&a.vm_config.name, &b.vm_config.name),
    }
}

/// Whether a VM is shown.
fn is_visible(vm: &Vm, filter: &str) -> (b: bool)
    ensures
        b == visible(*vm, filter@),
{
    filter.unicode_len() == 0 || vm.matches(filter)
}

/// Where the next VM goes among those that are listed already: below all that
/// it is not above.
fn place(all: &Vec<Vm>, order: &Vec<usize>, i: usize, sort: SortOrder, Ghost(filter): Ghost<
    Seq<char>,
>) -> (p: usize)
    requires
        i < all@.len(),
        listed(all@, i as int, filter, sort, order@),
    ensures
        p <= order@.len(),
        forall|k: int|
            0 <= k < p ==> shown_above(all@, (#[trigger] order@[k]) as int, i as int, sort),
        forall|k: int|
            p <= k < order@.len() ==> shown_above(
                all@,
                i as int,
                (#[trigger] order@[k]) as int,
                sort,
            ),
{
    let mut p: usize = order.len();
    while p > 0 && comes_above(&all[i], &all[order[p - 1]], sort)
        invariant
            i < all@.len(),
            listed(all@, i as int, filter, sort, order@),
            p <= order@.len(),
            forall|k: int|
                p <= k < order@.len() ==> above(
                    all@[i as int],
                    all@[(#[trigger] order@[k]) as int],
                    sort,
                ),
        decreases p,
    {
        p -= 1;
    }
    proof {
        assert forall|k: int| 0 <= k < p implies shown_above(
            all@,
            (#[trigger] order@[k]) as int,
            i as int,
            sort,
        ) by {
            let last = order@[p - 1] as int;
            let here = order@[k] as int;
            if k < p - 1 {
                assert(shown_above(all@, order@[k] as int, order@[p - 1] as int, sort));
            }
            lemma_above_order(all@[i as int], all@[here], all@[last], sort);
            lemma_above_order(all@[here], all@[last], all@[i as int], sort);
        }
    }
    p
}

/// Inserting a VM in its place keeps the list in order.
proof fn lemma_inserted(
    all: Seq<Vm>,
    i: int,
    filter: Seq<char>,
    sort: SortOrder,
    order: Seq<usize>,
    p: int,
)
    requires
        0 <= i < all.len() <= usize::MAX,
        listed(all, i, filter, sort, order),
        visible(all[i], filter),
        0 <= p <= order.len(),
        forall|k: int| 0 <= k < p ==> shown_above(all, (#[trigger] order[k]) as int, i, sort),
        forall|k: int|
            p <= k < order.len() ==> shown_above(all, i, (#[trigger] order[k]) as int, sort),
    ensures
        listed(all, i + 1, filter, sort, order.insert(p, i as usize)),
{
    let after = order.insert(p, i as usize);
    assert forall|k: int| 0 <= k < after.len() implies (#[trigger] after[k]) < i + 1 && visible(
        all[after[k] as int],
        filter,
    ) by {
        if k < p {
            assert(after[k] == order[k]);
        } else if k > p {
            assert(after[k] == order[k - 1]);
        }
    }
    assert forall|j: int| 0 <= j < i + 1 && visible(#[trigger] all[j], filter) implies after.contains(
        j as usize,
    ) by {
        if j == i {
            assert(after[p] == i as usize);
        } else {
            let k = choose|k: int| 0 <= k < order.len() && order[k] == j as usize;
            if k < p {
                assert(after[k] == j as usize);
            } else {
                assert(after[k + 1] == j as usize);
            }
        }
    }
    assert forall|k: int, l: int| 0 <= k < l < after.len() implies shown_above(
        all,
        (#[trigger] after[k]) as int,
        (#[trigger] after[l]) as int,
        sort,
    ) by {
        let k0 = if k < p {
            k
        } else {
            k - 1
        };
        let l0 = if l < p {
            l
        } else {
            l - 1
        };
        if k != p {
            assert(after[k] == order[k0]);
        }
        if l != p {
            assert(after[l] == order[l0]);
        }
    }
}

/// The VMs that are shown, in the order in which they are shown.
pub fn list_vms(all: &Vec<Vm>, filter: &str, sort: SortOrder) -> (order: Vec<usize>)
    ensures
        listed(all@, all@.len() as int, filter@, sort, order@),
{
    let mut order: Vec<usize> = Vec::new();
    let n: usize = all.len();
    let mut i: usize = 0;
    while i < n
        invariant
            i <= n,
            n == all@.len(),
            listed(all@, i as int, filter@, sort, order@),
        decreases n - i,
    {
        if is_visible(&all[i], filter) {
            let p = place(all, &order, i, sort, Ghost(filter@));
            proof {
                lemma_inserted(all@, i as int, filter@, sort, order@, p as int);
            }
            order.insert(p, i);
        } else {
            proof {
                assert forall|j: int|
                    0 <= j < i + 1 && visible(#[trigger] all@[j], filter@) implies order@.contains(
                    j as usize,
                ) by {
                    assert(j != i);
                }
            }
        }
        i += 1;
    }
    order
}

// ---------------------------------------------------------------------------
// Counts
// ---------------------------------------------------------------------------

/// How many VMs are in which state.
pub struct Tally {
    pub total: nat,
    pub started: nat,
    pub paused: nat,
    pub suspended: nat,
    pub destroyed: nat,
    pub other: nat,
}

impl View for StateCounts {
    type V = Tally;

    open spec fn view(&self) -> Tally {
        Tally {
            total: self.total as nat,
            started: self.started as nat,
            paused: self.paused as nat,
            suspended: self.suspended as nat,
            destroyed: self.destroyed as nat,
            other: self.other as nat,
        }
    }
}

/// The counts with one more VM.
pub open spec fn tally_added(t: Tally, s: VmState) -> Tally {
    let more = Tally { total: t.total + 1, ..t };
    match s {
        VmState::Started => Tally { started: t.started + 1, ..more },
        VmState::Paused => Tally { paused: t.paused + 1, ..more },
        VmState::Suspended => Tally { suspended: t.suspended + 1, ..more },
        VmState::Destroyed => Tally { destroyed: t.destroyed + 1, ..more },
        _ => Tally { other: t.other + 1, ..more },
    }
}

/// The counts of some VMs, by their states.
pub open spec fn tally_of(states: Seq<VmState>) -> Tally
    decreases states.len(),
{
    if states.len() == 0 {
        Tally { total: 0, started: 0, paused: 0, suspended: 0, destroyed: 0, other: 0 }
    } else {
        tally_added(tally_of(states.drop_last()), states.last())
    }
}

/// Whether the counts add up.
pub open spec fn adds_up(t: Tally) -> bool {
    t.total == t.started + t.paused + t.suspended + t.destroyed + t.other
}

/// The counts of some VMs add up to their number: every VM is counted, and
/// counted once.
pub proof fn law_counts_add_up(states: Seq<VmState>)
    ensures
        adds_up(tally_of(states)),
        tally_of(states).total == states.len(),
    decreases states.len(),
{
    if states.len() > 0 {
        law_counts_add_up(states.drop_last());
    }
}

impl StateCounts {
    /// Counts one more VM.
    pub fn add(&mut self, state: VmState)
        requires
            adds_up(old(self)@),
            old(self).total < usize::MAX,
        ensures
            final(self)@ == tally_added(old(self)@, state),
            adds_up(final(self)@),
    {
        self.total = self.total + 1;
        match state {
            VmState::Started => {
                self.started = self.started + 1;
            },
            VmState::Paused => {
                self.paused = self.paused + 1;
            },
            VmState::Suspended => {
                self.suspended = self.suspended + 1;
            },
            VmState::Destroyed => {
                self.destroyed = self.destroyed + 1;
            },
            _ => {
                self.other = self.other + 1;
            },
        }
    }
}

/// The states of VMs.
pub open spec fn states_of(vms: Seq<Vm>) -> Seq<VmState> {
    vms.map_values(|vm: Vm| vm.state)
}

/// Counts VMs by their states.
pub fn count_states(vms: &Vec<Vm>) -> (counts: StateCounts)
    ensures
        counts@ == tally_of(states_of(vms@)),
{
    let mut counts = StateCounts::default();
    let n: usize = vms.len();
    let mut i: usize = 0;
    proof {
        assert(states_of(vms@).take(0) =~= seq![]);
    }
    while i < n
        invariant
            i <= n,
            n == vms@.len(),
            counts@ == tally_of(states_of(vms@).take(i as int)),
            adds_up(counts@),
            counts.total == i,
        decreases n - i,
    {
        proof {
            let s = states_of(vms@);
            assert(s.take(i as int + 1).drop_last() =~= s.take(i as int));
            assert(s.take(i as int + 1).last() == vms@[i as int].state);
        }
        counts.add(vms[i].state);
        i += 1;
    }
    proof {
        assert(states_of(vms@).take(n as int) =~= states_of(vms@));
    }
    counts
}

// ---------------------------------------------------------------------------
// Groups
// ---------------------------------------------------------------------------

/// The projects of the VMs that are shown.
pub open spec fn projects_shown(all: Seq<Vm>, order: Seq<usize>) -> Seq<u64> {
    order.map_values(|i: usize| all[i as int].vm_config.project_id)
}

/// Whether `projects` lists each of some project numbers once, in ascending
/// order.
pub open spec fn ascending(pids: Seq<u64>, projects: Seq<u64>) -> bool {
    &&& forall|k: int, l: int|
        0 <= k < l < projects.len() ==> #[trigger] projects[k] < #[trigger] projects[l]
    &&& forall|p: u64| projects.contains(p) <==> pids.contains(p)
}

/// Adds a project in its place, unless it is listed.
fn add_project(projects: &mut Vec<u64>, p: u64, Ghost(pids): Ghost<Seq<u64>>)
    requires
        ascending(pids, old(projects)@),
    ensures
        ascending(pids.push(p), final(projects)@),
{
    let ghost before = projects@;
    let mut at: usize = 0;
    while at < projects.len() && projects[at] < p
        invariant
            at <= projects@.len(),
            projects@ == before,
            forall|k: int| 0 <= k < at ==> before[k] < p,
        decreases projects@.len() - at,
    {
        at += 1;
    }
    proof {
        assert(forall|q: u64| pids.push(p).contains(q) <==> pids.contains(q) || q == p) by {
            assert forall|q: u64| pids.push(p).contains(q) <==> pids.contains(q) || q == p by {
                if pids.contains(q) {
                    let k = choose|k: int| 0 <= k < pids.len() && pids[k] == q;
                    assert(pids.push(p)[k] == q);
                }
                if q == p {
                    assert(pids.push(p)[pids.len() as int] == p);
                }
            }
        }
    }
    if at < projects.len() && projects[at] == p {
        proof {
            assert(before.contains(p));
        }
        return;
    }
    projects.insert(at, p);
    proof {
        let after = projects@;
        assert forall|k: int, l: int| 0 <= k < l < after.len() implies #[trigger] after[k]
            < #[trigger] after[l] by {
            let k0 = if k < at {
                k
            } else {
                k - 1
            };
            let l0 = if l < at {
                l
            } else {
                l - 1
            };
            if k != at {
                assert(after[k] == before[k0]);
            }
            if l != at {
                assert(after[l] == before[l0]);
            }
            if k == at {
                assert(before[at as int] > p);
                assert(before[at as int] <= before[l0]);
            }
        }
        assert forall|q: u64| after.contains(q) <==> pids.push(p).contains(q) by {
            if after.contains(q) {
                let k = choose|k: int| 0 <= k < after.len() && after[k] == q;
                if k < at {
                    assert(before[k] == q);
                } else if k > at {
                    assert(before[k - 1] == q);
                }
                assert(q == p || before.contains(q));
            }
            if before.contains(q) {
                let k = choose|k: int| 0 <= k < before.len() && before[k] == q;
                if k < at {
                    assert(after[k] == q);
                } else {
                    assert(after[k + 1] == q);
                }
            }
            if q == p {
                assert(after[at as int] == p);
            }
        }
    }
}

/// The projects of some VMs, each once, in ascending order.
fn list_projects(all: &Vec<Vm>, order: &Vec<usize>) -> (projects: Vec<u64>)
    requires
        forall|k: int| 0 <= k < order@.len() ==> (#[trigger] order@[k]) < all@.len(),
    ensures
        ascending(projects_shown(all@, order@), projects@),
{
    let mut projects: Vec<u64> = Vec::new();
    let ghost pids = projects_shown(all@, order@);
    let mut k: usize = 0;
    while k < order.len()
        invariant
            k <= order@.len(),
            pids == projects_shown(all@, order@),
            forall|k: int| 0 <= k < order@.len() ==> (#[trigger] order@[k]) < all@.len(),
            ascending(pids.take(k as int), projects@),
        decreases order@.len() - k,
    {
        add_project(
            &mut projects,
            all[order[k]].vm_config.project_id,
            Ghost(pids.take(k as int)),
        );
        proof {
            assert(pids.take(k as int + 1) =~= pids.take(k as int).push(pids[k as int]));
        }
        k += 1;
    }
    proof {
        assert(pids.take(pids.len() as int) =~= pids);
    }
    projects
}

/// The rows of a project's VMs among the first `n` that are shown.
pub open spec fn member_rows(pids: Seq<u64>, p: u64, n: nat) -> Seq<RowId>
    decreases n,
{
    if n == 0 {
        seq![]
    } else {
        let rest = member_rows(pids, p, (n - 1) as nat);
        if pids[n - 1] == p {
            rest.push(RowId::Vm((n - 1) as usize))
        } else {
            rest
        }
    }
}

/// All rows when VMs are grouped: for each project its header, then its VMs.
pub open spec fn grouped_rows(pids: Seq<u64>, projects: Seq<u64>) -> Seq<RowId>
    decreases projects.len(),
{
    if projects.len() == 0 {
        seq![]
    } else {
        grouped_rows(pids, projects.drop_last()) + seq![
            RowId::Group((projects.len() - 1) as usize),
        ] + member_rows(pids, projects.last(), pids.len())
    }
}

/// All rows when VMs are not grouped.
pub open spec fn flat_rows(n: nat) -> Seq<RowId> {
    Seq::new(n, |i: int| RowId::Vm(i as usize))
}

/// The states of a project's VMs among the first `n` that are shown.
pub open spec fn member_states(all: Seq<Vm>, order: Seq<usize>, p: u64, n: nat) -> Seq<VmState>
    decreases n,
{
    if n == 0 {
        seq![]
    } else {
        let rest = member_states(all, order, p, (n - 1) as nat);
        let vm = all[order[n - 1] as int];
        if vm.vm_config.project_id == p {
            rest.push(vm.state)
        } else {
            rest
        }
    }
}

/// The subnet of a project, as the first of its VMs among the first `n` that
/// are shown says that has one.
pub open spec fn member_subnet(all: Seq<Vm>, order: Seq<usize>, p: u64, n: nat) -> Option<Seq<char>>
    decreases n,
{
    if n == 0 {
        None
    } else {
        match member_subnet(all, order, p, (n - 1) as nat) {
            Some(subnet) => Some(subnet),
            None => {
                let vm = all[order[n - 1] as int];
                if vm.vm_config.project_id == p && vm.net is Some {
                    Some(vm.net->0.subnet@)
                } else {
                    None
                }
            },
        }
    }
}

/// Whether a header is that of a project.
pub open spec fn heads(g: Group, all: Seq<Vm>, order: Seq<usize>, p: u64) -> bool {
    &&& g.project_id == p
    &&& g.counts@ == tally_of(member_states(all, order, p, order.len()))
    &&& text::opt_view(g.subnet) == member_subnet(all, order, p, order.len())
}

/// Adds a project's header and rows.
fn add_group(
    all: &Vec<Vm>,
    order: &Vec<usize>,
    p: u64,
    groups: &mut Vec<Group>,
    rows: &mut Vec<RowId>,
)
    requires
        forall|k: int| 0 <= k < order@.len() ==> (#[trigger] order@[k]) < all@.len(),
    ensures
        final(groups)@.len() == old(groups)@.len() + 1,
        final(groups)@.drop_last() == old(groups)@,
        heads(final(groups)@.last(), all@, order@, p),
        final(rows)@ == old(rows)@ + seq![RowId::Group(old(groups)@.len() as usize)] + member_rows(
            projects_shown(all@, order@),
            p,
            order@.len(),
        ),
{
    let ghost pids = projects_shown(all@, order@);
    let ghost head = rows@ + seq![RowId::Group(groups@.len() as usize)];
    let n: usize = order.len();
    let mut counts = StateCounts::default();
    let mut subnet: Option<String> = None;
    rows.push(RowId::Group(groups.len()));
    let mut k: usize = 0;
    proof {
        assert(rows@ =~= head + member_rows(pids, p, 0));
    }
    while k < n
        invariant
            k <= n,
            n == order@.len(),
            pids == projects_shown(all@, order@),
            forall|k: int| 0 <= k < order@.len() ==> (#[trigger] order@[k]) < all@.len(),
            rows@ == head + member_rows(pids, p, k as nat),
            counts@ == tally_of(member_states(all@, order@, p, k as nat)),
            adds_up(counts@),
            counts.total <= k,
            text::opt_view(subnet) == member_subnet(all@, order@, p, k as nat),
        decreases n - k,
    {
        let vm = &all[order[k]];
        if vm.vm_config.project_id == p {
            let ghost states = member_states(all@, order@, p, k as nat);
            proof {
                assert(states.push(vm.state).drop_last() =~= states);
            }
            counts.add(vm.state);
            rows.push(RowId::Vm(k));
            if subnet.is_none() {
                if let Some(net) = &vm.net {
                    subnet = Some(net.subnet.clone());
                }
            }
            proof {
                assert(rows@ =~= head + member_rows(pids, p, (k + 1) as nat));
            }
        }
        k += 1;
    }
    groups.push(Group { project_id: p, counts, subnet });
    proof {
        assert(groups@.drop_last() =~= old(groups)@);
    }
}

/// The projects of headers.
pub open spec fn project_ids(groups: Seq<Group>) -> Seq<u64> {
    groups.map_values(|g: Group| g.project_id)
}

/// Whether headers and rows are those of the VMs that are shown.
pub open spec fn laid_out(
    all: Seq<Vm>,
    order: Seq<usize>,
    grouped: bool,
    groups: Seq<Group>,
    rows: Seq<RowId>,
) -> bool {
    if grouped {
        let projects = project_ids(groups);
        &&& ascending(projects_shown(all, order), projects)
        &&& forall|g: int|
            0 <= g < groups.len() ==> heads(
                #[trigger] groups[g],
                all,
                order,
                groups[g].project_id,
            )
        &&& rows == grouped_rows(projects_shown(all, order), projects)
    } else {
        groups.len() == 0 && rows == flat_rows(order.len())
    }
}

/// The headers and rows of the VMs that are shown.
pub fn lay_out(all: &Vec<Vm>, order: &Vec<usize>, grouped: bool) -> (r: (Vec<Group>, Vec<RowId>))
    requires
        forall|k: int| 0 <= k < order@.len() ==> (#[trigger] order@[k]) < all@.len(),
    ensures
        laid_out(all@, order@, grouped, r.0@, r.1@),
{
    let mut groups: Vec<Group> = Vec::new();
    let mut rows: Vec<RowId> = Vec::new();
    if grouped {
        let projects = list_projects(all, order);
        let ghost pids = projects_shown(all@, order@);
        let mut g: usize = 0;
        proof {
            assert(projects@.take(0) =~= seq![]);
            assert(project_ids(groups@) =~= projects@.take(0));
        }
        while g < projects.len()
            invariant
                g <= projects@.len(),
                pids == projects_shown(all@, order@),
                forall|k: int| 0 <= k < order@.len() ==> (#[trigger] order@[k]) < all@.len(),
                groups@.len() == g,
                project_ids(groups@) == projects@.take(g as int),
                forall|h: int|
                    0 <= h < groups@.len() ==> heads(
                        #[trigger] groups@[h],
                        all@,
                        order@,
                        groups@[h].project_id,
                    ),
                rows@ == grouped_rows(pids, projects@.take(g as int)),
            decreases projects@.len() - g,
        {
            let ghost before = groups@;
            add_group(all, order, projects[g], &mut groups, &mut rows);
            proof {
                let after = groups@;
                assert(projects@.take(g as int + 1).drop_last() =~= projects@.take(g as int));
                assert forall|h: int| 0 <= h < after.len() implies heads(
                    #[trigger] after[h],
                    all@,
                    order@,
                    after[h].project_id,
                ) by {
                    if h < before.len() {
                        assert(after.drop_last()[h] == before[h]);
                        assert(after[h] == before[h]);
                    }
                }
                assert forall|h: int| 0 <= h < after.len() implies #[trigger] project_ids(after)[h]
                    == projects@.take(g as int + 1)[h] by {
                    if h < before.len() {
                        assert(after.drop_last()[h] == before[h]);
                        assert(project_ids(before)[h] == projects@.take(g as int)[h]);
                    }
                }
                assert(project_ids(after) =~= projects@.take(g as int + 1));
            }
            g += 1;
        }
        proof {
            assert(projects@.take(projects@.len() as int) =~= projects@);
        }
    } else {
        let mut k: usize = 0;
        while k < order.len()
            invariant
                k <= order@.len(),
                groups@.len() == 0,
                rows@ == flat_rows(k as nat),
            decreases order@.len() - k,
        {
            rows.push(RowId::Vm(k));
            proof {
                assert(rows@ =~= flat_rows((k + 1) as nat));
            }
            k += 1;
        }
    }
    (groups, rows)
}

// ---------------------------------------------------------------------------
// Laws
// ---------------------------------------------------------------------------

/// Whether VMs are in the order in which they are shown.
spec fn in_order(all: Seq<Vm>, sort: SortOrder, order: Seq<usize>) -> bool {
    forall|k: int, l: int|
        0 <= k < l < order.len() ==> shown_above(
            all,
            (#[trigger] order[k]) as int,
            (#[trigger] order[l]) as int,
            sort,
        )
}

proof fn lemma_same_members_same_order(
    all: Seq<Vm>,
    sort: SortOrder,
    a: Seq<usize>,
    b: Seq<usize>,
)
    requires
        in_order(all, sort, a),
        in_order(all, sort, b),
        forall|x: usize| a.contains(x) <==> b.contains(x),
    ensures
        a == b,
    decreases a.len(),
{
    if a.len() == 0 {
        if b.len() > 0 {
            assert(b.contains(b[0]));
        }
        assert(a =~= b);
    } else {
        let x = a.last();
        assert(a.contains(x));
        let k = choose|k: int| 0 <= k < b.len() && b[k] == x;
        let y = b.last();
        assert(b.contains(y));
        let l = choose|l: int| 0 <= l < a.len() && a[l] == y;
        lemma_above_order(all[x as int], all[y as int], all[x as int], sort);
        lemma_above_order(all[y as int], all[x as int], all[y as int], sort);
        if x != y {
            assert(shown_above(all, b[k] as int, b[b.len() - 1] as int, sort));
            assert(shown_above(all, a[l] as int, a[a.len() - 1] as int, sort));
            assert(false);
        }
        let a0 = a.drop_last();
        let b0 = b.drop_last();
        assert forall|k: int, l: int| 0 <= k < l < a0.len() implies shown_above(
            all,
            (#[trigger] a0[k]) as int,
            (#[trigger] a0[l]) as int,
            sort,
        ) by {
            assert(shown_above(all, a[k] as int, a[l] as int, sort));
        }
        assert forall|k: int, l: int| 0 <= k < l < b0.len() implies shown_above(
            all,
            (#[trigger] b0[k]) as int,
            (#[trigger] b0[l]) as int,
            sort,
        ) by {
            assert(shown_above(all, b[k] as int, b[l] as int, sort));
        }
        assert forall|z: usize| a0.contains(z) <==> b0.contains(z) by {
            if a0.contains(z) {
                let i = choose|i: int| 0 <= i < a0.len() && a0[i] == z;
                assert(a[i] == z);
                assert(shown_above(all, a[i] as int, a[a.len() - 1] as int, sort));
                assert(z != x);
                assert(b.contains(z));
                let j = choose|j: int| 0 <= j < b.len() && b[j] == z;
                assert(b0[j] == z);
            }
            if b0.contains(z) {
                let i = choose|i: int| 0 <= i < b0.len() && b0[i] == z;
                assert(b[i] == z);
                assert(shown_above(all, b[i] as int, b[b.len() - 1] as int, sort));
                assert(z != x);
                assert(a.contains(z));
                let j = choose|j: int| 0 <= j < a.len() && a[j] == z;
                assert(a0[j] == z);
            }
        }
        lemma_same_members_same_order(all, sort, a0, b0);
        assert(a =~= a0.push(x));
        assert(b =~= b0.push(y));
    }
}

/// There is just one way to list the VMs that are shown: showing the same VMs
/// again gives the same list.
pub proof fn law_listing_is_unique(
    all: Seq<Vm>,
    filter: Seq<char>,
    sort: SortOrder,
    a: Seq<usize>,
    b: Seq<usize>,
)
    requires
        all.len() <= usize::MAX,
        listed(all, all.len() as int, filter, sort, a),
        listed(all, all.len() as int, filter, sort, b),
    ensures
        a == b,
{
    assert forall|x: usize| a.contains(x) <==> b.contains(x) by {
        if a.contains(x) {
            let k = choose|k: int| 0 <= k < a.len() && a[k] == x;
            assert(visible(all[a[k] as int], filter));
            assert(b.contains((x as int) as usize));
        }
        if b.contains(x) {
            let k = choose|k: int| 0 <= k < b.len() && b[k] == x;
            assert(visible(all[b[k] as int], filter));
            assert(a.contains((x as int) as usize));
        }
    }
    lemma_same_members_same_order(all, sort, a, b);
}

/// A VM of a project is among the rows of that project.
proof fn lemma_member_has_row(pids: Seq<u64>, k: int, n: nat)
    requires
        0 <= k < n <= pids.len() <= usize::MAX,
    ensures
        member_rows(pids, pids[k], n).contains(RowId::Vm(k as usize)),
    decreases n,
{
    let full = member_rows(pids, pids[k], n);
    let rest = member_rows(pids, pids[k], (n - 1) as nat);
    if k == n - 1 {
        assert(full[rest.len() as int] == RowId::Vm(k as usize));
    } else {
        lemma_member_has_row(pids, k, (n - 1) as nat);
        let j = choose|j: int| 0 <= j < rest.len() && rest[j] == RowId::Vm(k as usize);
        assert(full[j] == RowId::Vm(k as usize));
    }
}

proof fn lemma_grouped_has_row(pids: Seq<u64>, projects: Seq<u64>, k: int)
    requires
        0 <= k < pids.len() <= usize::MAX,
        projects.contains(pids[k]),
    ensures
        grouped_rows(pids, projects).contains(RowId::Vm(k as usize)),
    decreases projects.len(),
{
    let full = grouped_rows(pids, projects);
    let init = grouped_rows(pids, projects.drop_last());
    let members = member_rows(pids, projects.last(), pids.len());
    let p = choose|p: int| 0 <= p < projects.len() && projects[p] == pids[k];
    if p == projects.len() - 1 {
        lemma_member_has_row(pids, k, pids.len());
        let j = choose|j: int| 0 <= j < members.len() && members[j] == RowId::Vm(k as usize);
        assert(full[init.len() + 1 + j] == RowId::Vm(k as usize));
    } else {
        assert(projects.drop_last()[p] == pids[k]);
        lemma_grouped_has_row(pids, projects.drop_last(), k);
        let j = choose|j: int| 0 <= j < init.len() && init[j] == RowId::Vm(k as usize);
        assert(full[j] == RowId::Vm(k as usize));
    }
}

/// Every VM that matches the filter has a row, grouped or not.
pub proof fn law_every_match_has_a_row(
    all: Seq<Vm>,
    filter: Seq<char>,
    sort: SortOrder,
    order: Seq<usize>,
    grouped: bool,
    groups: Seq<Group>,
    rows: Seq<RowId>,
    i: int,
)
    requires
        all.len() <= usize::MAX,
        order.len() <= usize::MAX,
        listed(all, all.len() as int, filter, sort, order),
        laid_out(all, order, grouped, groups, rows),
        0 <= i < all.len(),
        visible(all[i], filter),
    ensures
        exists|r: int|
            0 <= r < rows.len() && #[trigger] rows[r] is Vm && rows[r]->Vm_0 < order.len()
                && order[rows[r]->Vm_0 as int] == i,
{
    assert(order.contains(i as usize));
    let k = choose|k: int| 0 <= k < order.len() && order[k] == i as usize;
    if grouped {
        let pids = projects_shown(all, order);
        let projects = project_ids(groups);
        assert(pids.contains(pids[k]));
        assert(projects.contains(pids[k]));
        lemma_grouped_has_row(pids, projects, k);
        let r = choose|r: int| 0 <= r < rows.len() && rows[r] == RowId::Vm(k as usize);
        assert(rows[r]->Vm_0 == k);
    } else {
        assert(rows[k] == RowId::Vm(k as usize));
    }
}

} // verus!
