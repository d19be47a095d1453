//! What the dashboard promises: which VMs are shown and where, and what keys do
//! to the selection and to the filter.

use vstd::prelude::*;

use crate::text;
use crate::vmm::state::VmState;
use crate::vmtop::app::{
    commanded, jumped, moved_by, typed, without_prefix, without_slashes, App, Key,
};
use crate::vmtop::listing::{
    above, grouped_rows, member_rows, member_states, member_subnet, rank_of, tally_of, visible,
    RowId, SortOrder,
};
use crate::vmtop::model::{searched, Vm};
use crate::vmtop::view::{cpus_of, index_in, memory_of, projects_in, vm_rows_of, VmView};

verus! {

// ---------------------------------------------------------------------------
// Filter and order
// ---------------------------------------------------------------------------

/// Whether a text, in lower case, contains another.
pub open spec fn mentions(s: Seq<char>, needle: Seq<char>) -> bool {
    text::find_text(text::lowered(s), text::lowered(needle)) is Some
}

/// A VM is found by everything that people see of it: its id, the name they
/// gave, its image, its state, its tags, its address and its subnet, and by
/// nothing else; an empty filter finds all.
pub proof fn law_vm_is_found_by_what_is_seen(vm: Vm, filter: Seq<char>)
    ensures
        visible(vm, filter) <==> filter.len() == 0 || mentions(vm.vm_id@, filter) || mentions(
            vm.vm_config.name@,
            filter,
        ) || mentions(vm.vm_config.image@, filter) || text::find_text(
            crate::vmtop::model::state_label(vm.state),
            text::lowered(filter),
        ) is Some || (exists|i: int|
            0 <= i < vm.vm_config.tags@.len() && #[trigger] mentions(
                vm.vm_config.tags@[i]@,
                filter,
            )) || (vm.net is Some && (text::find_text(
            vm.net->0.guest_ip@,
            text::lowered(filter),
        ) is Some || text::find_text(vm.net->0.subnet@, text::lowered(filter)) is Some)),
{
    let texts = searched(vm);
    let n = vm.vm_config.tags@.len() as int;
    let low = text::lowered(filter);
    assert(texts[0] == text::lowered(vm.vm_id@));
    assert(texts[1] == text::lowered(vm.vm_config.name@));
    assert(texts[2] == text::lowered(vm.vm_config.image@));
    assert(texts[3] == crate::vmtop::model::state_label(vm.state));
    assert forall|i: int| 0 <= i < n implies #[trigger] texts[4 + i] == text::lowered(
        vm.vm_config.tags@[i]@,
    ) by {}
    if vm.net is Some {
        assert(texts[4 + n] == vm.net->0.guest_ip@);
        assert(texts[5 + n] == vm.net->0.subnet@);
        assert(texts.len() == 6 + n);
    } else {
        assert(texts.len() == 4 + n);
    }
    if exists|i: int|
        0 <= i < n && #[trigger] mentions(vm.vm_config.tags@[i]@, filter) {
        let i = choose|i: int|
            0 <= i < n && #[trigger] mentions(vm.vm_config.tags@[i]@, filter);
        assert(text::find_text(texts[4 + i], low) is Some);
    }
    if crate::vmtop::model::any_holds(texts, low) {
        let k = choose|k: int|
            0 <= k < texts.len() && text::find_text(#[trigger] texts[k], low) is Some;
        if 4 <= k < 4 + n {
            assert(texts[4 + (k - 4)] == text::lowered(vm.vm_config.tags@[k - 4]@));
            assert(mentions(vm.vm_config.tags@[k - 4]@, filter));
        }
    }
}

/// Running VMs come first, then paused, then suspended ones, then those that
/// were created, then those on the move; what is destroyed comes last.
pub proof fn law_running_vms_come_first(s: VmState)
    ensures
        rank_of(VmState::Started) < rank_of(VmState::Paused),
        rank_of(VmState::Paused) < rank_of(VmState::Suspended),
        rank_of(VmState::Suspended) < rank_of(VmState::Created),
        !crate::vmm::state::stable(s) ==> rank_of(VmState::Created) < rank_of(s) < rank_of(
            VmState::Destroyed,
        ),
{
}

/// By state, a VM in a state that ranks higher stands above whatever it is
/// called, and VMs of one rank stand by name; by name, the state makes no
/// difference.
pub proof fn law_vms_are_ordered_as_asked(a: Vm, b: Vm)
    ensures
        rank_of(a.state) < rank_of(b.state) ==> above(a, b, SortOrder::State) && !above(
            b,
            a,
            SortOrder::State,
        ),
        a.state == b.state ==> above(a, b, SortOrder::State) == text::before(
            a.vm_config.name@,
            b.vm_config.name@,
        ),
        above(a, b, SortOrder::Name) == text::before(a.vm_config.name@, b.vm_config.name@),
{
}

// ---------------------------------------------------------------------------
// Counts and sums
// ---------------------------------------------------------------------------

/// How many of some states are the given one.
pub open spec fn occurrences(states: Seq<VmState>, s: VmState) -> nat {
    states.filter(|t: VmState| t == s).len()
}

/// A header counts the VMs that are started, paused, suspended and destroyed,
/// each by itself; all others together.
pub proof fn law_states_are_counted(states: Seq<VmState>)
    ensures
        tally_of(states).started == occurrences(states, VmState::Started),
        tally_of(states).paused == occurrences(states, VmState::Paused),
        tally_of(states).suspended == occurrences(states, VmState::Suspended),
        tally_of(states).destroyed == occurrences(states, VmState::Destroyed),
    decreases states.len(),
{
    reveal(Seq::filter);
    if states.len() > 0 {
        law_states_are_counted(states.drop_last());
    }
}

/// What the VMs of a host were allotted adds up.
pub proof fn law_allotments_add_up(a: Seq<Vm>, b: Seq<Vm>, vm: Vm)
    ensures
        cpus_of(a + b) == cpus_of(a) + cpus_of(b),
        memory_of(a + b) == memory_of(a) + memory_of(b),
        cpus_of(seq![vm]) == vm.vm_config.cpus,
        memory_of(seq![vm]) == vm.vm_config.memory_mb,
        cpus_of(seq![]) == 0,
        memory_of(seq![]) == 0,
    decreases b.len(),
{
    let none = seq![vm].drop_last();
    assert(none.len() == 0);
    assert(cpus_of(none) == 0 && memory_of(none) == 0);
    assert(seq![vm].last() == vm);
    if b.len() == 0 {
        assert(a + b =~= a);
    } else {
        law_allotments_add_up(a, b.drop_last(), vm);
        assert((a + b).drop_last() =~= a + b.drop_last());
        assert((a + b).last() == b.last());
    }
}

/// The projects of a host are those that some VM belongs to.
pub proof fn law_projects_have_vms(vms: Seq<Vm>, p: u64)
    ensures
        projects_in(vms).contains(p) <==> exists|i: int|
            0 <= i < vms.len() && (#[trigger] vms[i]).vm_config.project_id == p,
    decreases vms.len(),
{
    if vms.len() > 0 {
        let rest = vms.drop_last();
        law_projects_have_vms(rest, p);
        assert(forall|i: int| 0 <= i < rest.len() ==> rest[i] == #[trigger] vms[i]);
        assert(vms[vms.len() - 1] == vms.last());
    }
}

// ---------------------------------------------------------------------------
// Groups
// ---------------------------------------------------------------------------

/// The rows of a project are those of its VMs.
proof fn lemma_member_rows(pids: Seq<u64>, p: u64, n: nat)
    requires
        n <= pids.len() <= usize::MAX,
    ensures
        forall|j: int|
            0 <= j < member_rows(pids, p, n).len() ==> (#[trigger] member_rows(pids, p, n)[j]) is Vm
                && member_rows(pids, p, n)[j]->Vm_0 < n && pids[member_rows(
                pids,
                p,
                n,
            )[j]->Vm_0 as int] == p,
    decreases n,
{
    if n > 0 {
        lemma_member_rows(pids, p, (n - 1) as nat);
    }
}

/// Whether row `r` stands under the header of group `g`: behind it, with no other
/// header in between.
pub open spec fn under(rows: Seq<RowId>, r: int, g: int) -> bool {
    exists|h: int|
        0 <= h < r && #[trigger] rows[h] == RowId::Group(g as usize) && forall|m: int|
            h < m <= r ==> #[trigger] rows[m] is Vm
}

/// Where VMs are grouped, each stands under the header of its own project.
pub proof fn law_vms_stand_under_their_project(
    pids: Seq<u64>,
    projects: Seq<u64>,
    r: int,
)
    requires
        pids.len() <= usize::MAX,
        projects.len() <= usize::MAX,
        0 <= r < grouped_rows(pids, projects).len(),
        grouped_rows(pids, projects)[r] is Vm,
    ensures
        ({
            let k = grouped_rows(pids, projects)[r]->Vm_0 as int;
            k < pids.len() && exists|g: int|
                0 <= g < projects.len() && #[trigger] projects[g] == pids[k] && under(
                    grouped_rows(pids, projects),
                    r,
                    g,
                )
        }),
    decreases projects.len(),
{
    let rows = grouped_rows(pids, projects);
    if projects.len() > 0 {
        let rest = projects.drop_last();
        let first = grouped_rows(pids, rest);
        let members = member_rows(pids, projects.last(), pids.len());
        let head = seq![RowId::Group((projects.len() - 1) as usize)];
        assert(rows == first + head + members);
        if r < first.len() {
            assert(rows[r] == first[r]);
            law_vms_stand_under_their_project(pids, rest, r);
            let k = first[r]->Vm_0 as int;
            let g = choose|g: int|
                0 <= g < rest.len() && #[trigger] rest[g] == pids[k] && under(first, r, g);
            let h = choose|h: int|
                0 <= h < r && #[trigger] first[h] == RowId::Group(g as usize) && forall|m: int|
                    h < m <= r ==> #[trigger] first[m] is Vm;
            assert(rows[h] == first[h]);
            assert forall|m: int| h < m <= r implies #[trigger] rows[m] is Vm by {
                assert(rows[m] == first[m]);
            }
            assert(under(rows, r, g));
            assert(projects[g] == rest[g]);
        } else {
            let h = first.len() as int;
            let g = projects.len() - 1;
            lemma_member_rows(pids, projects.last(), pids.len());
            assert(rows[h] == head[0]);
            assert(r > h);
            assert(rows[r] == members[r - h - 1]);
            assert forall|m: int| h < m <= r implies #[trigger] rows[m] is Vm by {
                assert(rows[m] == members[m - h - 1]);
            }
            assert(under(rows, r, g));
            assert(projects[g] == projects.last());
        }
    }
}

/// The states that a header counts are those of the project's VMs, and the
/// subnet that it names is one of theirs; it names none only if none has one.
pub proof fn law_header_is_of_its_vms(all: Seq<Vm>, order: Seq<usize>, p: u64, n: nat)
    requires
        n <= order.len(),
    ensures
        forall|s: VmState|
            member_states(all, order, p, n).contains(s) <==> exists|k: int|
                0 <= k < n && (#[trigger] all[order[k] as int]).vm_config.project_id == p
                    && all[order[k] as int].state == s,
        match member_subnet(all, order, p, n) {
            Some(subnet) => exists|k: int|
                0 <= k < n && (#[trigger] all[order[k] as int]).vm_config.project_id == p
                    && all[order[k] as int].net is Some && all[order[k] as int].net->0.subnet@
                    == subnet,
            None => forall|k: int|
                0 <= k < n && (#[trigger] all[order[k] as int]).vm_config.project_id == p
                    ==> all[order[k] as int].net is None,
        },
    decreases n,
{
    if n > 0 {
        let m = (n - 1) as nat;
        law_header_is_of_its_vms(all, order, p, m);
        let vm = all[order[n - 1] as int];
        let rest = member_states(all, order, p, m);
        assert forall|s: VmState|
            member_states(all, order, p, n).contains(s) <==> exists|k: int|
                0 <= k < n && (#[trigger] all[order[k] as int]).vm_config.project_id == p
                    && all[order[k] as int].state == s by {
            vstd::seq_lib::lemma_seq_contains_after_push(rest, vm.state, s);
            if vm.vm_config.project_id == p && vm.state == s {
                assert(all[order[n - 1] as int].state == s);
            }
            if rest.contains(s) {
                let k = choose|k: int|
                    0 <= k < m && (#[trigger] all[order[k] as int]).vm_config.project_id == p
                        && all[order[k] as int].state == s;
                assert(0 <= k < n);
            }
        }
    }
}

// ---------------------------------------------------------------------------
// Moving
// ---------------------------------------------------------------------------

/// The rows of VMs in ascending order, and all of them.
proof fn lemma_vm_rows(rows: Seq<RowId>)
    requires
        rows.len() <= usize::MAX,
    ensures
        forall|i: int, j: int|
            0 <= i < j < vm_rows_of(rows).len() ==> (#[trigger] vm_rows_of(rows)[i]) < (
            #[trigger] vm_rows_of(rows)[j]),
        forall|i: int|
            0 <= i < vm_rows_of(rows).len() ==> (#[trigger] vm_rows_of(rows)[i]) < rows.len()
                && rows[vm_rows_of(rows)[i] as int] is Vm,
        forall|r: int|
            0 <= r < rows.len() && #[trigger] rows[r] is Vm ==> exists|i: int|
                0 <= i < vm_rows_of(rows).len() && #[trigger] vm_rows_of(rows)[i] == r,
    decreases rows.len(),
{
    if rows.len() > 0 {
        let rest = rows.drop_last();
        lemma_vm_rows(rest);
        let a = vm_rows_of(rest);
        let b = vm_rows_of(rows);
        assert(forall|i: int| 0 <= i < a.len() ==> #[trigger] b[i] == a[i]);
        assert forall|r: int| 0 <= r < rows.len() && #[trigger] rows[r] is Vm implies exists|i: int|
            0 <= i < b.len() && #[trigger] b[i] == r by {
            if r < rest.len() {
                assert(rest[r] == rows[r]);
                let i = choose|i: int| 0 <= i < a.len() && #[trigger] a[i] == r;
                assert(b[i] == r);
            } else {
                assert(b[b.len() - 1] == r);
            }
        }
    }
}

/// A row that is listed is found.
proof fn lemma_index_in(rows: Seq<usize>, row: usize)
    ensures
        index_in(rows, row) <= rows.len(),
        index_in(rows, row) < rows.len() ==> rows[index_in(rows, row) as int] == row,
        index_in(rows, row) == rows.len() ==> !rows.contains(row),
    decreases rows.len(),
{
    if rows.len() > 0 && rows[0] != row {
        let rest = rows.drop_first();
        lemma_index_in(rest, row);
        if index_in(rows, row) == rows.len() && rows.contains(row) {
            let i = choose|i: int| 0 <= i < rows.len() && rows[i] == row;
            assert(rest[i - 1] == row);
        }
    }
}

/// Whether `to` is the next VM row behind `from`, or `from` itself if it is the
/// last.
pub open spec fn next_vm_row(rows: Seq<RowId>, from: int, to: int) -> bool {
    &&& from <= to < rows.len()
    &&& rows[to] is Vm
    &&& from < to ==> forall|r: int| from < r < to ==> !(#[trigger] rows[r] is Vm)
    &&& from == to ==> forall|r: int| from < r < rows.len() ==> !(#[trigger] rows[r] is Vm)
}

/// Whether `to` is the VM row right before `from`, or `from` itself if it is the
/// first.
pub open spec fn previous_vm_row(rows: Seq<RowId>, from: int, to: int) -> bool {
    &&& 0 <= to <= from
    &&& rows[to] is Vm
    &&& to < from ==> forall|r: int| to < r < from ==> !(#[trigger] rows[r] is Vm)
    &&& from == to ==> forall|r: int| 0 <= r < from ==> !(#[trigger] rows[r] is Vm)
}

/// Moving by one leads to the next VM, or the one before, past any header, and
/// at the ends of the list stays; nothing but the selection changes.
pub proof fn law_selection_moves_by_one(before: VmView, after: VmView, down: bool)
    requires
        before.wf(),
        before.rows@.len() <= usize::MAX,
        before.selected_row is Some,
        moved_by(
            before,
            after,
            if down {
                1
            } else {
                -1
            },
        ),
    ensures
        after.selected_row is Some,
        down ==> next_vm_row(
            before.rows@,
            before.selected_row->0 as int,
            after.selected_row->0 as int,
        ),
        !down ==> previous_vm_row(
            before.rows@,
            before.selected_row->0 as int,
            after.selected_row->0 as int,
        ),
        after.all == before.all && after.order == before.order && after.rows == before.rows
            && after.groups == before.groups && after.filter == before.filter && after.sort
            == before.sort && after.grouped == before.grouped,
{
    let rows = before.rows@;
    let vr = vm_rows_of(rows);
    let r = before.selected_row->0;
    lemma_vm_rows(rows);
    lemma_index_in(vr, r);
    assert(rows[r as int] is Vm);
    let at = choose|i: int| 0 <= i < vr.len() && #[trigger] vr[i] == r;
    assert(vr[at] == r);
    let p = index_in(vr, r) as int;
    assert(p < vr.len());
    let q = after.selected_row->0;
    if down {
        assert forall|x: int| r < x < q implies !(#[trigger] rows[x] is Vm) by {
            if rows[x] is Vm {
                let i = choose|i: int| 0 <= i < vr.len() && #[trigger] vr[i] == x;
                assert(vr[i] == x);
            }
        }
        if q == r {
            assert forall|x: int| r < x < rows.len() implies !(#[trigger] rows[x] is Vm) by {
                if rows[x] is Vm {
                    let i = choose|i: int| 0 <= i < vr.len() && #[trigger] vr[i] == x;
                    assert(vr[i] == x);
                    assert(i > p);
                }
            }
        }
    } else {
        assert forall|x: int| q < x < r implies !(#[trigger] rows[x] is Vm) by {
            if rows[x] is Vm {
                let i = choose|i: int| 0 <= i < vr.len() && #[trigger] vr[i] == x;
                assert(vr[i] == x);
            }
        }
        if q == r {
            assert forall|x: int| 0 <= x < r implies !(#[trigger] rows[x] is Vm) by {
                if rows[x] is Vm {
                    let i = choose|i: int| 0 <= i < vr.len() && #[trigger] vr[i] == x;
                    assert(vr[i] == x);
                    assert(i < p);
                }
            }
        }
    }
}

/// Jumping leads to the very first or the very last VM.
pub proof fn law_selection_jumps_to_the_ends(before: VmView, after: VmView, to_first: bool)
    requires
        before.wf(),
        before.rows@.len() <= usize::MAX,
        before.selected_row is Some,
        jumped(before, after, to_first),
    ensures
        after.selected_row is Some,
        after.selected_row->0 < before.rows@.len(),
        before.rows@[after.selected_row->0 as int] is Vm,
        to_first ==> forall|r: int|
            0 <= r < after.selected_row->0 ==> !(#[trigger] before.rows@[r] is Vm),
        !to_first ==> forall|r: int|
            after.selected_row->0 < r < before.rows@.len() ==> !(#[trigger] before.rows@[r] is Vm),
{
    let rows = before.rows@;
    let vr = vm_rows_of(rows);
    lemma_vm_rows(rows);
    assert(rows[before.selected_row->0 as int] is Vm);
    let q = after.selected_row->0;
    assert forall|r: int| 0 <= r < rows.len() && #[trigger] rows[r] is Vm implies (to_first ==> q
        <= r) && (!to_first ==> r <= q) by {
        let i = choose|i: int| 0 <= i < vr.len() && #[trigger] vr[i] == r;
        assert(vr[i] == r);
        assert(vr[0] <= vr[i]);
        assert(vr[i] <= vr[vr.len() - 1]);
    }
}

// ---------------------------------------------------------------------------
// Keys
// ---------------------------------------------------------------------------

/// The keys that move do so as they say: `j` and the down key by one VM down,
/// `k` and the up key by one up, pages by five, `g` and `G`, Home and End to the
/// ends; they change nothing but the selection.
pub proof fn law_keys_move_the_selection(before: App, after: App, key: Key)
    requires
        commanded(before, after, key, false),
    ensures
        key == Key::Down || key == Key::Char('j') ==> moved_by(before.view, after.view, 1),
        key == Key::Up || key == Key::Char('k') ==> moved_by(before.view, after.view, -1),
        key == Key::PageDown ==> moved_by(before.view, after.view, 5),
        key == Key::PageUp ==> moved_by(before.view, after.view, -5),
        key == Key::Home || key == Key::Char('g') ==> jumped(before.view, after.view, true),
        key == Key::End || key == Key::Char('G') ==> jumped(before.view, after.view, false),
        key == Key::Down || key == Key::Up || key == Key::PageDown || key == Key::PageUp || key
            == Key::Home || key == Key::End || key == Key::Char('j') || key == Key::Char('k')
            || key == Key::Char('g') || key == Key::Char('G') ==> after.mode == before.mode
            && after.filter == before.filter && after.quit == before.quit,
{
}

/// Only `q` and Ctrl-C leave the dashboard, and no key does while the filter is
/// edited.
pub proof fn law_keys_that_quit(before: App, after: App, key: Key, ctrl: bool)
    requires
        !before.quit,
    ensures
        commanded(before, after, key, ctrl) ==> (after.quit <==> key == Key::Char('q') || (key
            == Key::Char('c') && ctrl)),
        typed(before, after, key) ==> !after.quit,
{
}

/// A key that was pressed twice has switched back: grouping and order are as
/// they were, and all VMs are still there.
pub proof fn law_switches_switch_back(a: App, b: App, c: App, key: Key)
    requires
        key == Key::Char('f') || key == Key::Char('s'),
        commanded(a, b, key, false),
        commanded(b, c, key, false),
    ensures
        c.view.grouped == a.view.grouped,
        c.view.sort == a.view.sort,
        c.view.filter == a.view.filter,
        c.view.all == a.view.all,
        key == Key::Char('f') ==> b.view.grouped != a.view.grouped && b.view.sort == a.view.sort,
        key == Key::Char('s') ==> b.view.sort != a.view.sort && b.view.grouped == a.view.grouped,
{
}

/// What is typed is what is filtered by, at once; a backspace takes the last
/// character back.
pub proof fn law_filter_is_as_typed(a: App, b: App, c: App, ch: char)
    requires
        typed(a, b, Key::Char(ch)),
        typed(b, c, Key::Backspace),
    ensures
        b.filter@ == a.filter@.push(ch),
        b.view.filter@ == b.filter@,
        c.filter@ == a.filter@,
        c.view.filter@ == a.filter@,
        b.mode is Filtering && c.mode is Filtering,
        c.view.all == a.view.all,
{
    assert(a.filter@.push(ch).drop_last() =~= a.filter@);
}

/// `/` begins a filter, Enter keeps it, and Escape clears it so that all VMs are
/// shown again.
pub proof fn law_filter_begins_and_ends(a: App, b: App, key: Key)
    ensures
        commanded(a, b, Key::Char('/'), false) ==> b.mode is Filtering && b.filter@.len() == 0
            && b.view == a.view,
        typed(a, b, Key::Enter) ==> b.mode is Normal && b.view == a.view && b.filter == a.filter,
        typed(a, b, Key::Esc) ==> b.mode is Normal && b.view.filter@.len() == 0 && b.filter@.len()
            == 0 && b.view.all == a.view.all,
{
}

// ---------------------------------------------------------------------------
// Addresses
// ---------------------------------------------------------------------------

/// Whether a text is all slashes.
pub open spec fn all_slashes(s: Seq<char>) -> bool {
    forall|i: int| 0 <= i < s.len() ==> #[trigger] s[i] == '/'
}

/// Slashes at the end of an address make no difference, and nothing else is
/// taken off.
pub proof fn law_slashes_at_the_end_make_no_difference(s: Seq<char>, slashes: Seq<char>)
    requires
        s.len() > 0 ==> s.last() != '/',
        all_slashes(slashes),
    ensures
        without_slashes(s + slashes) == s,
    decreases slashes.len(),
{
    if slashes.len() == 0 {
        assert(s + slashes =~= s);
    } else {
        let rest = slashes.drop_last();
        assert(slashes[slashes.len() - 1] == '/');
        assert forall|i: int| 0 <= i < rest.len() implies #[trigger] rest[i] == '/' by {
            assert(rest[i] == slashes[i]);
        }
        law_slashes_at_the_end_make_no_difference(s, rest);
        assert((s + slashes).drop_last() =~= s + rest);
        assert((s + slashes).last() == '/');
    }
}

/// A scheme is taken off an address, and only that.
pub proof fn law_scheme_is_taken_off(s: Seq<char>, scheme: Seq<char>)
    requires
        scheme.len() > 0,
        !text::has_prefix(s, scheme),
    ensures
        without_prefix(s, scheme) == s,
        without_prefix(scheme + s, scheme) == s,
{
    let whole = scheme + s;
    let n = scheme.len() as int;
    assert(whole.take(n) =~= scheme);
    assert(whole.skip(n) =~= s);
    assert(text::has_prefix(whole, scheme));
    assert(without_prefix(s, scheme) == s);
    assert(without_prefix(whole, scheme) == without_prefix(whole.skip(n), scheme));
}

} // verus!
